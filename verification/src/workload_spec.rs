//! Source workloads and traffic of an experiment as users describe them.

use vstd::prelude::*;
use vstd::string::*;
use crate::protocol::{first_error, reports};
use crate::text::{
    blank, copy_texts, is_blank, optional_text, precedes, same_text, strip_prefix, texts,
    without_prefix,
};
use crate::words::{has_ascending_names, named_entries, names_ascend};

verus! {

/// A process that an experiment starts on this machine, without a shell.
#[derive(Clone, Debug, PartialEq, Eq)]
pub struct LocalProcess {
    pub program: String,
    pub args: Vec<String>,
    /// Variables in ascending order of their names, none twice.
    pub environment: Vec<(String, String)>,
    pub working_directory: Option<String>,
}

/// How a missing Docker container is created.
#[derive(Clone, Debug, PartialEq, Eq)]
pub struct DockerProvision {
    pub image: String,
    pub command: Vec<String>,
    /// Variables in ascending order of their names, none twice.
    pub environment: Vec<(String, String)>,
    /// Whether a container that the experiment created is removed afterwards.
    /// One that was there before is never removed.
    pub remove_on_exit: bool,
}

/// How a missing LXC container is created.
#[derive(Clone, Debug, PartialEq, Eq)]
pub struct LxcProvision {
    pub distribution: String,
    pub release: String,
    pub architecture: String,
    pub remove_on_exit: bool,
}

/// Whether an experiment may start its workload.
#[derive(Clone, Copy, Debug, PartialEq, Eq, Structural)]
pub enum WorkloadLifecycle {
    /// The workload must be running and is left as it is.
    Existing,
    /// A stopped workload is started and stopped again afterwards. One that
    /// was running stays running.
    Session,
}

impl Default for WorkloadLifecycle {
    fn default() -> (r: Self)
        ensures
            r == WorkloadLifecycle::Existing,
    {
        WorkloadLifecycle::Existing
    }
}

/// The workload whose traffic an experiment affects.
#[derive(Clone, Debug, PartialEq, Eq)]
pub enum WorkloadSpec {
    Local { interface: String, process: Option<LocalProcess> },
    Docker {
        container: String,
        interface: String,
        lifecycle: WorkloadLifecycle,
        provision: Option<DockerProvision>,
    },
    Lxc {
        container: String,
        interface: String,
        lifecycle: WorkloadLifecycle,
        provision: Option<LxcProvision>,
    },
}

/// A workload whose interface is settled.
#[derive(Clone, Debug, PartialEq, Eq)]
pub enum AttachSpec {
    Local { interface: String, process: Option<LocalProcess> },
    Docker {
        container: String,
        interface: String,
        lifecycle: WorkloadLifecycle,
        provision: Option<DockerProvision>,
    },
    Lxc {
        container: String,
        interface: String,
        lifecycle: WorkloadLifecycle,
        provision: Option<LxcProvision>,
    },
}

/// The interface of a workload that names none.
pub fn default_interface() -> (r: String)
    ensures
        r@ == "auto"@,
{
    "auto".to_owned()
}

/// Whether a created container is removed unless users say otherwise.
pub fn default_true() -> (r: bool)
    ensures
        r,
{
    true
}

/// Pairs of texts as values.
pub open spec fn pairs(list: Seq<(String, String)>) -> Seq<(Seq<char>, Seq<char>)> {
    list.map_values(|pair: (String, String)| (pair.0@, pair.1@))
}

/// A local process as a value.
pub struct Process {
    pub program: Seq<char>,
    pub args: Seq<Seq<char>>,
    pub environment: Seq<(Seq<char>, Seq<char>)>,
    pub working_directory: Option<Seq<char>>,
}

impl View for LocalProcess {
    type V = Process;

    open spec fn view(&self) -> Process {
        Process {
            program: self.program@,
            args: texts(self.args@),
            environment: pairs(self.environment@),
            working_directory: optional_text(self.working_directory),
        }
    }
}

/// How a Docker container is created, as a value.
pub struct Container {
    pub image: Seq<char>,
    pub command: Seq<Seq<char>>,
    pub environment: Seq<(Seq<char>, Seq<char>)>,
    pub remove_on_exit: bool,
}

impl View for DockerProvision {
    type V = Container;

    open spec fn view(&self) -> Container {
        Container {
            image: self.image@,
            command: texts(self.command@),
            environment: pairs(self.environment@),
            remove_on_exit: self.remove_on_exit,
        }
    }
}

/// How an LXC container is created, as a value.
pub struct System {
    pub distribution: Seq<char>,
    pub release: Seq<char>,
    pub architecture: Seq<char>,
    pub remove_on_exit: bool,
}

impl View for LxcProvision {
    type V = System;

    open spec fn view(&self) -> System {
        System {
            distribution: self.distribution@,
            release: self.release@,
            architecture: self.architecture@,
            remove_on_exit: self.remove_on_exit,
        }
    }
}

/// A workload as a value.
pub enum Workload {
    Local { interface: Seq<char>, process: Option<Process> },
    Docker {
        container: Seq<char>,
        interface: Seq<char>,
        lifecycle: WorkloadLifecycle,
        provision: Option<Container>,
    },
    Lxc {
        container: Seq<char>,
        interface: Seq<char>,
        lifecycle: WorkloadLifecycle,
        provision: Option<System>,
    },
}

pub open spec fn process_of(process: Option<LocalProcess>) -> Option<Process> {
    match process {
        Some(value) => Some(value@),
        None => None,
    }
}

pub open spec fn container_of(provision: Option<DockerProvision>) -> Option<Container> {
    match provision {
        Some(value) => Some(value@),
        None => None,
    }
}

pub open spec fn system_of(provision: Option<LxcProvision>) -> Option<System> {
    match provision {
        Some(value) => Some(value@),
        None => None,
    }
}

impl View for WorkloadSpec {
    type V = Workload;

    open spec fn view(&self) -> Workload {
        match *self {
            WorkloadSpec::Local { interface, process } => Workload::Local {
                interface: interface@,
                process: process_of(process),
            },
            WorkloadSpec::Docker { container, interface, lifecycle, provision } => Workload::Docker {
                container: container@,
                interface: interface@,
                lifecycle,
                provision: container_of(provision),
            },
            WorkloadSpec::Lxc { container, interface, lifecycle, provision } => Workload::Lxc {
                container: container@,
                interface: interface@,
                lifecycle,
                provision: system_of(provision),
            },
        }
    }
}

impl View for AttachSpec {
    type V = Workload;

    open spec fn view(&self) -> Workload {
        match *self {
            AttachSpec::Local { interface, process } => Workload::Local {
                interface: interface@,
                process: process_of(process),
            },
            AttachSpec::Docker { container, interface, lifecycle, provision } => Workload::Docker {
                container: container@,
                interface: interface@,
                lifecycle,
                provision: container_of(provision),
            },
            AttachSpec::Lxc { container, interface, lifecycle, provision } => Workload::Lxc {
                container: container@,
                interface: interface@,
                lifecycle,
                provision: system_of(provision),
            },
        }
    }
}

impl Workload {
    /// The interface of a workload.
    pub open spec fn interface(self) -> Seq<char> {
        match self {
            Workload::Local { interface, .. } => interface,
            Workload::Docker { interface, .. } => interface,
            Workload::Lxc { interface, .. } => interface,
        }
    }

    /// The workload with another interface.
    pub open spec fn on_interface(self, interface: Seq<char>) -> Workload {
        match self {
            Workload::Local { process, .. } => Workload::Local { interface, process },
            Workload::Docker { container, lifecycle, provision, .. } => Workload::Docker {
                container,
                interface,
                lifecycle,
                provision,
            },
            Workload::Lxc { container, lifecycle, provision, .. } => Workload::Lxc {
                container,
                interface,
                lifecycle,
                provision,
            },
        }
    }

    /// The address of a workload: its runtime, its container and its
    /// interface.
    pub open spec fn uri(self) -> Seq<char> {
        match self {
            Workload::Local { interface, .. } => "local://"@ + interface,
            Workload::Docker { container, interface, .. } => "docker://"@ + container + "/"@
                + interface,
            Workload::Lxc { container, interface, .. } => "lxc://"@ + container + "/"@ + interface,
        }
    }

    /// Why an interface is not settled.
    pub open spec fn concrete_error(self) -> Option<Seq<char>> {
        interface_error(self.interface())
    }

    /// Why a resolved interface does not fit a workload.
    pub open spec fn resolution_error(self, resolved: Seq<char>) -> Option<Seq<char>> {
        first_error(
            interface_error(resolved),
            if self.interface() != "auto"@ && self.interface() != resolved {
                Some(
                    "resolved interface "@ + resolved + " does not match requested interface "@
                        + self.interface(),
                )
            } else {
                None
            },
        )
    }

    /// Why an attach point does not belong to a workload.
    pub open spec fn attach_error(self, attach: Workload) -> Option<Seq<char>> {
        first_error(
            self.resolution_error(attach.interface()),
            if self.on_interface(attach.interface()) != attach {
                Some("resolved attach does not match the experiment source"@)
            } else {
                None
            },
        )
    }

    /// What is wrong with a workload.
    pub open spec fn error(self) -> Option<Seq<char>> {
        match self {
            Workload::Local { interface, process } => first_error(
                empty_error(interface, "source interface must not be empty"@),
                if interface == "auto"@ {
                    Some("local source requires an explicit interface"@)
                } else {
                    match process {
                        Some(value) => value.error(),
                        None => None,
                    }
                },
            ),
            Workload::Docker { container, interface, provision, .. } => first_error(
                container_error(container, interface),
                match provision {
                    Some(value) => value.error(),
                    None => None,
                },
            ),
            Workload::Lxc { container, interface, provision, .. } => first_error(
                container_error(container, interface),
                match provision {
                    Some(value) => value.error(),
                    None => None,
                },
            ),
        }
    }
}

/// Why an interface is not settled.
pub open spec fn interface_error(interface: Seq<char>) -> Option<Seq<char>> {
    first_error(
        empty_error(interface, "resolved interface must not be empty"@),
        if interface == "auto"@ {
            Some("resolved interface must be concrete, not auto"@)
        } else {
            None
        },
    )
}

/// The complaint about a text that must say something.
pub open spec fn empty_error(value: Seq<char>, message: Seq<char>) -> Option<Seq<char>> {
    if blank(value) {
        Some(message)
    } else {
        None
    }
}

pub open spec fn container_error(container: Seq<char>, interface: Seq<char>) -> Option<Seq<char>> {
    first_error(
        empty_error(container, "source container must not be empty"@),
        empty_error(interface, "source interface must not be empty"@),
    )
}

/// The complaint about entries that are not listed by ascending names.
pub open spec fn order_error<T>(list: Seq<(Seq<char>, T)>, message: Seq<char>) -> Option<
    Seq<char>,
> {
    if names_ascend(list) {
        None
    } else {
        Some(message)
    }
}

impl Process {
    pub open spec fn error(self) -> Option<Seq<char>> {
        first_error(
            empty_error(self.program, "local process program must not be empty"@),
            order_error(
                self.environment,
                "local process environment must have distinct names in ascending order"@,
            ),
        )
    }
}

impl Container {
    pub open spec fn error(self) -> Option<Seq<char>> {
        first_error(
            empty_error(self.image, "Docker provision image must not be empty"@),
            order_error(
                self.environment,
                "Docker provision environment must have distinct names in ascending order"@,
            ),
        )
    }
}

impl System {
    pub open spec fn error(self) -> Option<Seq<char>> {
        if blank(self.distribution) || blank(self.release) || blank(self.architecture) {
            Some("LXC provision distribution, release, and architecture are required"@)
        } else {
            None
        }
    }
}

/// Rejects a text of nothing but white space.
pub fn validate_non_empty(value: &str, message: &str) -> (r: Result<(), String>)
    ensures
        reports(r, empty_error(value@, message@)),
{
    if is_blank(value) {
        Err(message.to_owned())
    } else {
        Ok(())
    }
}

/// Rejects pairs that are not listed by ascending names.
pub fn validate_order(list: &Vec<(String, String)>, message: &str) -> (r: Result<(), String>)
    ensures
        reports(r, order_error(pairs(list@), message@)),
{
    proof {
        let entries = named_entries(list@);
        let values = pairs(list@);
        assert forall|i: int, j: int| 0 <= i < j < list@.len() implies precedes(
            (#[trigger] values[i]).0,
            (#[trigger] values[j]).0,
        ) == precedes(entries[i].0, entries[j].0) by {}
        if names_ascend(values) {
            assert forall|i: int, j: int| 0 <= i < j < entries.len() implies precedes(
                (#[trigger] entries[i]).0,
                (#[trigger] entries[j]).0,
            ) by {
                assert(values[i].0 == entries[i].0 && values[j].0 == entries[j].0);
            }
        }
    }
    if has_ascending_names(list) {
        Ok(())
    } else {
        Err(message.to_owned())
    }
}

/// Rejects zero.
pub fn validate_non_zero(value: u64, message: &str) -> (r: Result<(), String>)
    ensures
        reports(
            r,
            if value == 0 {
                Some(message@)
            } else {
                None
            },
        ),
{
    if value == 0 {
        Err(message.to_owned())
    } else {
        Ok(())
    }
}

fn validate_container(container: &str, interface: &str) -> (r: Result<(), String>)
    ensures
        reports(r, container_error(container@, interface@)),
{
    match validate_non_empty(container, "source container must not be empty") {
        Ok(_) => {},
        Err(message) => return Err(message),
    }
    validate_non_empty(interface, "source interface must not be empty")
}

fn validate_interface(interface: &str) -> (r: Result<(), String>)
    ensures
        reports(r, interface_error(interface@)),
{
    match validate_non_empty(interface, "resolved interface must not be empty") {
        Ok(_) => {},
        Err(message) => return Err(message),
    }
    if same_text(interface, "auto") {
        return Err("resolved interface must be concrete, not auto".to_owned());
    }
    Ok(())
}

/// Copies pairs of texts.
pub fn copy_pairs(list: &Vec<(String, String)>) -> (r: Vec<(String, String)>)
    ensures
        pairs(r@) == pairs(list@),
{
    let mut out: Vec<(String, String)> = Vec::new();
    let mut index: usize = 0;
    while index < list.len()
        invariant
            index <= list@.len(),
            out@ == list@.take(index as int),
        decreases list@.len() - index,
    {
        out.push((list[index].0.clone(), list[index].1.clone()));
        assert(out@ =~= list@.take(index + 1));
        index += 1;
    }
    assert(list@.take(list@.len() as int) =~= list@);
    out
}

/// Compares lists of texts.
pub fn same_texts(left: &Vec<String>, right: &Vec<String>) -> (r: bool)
    ensures
        r == (texts(left@) == texts(right@)),
{
    if left.len() != right.len() {
        assert(texts(left@).len() != texts(right@).len());
        return false;
    }
    let mut index: usize = 0;
    while index < left.len()
        invariant
            index <= left@.len() == right@.len(),
            forall|i: int| 0 <= i < index ==> (#[trigger] left@[i])@ == right@[i]@,
        decreases left@.len() - index,
    {
        if left[index] != right[index] {
            assert(texts(left@)[index as int] != texts(right@)[index as int]);
            return false;
        }
        index += 1;
    }
    assert(texts(left@) =~= texts(right@));
    true
}

/// Compares lists of pairs.
pub fn same_pairs(left: &Vec<(String, String)>, right: &Vec<(String, String)>) -> (r: bool)
    ensures
        r == (pairs(left@) == pairs(right@)),
{
    if left.len() != right.len() {
        assert(pairs(left@).len() != pairs(right@).len());
        return false;
    }
    let mut index: usize = 0;
    while index < left.len()
        invariant
            index <= left@.len() == right@.len(),
            forall|i: int|
                0 <= i < index ==> (#[trigger] left@[i]).0@ == right@[i].0@ && left@[i].1@
                    == right@[i].1@,
        decreases left@.len() - index,
    {
        if left[index].0 != right[index].0 || left[index].1 != right[index].1 {
            assert(pairs(left@)[index as int] != pairs(right@)[index as int]);
            return false;
        }
        index += 1;
    }
    assert(pairs(left@) =~= pairs(right@));
    true
}

/// Compares optional texts.
pub fn same_optional_text(left: &Option<String>, right: &Option<String>) -> (r: bool)
    ensures
        r == (optional_text(*left) == optional_text(*right)),
{
    match (left, right) {
        (Some(a), Some(b)) => *a == *b,
        (None, None) => true,
        _ => false,
    }
}

impl LocalProcess {
    pub fn copy(&self) -> (r: LocalProcess)
        ensures
            r@ == self@,
    {
        LocalProcess {
            program: self.program.clone(),
            args: copy_texts(&self.args),
            environment: copy_pairs(&self.environment),
            working_directory: copy_optional_text(&self.working_directory),
        }
    }

    pub fn same(&self, other: &LocalProcess) -> (r: bool)
        ensures
            r == (self@ == other@),
    {
        self.program == other.program && same_texts(&self.args, &other.args) && same_pairs(
            &self.environment,
            &other.environment,
        ) && same_optional_text(&self.working_directory, &other.working_directory)
    }

    pub fn validate(&self) -> (r: Result<(), String>)
        ensures
            reports(r, self@.error()),
    {
        match validate_non_empty(self.program.as_str(), "local process program must not be empty") {
            Ok(_) => {},
            Err(message) => return Err(message),
        }
        validate_order(
            &self.environment,
            "local process environment must have distinct names in ascending order",
        )
    }
}

/// Copies an optional text.
pub fn copy_optional_text(text: &Option<String>) -> (r: Option<String>)
    ensures
        r == *text,
{
    match text {
        Some(value) => Some(value.clone()),
        None => None,
    }
}

impl DockerProvision {
    pub fn copy(&self) -> (r: DockerProvision)
        ensures
            r@ == self@,
    {
        DockerProvision {
            image: self.image.clone(),
            command: copy_texts(&self.command),
            environment: copy_pairs(&self.environment),
            remove_on_exit: self.remove_on_exit,
        }
    }

    pub fn same(&self, other: &DockerProvision) -> (r: bool)
        ensures
            r == (self@ == other@),
    {
        self.image == other.image && same_texts(&self.command, &other.command) && same_pairs(
            &self.environment,
            &other.environment,
        ) && self.remove_on_exit == other.remove_on_exit
    }

    pub fn validate(&self) -> (r: Result<(), String>)
        ensures
            reports(r, self@.error()),
    {
        match validate_non_empty(self.image.as_str(), "Docker provision image must not be empty") {
            Ok(_) => {},
            Err(message) => return Err(message),
        }
        validate_order(
            &self.environment,
            "Docker provision environment must have distinct names in ascending order",
        )
    }
}

impl LxcProvision {
    pub fn copy(&self) -> (r: LxcProvision)
        ensures
            r@ == self@,
    {
        LxcProvision {
            distribution: self.distribution.clone(),
            release: self.release.clone(),
            architecture: self.architecture.clone(),
            remove_on_exit: self.remove_on_exit,
        }
    }

    pub fn same(&self, other: &LxcProvision) -> (r: bool)
        ensures
            r == (self@ == other@),
    {
        self.distribution == other.distribution && self.release == other.release
            && self.architecture == other.architecture && self.remove_on_exit
            == other.remove_on_exit
    }

    pub fn validate(&self) -> (r: Result<(), String>)
        ensures
            reports(r, self@.error()),
    {
        if is_blank(self.distribution.as_str()) || is_blank(self.release.as_str()) || is_blank(
            self.architecture.as_str(),
        ) {
            Err("LXC provision distribution, release, and architecture are required".to_owned())
        } else {
            Ok(())
        }
    }
}

pub fn copy_process(process: &Option<LocalProcess>) -> (r: Option<LocalProcess>)
    ensures
        process_of(r) == process_of(*process),
{
    match process {
        Some(value) => Some(value.copy()),
        None => None,
    }
}

pub fn copy_container(provision: &Option<DockerProvision>) -> (r: Option<DockerProvision>)
    ensures
        container_of(r) == container_of(*provision),
{
    match provision {
        Some(value) => Some(value.copy()),
        None => None,
    }
}

pub fn copy_system(provision: &Option<LxcProvision>) -> (r: Option<LxcProvision>)
    ensures
        system_of(r) == system_of(*provision),
{
    match provision {
        Some(value) => Some(value.copy()),
        None => None,
    }
}

fn write_uri(scheme: &str, container: &str, interface: &str) -> (r: String)
    ensures
        r@ == scheme@ + container@ + "/"@ + interface@,
{
    let mut uri = scheme.to_owned();
    uri.append(container);
    uri.append("/");
    uri.append(interface);
    uri
}

impl AttachSpec {
    /// The address of the attach point.
    pub fn target_uri(&self) -> (r: String)
        ensures
            r@ == self@.uri(),
    {
        match self {
            AttachSpec::Local { interface, .. } => {
                let mut uri = "local://".to_owned();
                uri.append(interface.as_str());
                uri
            },
            AttachSpec::Docker { container, interface, .. } => write_uri(
                "docker://",
                container.as_str(),
                interface.as_str(),
            ),
            AttachSpec::Lxc { container, interface, .. } => write_uri(
                "lxc://",
                container.as_str(),
                interface.as_str(),
            ),
        }
    }

    /// The interface of the attach point.
    pub fn interface(&self) -> (r: &String)
        ensures
            r@ == self@.interface(),
    {
        match self {
            AttachSpec::Local { interface, .. } => interface,
            AttachSpec::Docker { interface, .. } => interface,
            AttachSpec::Lxc { interface, .. } => interface,
        }
    }

    /// Rejects an attach point without a settled interface.
    pub fn validate_concrete(&self) -> (r: Result<(), String>)
        ensures
            reports(r, self@.concrete_error()),
    {
        validate_interface(self.interface().as_str())
    }

    pub fn copy(&self) -> (r: AttachSpec)
        ensures
            r@ == self@,
    {
        match self {
            AttachSpec::Local { interface, process } => AttachSpec::Local {
                interface: interface.clone(),
                process: copy_process(process),
            },
            AttachSpec::Docker { container, interface, lifecycle, provision } => AttachSpec::Docker {
                container: container.clone(),
                interface: interface.clone(),
                lifecycle: *lifecycle,
                provision: copy_container(provision),
            },
            AttachSpec::Lxc { container, interface, lifecycle, provision } => AttachSpec::Lxc {
                container: container.clone(),
                interface: interface.clone(),
                lifecycle: *lifecycle,
                provision: copy_system(provision),
            },
        }
    }

    pub fn same(&self, other: &AttachSpec) -> (r: bool)
        ensures
            r == (self@ == other@),
    {
        match (self, other) {
            (
                AttachSpec::Local { interface: a, process: p },
                AttachSpec::Local { interface: b, process: q },
            ) => *a == *b && match (p, q) {
                (Some(x), Some(y)) => x.same(y),
                (None, None) => true,
                _ => false,
            },
            (
                AttachSpec::Docker { container: c, interface: a, lifecycle: l, provision: p },
                AttachSpec::Docker { container: d, interface: b, lifecycle: m, provision: q },
            ) => *c == *d && *a == *b && *l == *m && match (p, q) {
                (Some(x), Some(y)) => x.same(y),
                (None, None) => true,
                _ => false,
            },
            (
                AttachSpec::Lxc { container: c, interface: a, lifecycle: l, provision: p },
                AttachSpec::Lxc { container: d, interface: b, lifecycle: m, provision: q },
            ) => *c == *d && *a == *b && *l == *m && match (p, q) {
                (Some(x), Some(y)) => x.same(y),
                (None, None) => true,
                _ => false,
            },
            _ => false,
        }
    }
}

impl WorkloadSpec {
    /// The address of the workload, with its interface as it was asked for.
    pub fn target_uri(&self) -> (r: String)
        ensures
            r@ == self@.uri(),
    {
        match self {
            WorkloadSpec::Local { interface, .. } => {
                let mut uri = "local://".to_owned();
                uri.append(interface.as_str());
                uri
            },
            WorkloadSpec::Docker { container, interface, .. } => write_uri(
                "docker://",
                container.as_str(),
                interface.as_str(),
            ),
            WorkloadSpec::Lxc { container, interface, .. } => write_uri(
                "lxc://",
                container.as_str(),
                interface.as_str(),
            ),
        }
    }

    /// The interface that was asked for.
    pub fn interface(&self) -> (r: &String)
        ensures
            r@ == self@.interface(),
    {
        match self {
            WorkloadSpec::Local { interface, .. } => interface,
            WorkloadSpec::Docker { interface, .. } => interface,
            WorkloadSpec::Lxc { interface, .. } => interface,
        }
    }

    /// The attach point of the workload on a settled interface, which must be
    /// the one that was asked for unless the choice was left open.
    pub fn resolved_attach(&self, resolved_interface: String) -> (r: Result<AttachSpec, String>)
        ensures
            match (r, self@.resolution_error(resolved_interface@)) {
                (Ok(attach), None) => attach@ == self@.on_interface(resolved_interface@),
                (Err(message), Some(wanted)) => message@ == wanted,
                _ => false,
            },
    {
        match validate_interface(resolved_interface.as_str()) {
            Ok(_) => {},
            Err(message) => return Err(message),
        }
        let requested = self.interface();
        if !same_text(requested.as_str(), "auto") && *requested != resolved_interface {
            let mut message = "resolved interface ".to_owned();
            message.append(resolved_interface.as_str());
            message.append(" does not match requested interface ");
            message.append(requested.as_str());
            return Err(message);
        }
        Ok(
            match self {
                WorkloadSpec::Local { process, .. } => AttachSpec::Local {
                    interface: resolved_interface,
                    process: copy_process(process),
                },
                WorkloadSpec::Docker { container, lifecycle, provision, .. } => AttachSpec::Docker {
                    container: container.clone(),
                    interface: resolved_interface,
                    lifecycle: *lifecycle,
                    provision: copy_container(provision),
                },
                WorkloadSpec::Lxc { container, lifecycle, provision, .. } => AttachSpec::Lxc {
                    container: container.clone(),
                    interface: resolved_interface,
                    lifecycle: *lifecycle,
                    provision: copy_system(provision),
                },
            },
        )
    }

    /// Rejects an attach point that does not belong to the workload.
    pub fn validate_attach(&self, attach: &AttachSpec) -> (r: Result<(), String>)
        ensures
            reports(r, self@.attach_error(attach@)),
    {
        let own = match self.resolved_attach(attach.interface().clone()) {
            Ok(own) => own,
            Err(message) => return Err(message),
        };
        if own.same(attach) {
            Ok(())
        } else {
            Err("resolved attach does not match the experiment source".to_owned())
        }
    }

    /// Checks a workload.
    pub fn validate(&self) -> (r: Result<(), String>)
        ensures
            reports(r, self@.error()),
    {
        match self {
            WorkloadSpec::Local { interface, process } => {
                match validate_non_empty(interface.as_str(), "source interface must not be empty") {
                    Ok(_) => {},
                    Err(message) => return Err(message),
                }
                if same_text(interface.as_str(), "auto") {
                    return Err("local source requires an explicit interface".to_owned());
                }
                match process {
                    Some(value) => value.validate(),
                    None => Ok(()),
                }
            },
            WorkloadSpec::Docker { container, interface, provision, .. } => {
                match validate_container(container.as_str(), interface.as_str()) {
                    Ok(_) => {},
                    Err(message) => return Err(message),
                }
                match provision {
                    Some(value) => value.validate(),
                    None => Ok(()),
                }
            },
            WorkloadSpec::Lxc { container, interface, provision, .. } => {
                match validate_container(container.as_str(), interface.as_str()) {
                    Ok(_) => {},
                    Err(message) => return Err(message),
                }
                match provision {
                    Some(value) => value.validate(),
                    None => Ok(()),
                }
            },
        }
    }

    pub fn copy(&self) -> (r: WorkloadSpec)
        ensures
            r@ == self@,
    {
        match self {
            WorkloadSpec::Local { interface, process } => WorkloadSpec::Local {
                interface: interface.clone(),
                process: copy_process(process),
            },
            WorkloadSpec::Docker { container, interface, lifecycle, provision } =>
                WorkloadSpec::Docker {
                container: container.clone(),
                interface: interface.clone(),
                lifecycle: *lifecycle,
                provision: copy_container(provision),
            },
            WorkloadSpec::Lxc { container, interface, lifecycle, provision } => WorkloadSpec::Lxc {
                container: container.clone(),
                interface: interface.clone(),
                lifecycle: *lifecycle,
                provision: copy_system(provision),
            },
        }
    }
}

/// The traffic that an experiment generates itself.
#[derive(Clone, Debug, PartialEq, Eq)]
pub enum TrafficSpec {
    Http { url: String, interval_ms: u64, timeout_ms: u64 },
    Command { program: String, args: Vec<String>, interval_ms: u64 },
}

/// The pause between two requests unless users say otherwise.
pub fn default_traffic_interval_ms() -> (r: u64)
    ensures
        r == 1_000,
{
    1_000
}

/// The time a request may take unless users say otherwise.
pub fn default_traffic_timeout_ms() -> (r: u64)
    ensures
        r == 2_000,
{
    2_000
}

/// Generated traffic as a value.
pub enum Traffic {
    Http { url: Seq<char>, interval_ms: u64, timeout_ms: u64 },
    Command { program: Seq<char>, args: Seq<Seq<char>>, interval_ms: u64 },
}

impl View for TrafficSpec {
    type V = Traffic;

    open spec fn view(&self) -> Traffic {
        match *self {
            TrafficSpec::Http { url, interval_ms, timeout_ms } => Traffic::Http {
                url: url@,
                interval_ms,
                timeout_ms,
            },
            TrafficSpec::Command { program, args, interval_ms } => Traffic::Command {
                program: program@,
                args: texts(args@),
                interval_ms,
            },
        }
    }
}

pub open spec fn traffic_of(traffic: Option<TrafficSpec>) -> Option<Traffic> {
    match traffic {
        Some(value) => Some(value@),
        None => None,
    }
}

impl Traffic {
    /// The pause between two requests.
    pub open spec fn interval(self) -> u64 {
        match self {
            Traffic::Http { interval_ms, .. } => interval_ms,
            Traffic::Command { interval_ms, .. } => interval_ms,
        }
    }

    /// What is wrong with generated traffic.
    pub open spec fn error(self) -> Option<Seq<char>> {
        match self {
            Traffic::Http { url, interval_ms, timeout_ms } => if without_prefix(url, "http://"@)
                is None && without_prefix(url, "https://"@) is None {
                Some("HTTP traffic URL must begin with http:// or https://"@)
            } else if interval_ms == 0 || timeout_ms == 0 {
                Some("HTTP traffic interval and timeout must be non-zero"@)
            } else {
                None
            },
            Traffic::Command { program, interval_ms, .. } => first_error(
                empty_error(program, "traffic command program must not be empty"@),
                if interval_ms == 0 {
                    Some("traffic command interval must be non-zero"@)
                } else {
                    None
                },
            ),
        }
    }
}

impl TrafficSpec {
    /// Checks generated traffic.
    pub fn validate(&self) -> (r: Result<(), String>)
        ensures
            reports(r, self@.error()),
    {
        match self {
            TrafficSpec::Http { url, interval_ms, timeout_ms } => {
                if strip_prefix(url.as_str(), "http://").is_none() && strip_prefix(
                    url.as_str(),
                    "https://",
                ).is_none() {
                    return Err("HTTP traffic URL must begin with http:// or https://".to_owned());
                }
                match validate_non_zero(
                    *interval_ms,
                    "HTTP traffic interval and timeout must be non-zero",
                ) {
                    Ok(_) => {},
                    Err(message) => return Err(message),
                }
                validate_non_zero(
                    *timeout_ms,
                    "HTTP traffic interval and timeout must be non-zero",
                )
            },
            TrafficSpec::Command { program, interval_ms, .. } => {
                match validate_non_empty(
                    program.as_str(),
                    "traffic command program must not be empty",
                ) {
                    Ok(_) => {},
                    Err(message) => return Err(message),
                }
                validate_non_zero(*interval_ms, "traffic command interval must be non-zero")
            },
        }
    }

    /// The pause between two requests.
    pub fn interval_ms(&self) -> (r: u64)
        ensures
            r == self@.interval(),
    {
        match self {
            TrafficSpec::Http { interval_ms, .. } => *interval_ms,
            TrafficSpec::Command { interval_ms, .. } => *interval_ms,
        }
    }

    pub fn copy(&self) -> (r: TrafficSpec)
        ensures
            r@ == self@,
    {
        match self {
            TrafficSpec::Http { url, interval_ms, timeout_ms } => TrafficSpec::Http {
                url: url.clone(),
                interval_ms: *interval_ms,
                timeout_ms: *timeout_ms,
            },
            TrafficSpec::Command { program, args, interval_ms } => TrafficSpec::Command {
                program: program.clone(),
                args: copy_texts(args),
                interval_ms: *interval_ms,
            },
        }
    }
}

/// Copies optional traffic.
pub fn copy_traffic(traffic: &Option<TrafficSpec>) -> (r: Option<TrafficSpec>)
    ensures
        traffic_of(r) == traffic_of(*traffic),
{
    match traffic {
        Some(value) => Some(value.copy()),
        None => None,
    }
}

/// A resolved attach point always names a settled interface, belongs to its
/// workload and has the address of the workload with that interface filled in.
/// A workload that asked for an interface is attached there and nowhere else.
pub proof fn resolved_attach_is_concrete(source: Workload, interface: Seq<char>)
    requires
        source.resolution_error(interface) is None,
    ensures
        source.on_interface(interface).concrete_error() is None,
        source.attach_error(source.on_interface(interface)) is None,
        source.on_interface(interface).interface() == interface,
        source.interface() != "auto"@ ==> source.on_interface(interface) == source,
{
}

} // verus!
