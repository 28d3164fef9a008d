//! Laws of targets: how they are written, offered, chosen and settled, and
//! which agent is started for each.

use vstd::prelude::*;
use crate::container::{container_interface, Runtime};
use crate::invocation::Call;
use crate::session::{
    candidates, chosen, container_at, offered, offers, settled_target, site_of, with_containers,
    Direction, Opening, Site,
};
use crate::spelling::{
    prefixes_and_suffixes_come_off, texts_split_at_the_first, words_are_found_at_their_first_place,
};
use crate::text::{holds_text, split_at_first, without_prefix};
use crate::words::{ascending, first_place, split_at_word, stands_at, with_text_keeps_order};
use crate::workload_spec::Workload;

verus! {

/// A target is split behind its scheme, which holds no colon.
pub proof fn targets_split_behind_their_scheme(scheme: Seq<char>, location: Seq<char>)
    requires
        !scheme.contains(':'),
    ensures
        split_at_word(scheme + "://"@ + location, "://"@) == Some((scheme, location)),
{
    reveal_strlit("://");
    let mark = "://"@;
    let text = scheme + mark + location;
    let at = scheme.len() as int;
    words_are_found_at_their_first_place(text, mark, 0);
    assert(text.subrange(at, at + mark.len()) =~= mark);
    assert(stands_at(text, mark, at));
    let found = first_place(text, mark, 0)->0;
    assert(found == at) by {
        if found < at {
            assert(text[found] == scheme[found]);
            assert(text.subrange(found, found + mark.len())[0] == mark[0]);
            assert(scheme.contains(':'));
        }
    }
    assert(text.subrange(0, at) =~= scheme);
    assert(text.subrange(at + mark.len(), text.len() as int) =~= location);
}

proof fn names_split_before_the_slash(name: Seq<char>, rest: Seq<char>)
    requires
        !name.contains('/'),
    ensures
        split_at_first(name + seq!['/'] + rest, '/') == Some((name, rest)),
        split_at_first(name, '/') is None,
{
    let text = name + seq!['/'] + rest;
    texts_split_at_the_first(text, '/');
    texts_split_at_the_first(name, '/');
    assert(text[name.len() as int] == '/');
    assert(text.contains('/'));
    let (before, behind) = split_at_first(text, '/')->0;
    assert(before.len() == name.len()) by {
        let other = before + seq!['/'] + behind;
        if before.len() < name.len() {
            assert(other[before.len() as int] == '/');
            assert(name[before.len() as int] == '/');
        } else if name.len() < before.len() {
            assert(other[name.len() as int] == before[name.len() as int]);
            assert(before.contains('/'));
        }
    }
    assert(before =~= name) by {
        assert forall|i: int| 0 <= i < name.len() implies #[trigger] before[i] == name[i] by {
            assert((before + seq!['/'] + behind)[i] == text[i]);
        }
    }
    assert(behind =~= rest) by {
        let at = name.len() as int + 1;
        assert forall|i: int| 0 <= i < rest.len() implies #[trigger] behind[i] == rest[i] by {
            assert((before + seq!['/'] + behind)[at + i] == text[at + i]);
        }
    }
}

/// A location names a container and, behind a slash, an interface, which is
/// left open without one; neither may be empty.
pub proof fn locations_name_containers(name: Seq<char>, interface: Seq<char>)
    requires
        !name.contains('/'),
    ensures
        name.len() > 0 && interface.len() > 0 ==> container_at(name + seq!['/'] + interface)
            == Some((name, interface)),
        name.len() > 0 ==> container_at(name) == Some((name, "auto"@)),
        name.len() == 0 || interface.len() == 0 ==> container_at(name + seq!['/'] + interface)
            is None,
        container_at(Seq::empty()) is None,
{
    reveal_strlit("auto");
    names_split_before_the_slash(name, interface);
    assert(!Seq::<char>::empty().contains('/'));
    names_split_before_the_slash(Seq::empty(), interface);
}

proof fn schemes_differ()
    ensures
        "local"@ != "lxc"@,
        "local"@ != "docker"@,
        "lxc"@ != "docker"@,
        !"local"@.contains(':'),
        !"lxc"@.contains(':'),
        !"docker"@.contains(':'),
{
    reveal_strlit("local");
    reveal_strlit("lxc");
    reveal_strlit("docker");
    assert("local"@.len() == 5 && "lxc"@.len() == 3 && "docker"@.len() == 6);
}

/// A target is a local interface or a container of either runtime, by its
/// scheme. A local one names its interface; any other scheme is refused, and so
/// is a text without one.
pub proof fn sites_go_by_their_scheme(scheme: Seq<char>, location: Seq<char>, target: Seq<char>)
    requires
        !scheme.contains(':'),
    ensures
        scheme == "local"@ && location.len() > 0 && location != "auto"@ ==> site_of(
            scheme + "://"@ + location,
        ) == Ok::<Site, Seq<char>>(Site::Local { interface: location }),
        scheme == "local"@ && (location.len() == 0 || location == "auto"@) ==> site_of(
            scheme + "://"@ + location,
        ) is Err,
        scheme == "docker"@ ==> match container_at(location) {
            Some((container, interface)) => site_of(scheme + "://"@ + location) == Ok::<
                Site,
                Seq<char>,
            >(Site::Container { runtime: Runtime::Docker, container, interface }),
            None => site_of(scheme + "://"@ + location) is Err,
        },
        scheme == "lxc"@ ==> match container_at(location) {
            Some((container, interface)) => site_of(scheme + "://"@ + location) == Ok::<
                Site,
                Seq<char>,
            >(Site::Container { runtime: Runtime::Lxc, container, interface }),
            None => site_of(scheme + "://"@ + location) is Err,
        },
        scheme != "local"@ && scheme != "docker"@ && scheme != "lxc"@ ==> site_of(
            scheme + "://"@ + location,
        ) is Err,
        split_at_word(target, "://"@) is None ==> site_of(target) is Err,
{
    schemes_differ();
    targets_split_behind_their_scheme(scheme, location);
}

/// What the agent is told: its interface, which way it looks, the destination
/// and, where one was given, its engine. Unless asked to look inwards it looks
/// outwards.
pub proof fn agents_are_told_where_to_look(opening: Opening, interface: Seq<char>, engine: Seq<char>)
    ensures
        ({
            let args = opening.agent_args(interface);
            &&& args[0] == "--interface"@
            &&& args[1] == interface
            &&& args[2] == "--direction"@
            &&& opening.direction == Direction::Ingress ==> args[3] == "ingress"@
            &&& opening.direction != Direction::Ingress ==> args[3] == "egress"@
            &&& args[4] == "--destination"@
            &&& args[5] == opening.destination
            &&& opening.engine is None ==> args.len() == 6
            &&& opening.engine == Some(engine) ==> args.len() == 8 && args[6] == "--engine"@
                && args[7] == engine
        }),
{
}

/// The agent of a target runs beside a local interface, inside a system, or in
/// the network of a container with the rights that it needs, and is told the
/// target's interface.
pub proof fn agents_run_beside_their_target(
    opening: Opening,
    scheme: Seq<char>,
    location: Seq<char>,
    container: Seq<char>,
    interface: Seq<char>,
)
    requires
        !scheme.contains(':'),
        scheme != "local"@ ==> container_at(location) == Some((container, interface)),
    ensures
        scheme == "local"@ ==> opening.agent_call(scheme + "://"@ + location) == Ok::<
            Call,
            Seq<char>,
        >(Call { program: opening.agent, args: opening.agent_args(location) }),
        scheme == "lxc"@ ==> opening.agent_call(scheme + "://"@ + location) == Ok::<Call, Seq<char>>(
            Call {
                program: "lxc-attach"@,
                args: seq!["-n"@, container, "--"@, opening.agent] + opening.agent_args(interface),
            },
        ),
        scheme == "docker"@ ==> opening.agent_call(scheme + "://"@ + location) == Ok::<
            Call,
            Seq<char>,
        >(
            Call {
                program: "docker"@,
                args: seq!["run"@, "--rm"@, "-i"@] + seq![
                    "--network"@,
                    "container:"@ + container,
                ] + seq!["--cap-add"@, "NET_ADMIN"@] + seq!["--cap-add"@, "BPF"@] + seq![
                    opening.agent_image,
                ] + opening.agent_args(interface),
            },
        ),
        scheme != "local"@ && scheme != "docker"@ && scheme != "lxc"@ ==> opening.agent_call(
            scheme + "://"@ + location,
        ) is Err,
{
    schemes_differ();
    targets_split_behind_their_scheme(scheme, location);
    assert(seq!["run"@, "--rm"@, "-i"@] + seq!["--network"@, "container:"@ + container] + seq![
        "--cap-add"@,
        "NET_ADMIN"@,
    ] + seq!["--cap-add"@, "BPF"@] + seq![opening.agent_image] =~= seq![
        "run"@,
        "--rm"@,
        "-i"@,
        "--network"@,
        "container:"@ + container,
        "--cap-add"@,
        "NET_ADMIN"@,
        "--cap-add"@,
        "BPF"@,
        opening.agent_image,
    ]);
}

/// A session joins a running engine by its socket, which may be named by
/// itself, and then goes before the target, or by the target.
pub proof fn sockets_are_named_or_targeted(opening: Opening, path: Seq<char>)
    ensures
        opening.socket == Some(path) ==> opening.running_socket() == Some(path),
        opening.socket is None && opening.target == Some("unix://"@ + path)
            ==> opening.running_socket() == Some(path),
        opening.socket is None && opening.running_socket() == Some(path) ==> opening.target == Some(
            "unix://"@ + path,
        ),
        opening.socket is None && opening.target is None ==> opening.running_socket() is None,
{
    if let Some(target) = opening.target {
        prefixes_and_suffixes_come_off(target, path, "unix://"@);
    }
}

proof fn each_container_is_offered(
    targets: Seq<Seq<char>>,
    scheme: Seq<char>,
    names: Seq<Seq<char>>,
    n: nat,
    target: Seq<char>,
)
    requires
        n <= names.len(),
        ascending(targets),
    ensures
        ascending(with_containers(targets, scheme, names, n)),
        with_containers(targets, scheme, names, n).contains(target) <==> targets.contains(target)
            || exists|i: int| 0 <= i < n && scheme + #[trigger] names[i] + "/auto"@ == target,
    decreases n,
{
    if n > 0 {
        let m = (n - 1) as nat;
        each_container_is_offered(targets, scheme, names, m, target);
        with_text_keeps_order(
            with_containers(targets, scheme, names, m),
            scheme + names[m as int] + "/auto"@,
        );
        if exists|i: int| 0 <= i < m && scheme + #[trigger] names[i] + "/auto"@ == target {
            let i = choose|i: int| 0 <= i < m && scheme + #[trigger] names[i] + "/auto"@ == target;
            assert(0 <= i < n && scheme + names[i] + "/auto"@ == target);
        }
    }
}

/// Every running container is offered as a target of its runtime with its
/// interface left open, each once and in order, and nothing else is.
pub proof fn running_containers_are_offered(
    docker: Seq<Seq<char>>,
    lxc: Seq<Seq<char>>,
    target: Seq<char>,
)
    ensures
        ascending(offered(docker, lxc)),
        offered(docker, lxc).contains(target) <==> (exists|i: int|
            0 <= i < docker.len() && "docker://"@ + #[trigger] docker[i] + "/auto"@ == target) || (
        exists|i: int|
            0 <= i < lxc.len() && "lxc://"@ + #[trigger] lxc[i] + "/auto"@ == target),
{
    let none = Seq::<Seq<char>>::empty();
    each_container_is_offered(none, "docker://"@, docker, docker.len(), target);
    let some = with_containers(none, "docker://"@, docker, docker.len());
    each_container_is_offered(some, "lxc://"@, lxc, lxc.len(), target);
}

/// A target offers a container where it names it, under the target's scheme.
pub proof fn targets_offer_their_container(
    name: Seq<char>,
    interface: Seq<char>,
    other: Seq<char>,
)
    requires
        !name.contains('/'),
    ensures
        offers("docker://"@ + (name + seq!['/'] + interface), other) == if name == other {
            Some("docker://"@)
        } else {
            None
        },
        offers("lxc://"@ + (name + seq!['/'] + interface), other) == if name == other {
            Some("lxc://"@)
        } else {
            None
        },
{
    let rest = name + seq!['/'] + interface;
    names_split_before_the_slash(name, interface);
    prefixes_and_suffixes_come_off("docker://"@ + rest, rest, "docker://"@);
    prefixes_and_suffixes_come_off("lxc://"@ + rest, rest, "lxc://"@);
    reveal_strlit("docker://");
    reveal_strlit("lxc://");
    let target = "lxc://"@ + rest;
    assert(without_prefix(target, "docker://"@) is None) by {
        if without_prefix(target, "docker://"@) is Some {
            assert(target.subrange(0, 9)[0] == "docker://"@[0]);
            assert(target[0] == "lxc://"@[0]);
        }
    }
}

/// How many of the first targets offer a container.
pub open spec fn offering(targets: Seq<Seq<char>>, container: Seq<char>, n: nat) -> nat
    decreases n,
{
    if n == 0 {
        0
    } else if offers(targets[n - 1], container) is Some {
        offering(targets, container, (n - 1) as nat) + 1
    } else {
        offering(targets, container, (n - 1) as nat)
    }
}

proof fn candidates_are_those_that_offer(
    targets: Seq<Seq<char>>,
    container: Seq<char>,
    interface: Seq<char>,
    n: nat,
    i: int,
)
    requires
        n <= targets.len(),
    ensures
        candidates(targets, container, interface, n).len() == offering(targets, container, n),
        0 <= i < n && offers(targets[i], container) is Some ==> offering(targets, container, n) > 0
            && candidates(targets, container, interface, n).contains(
            offers(targets[i], container)->0 + container + "/"@ + interface,
        ),
    decreases n,
{
    if n > 0 {
        let m = (n - 1) as nat;
        candidates_are_those_that_offer(targets, container, interface, m, i);
        let before = candidates(targets, container, interface, m);
        let after = candidates(targets, container, interface, n);
        if 0 <= i < n && offers(targets[i], container) is Some {
            let uri = offers(targets[i], container)->0 + container + "/"@ + interface;
            if i < m {
                let k = choose|k: int| 0 <= k < before.len() && before[k] == uri;
                assert(after[k] == uri);
            } else {
                assert(after[before.len() as int] == uri);
            }
        }
    }
}

/// A container of either runtime is found where exactly one target offers it,
/// and becomes that target on the interface that was asked for. Where none
/// does, or more than one, it is not.
pub proof fn containers_are_found_in_one_runtime(
    targets: Seq<Seq<char>>,
    location: Seq<char>,
    container: Seq<char>,
    interface: Seq<char>,
    i: int,
)
    requires
        container_at(location) == Some((container, interface)),
    ensures
        chosen(Some("auto://"@ + location), targets) is Ok <==> offering(
            targets,
            container,
            targets.len(),
        ) == 1,
        0 <= i < targets.len() && offers(targets[i], container) is Some && offering(
            targets,
            container,
            targets.len(),
        ) == 1 ==> chosen(Some("auto://"@ + location), targets) == Ok::<Seq<char>, Seq<char>>(
            offers(targets[i], container)->0 + container + "/"@ + interface,
        ),
{
    prefixes_and_suffixes_come_off("auto://"@ + location, location, "auto://"@);
    candidates_are_those_that_offer(targets, container, interface, targets.len(), i);
}

/// A target that was asked for is taken as it is. Without one, the only one
/// that is offered is taken, and none where there are none or several.
pub proof fn single_targets_are_taken(
    requested: Option<Seq<char>>,
    targets: Seq<Seq<char>>,
    target: Seq<char>,
)
    ensures
        requested == Some(target) && without_prefix(target, "auto://"@) is None ==> chosen(
            requested,
            targets,
        ) == Ok::<Seq<char>, Seq<char>>(target),
        requested is None ==> (chosen(requested, targets) == Ok::<Seq<char>, Seq<char>>(target)
            <==> targets == seq![target]),
        requested is None && targets.len() != 1 ==> chosen(requested, targets) is Err,
        requested == Some("auto://"@ + target) && container_at(target) is None ==> chosen(
            requested,
            targets,
        ) is Err,
{
    if targets.len() == 1 && targets[0] == target {
        assert(targets =~= seq![target]);
    }
    prefixes_and_suffixes_come_off("auto://"@ + target, target, "auto://"@);
}

/// A local target is settled as it stands. A container must run, and is settled
/// on its interface once that is known.
pub proof fn running_targets_are_settled(
    target: Seq<char>,
    running: Seq<String>,
    found: Result<Seq<Seq<char>>, Seq<char>>,
    container: Seq<char>,
    interface: Seq<char>,
    runtime: Runtime,
)
    ensures
        site_of(target) is Err ==> settled_target(target, running, found) is Err,
        site_of(target) == Ok::<Site, Seq<char>>(Site::Local { interface }) ==> settled_target(
            target,
            running,
            found,
        ) == Ok::<Seq<char>, Seq<char>>(target),
        site_of(target) == Ok::<Site, Seq<char>>(Site::Container { runtime, container, interface })
            ==> {
            let settled = settled_target(target, running, found);
            &&& settled is Ok <==> holds_text(running, container) && container_interface(
                runtime,
                container,
                interface,
                found,
            ) is Ok
            &&& settled is Ok && runtime == Runtime::Docker ==> settled->Ok_0 == "docker://"@
                + container + "/"@ + container_interface(runtime, container, interface, found)->Ok_0
            &&& settled is Ok && runtime == Runtime::Lxc ==> settled->Ok_0 == "lxc://"@ + container
                + "/"@ + container_interface(runtime, container, interface, found)->Ok_0
        },
{
}

/// A workload is written as a target: its scheme, its container where it has
/// one, and its interface.
pub proof fn workloads_are_written_as_targets(workload: Workload)
    ensures
        workload matches Workload::Local { interface, .. } ==> workload.uri() == "local"@ + "://"@
            + interface && workload.interface() == interface,
        workload matches Workload::Docker { container, interface, .. } ==> workload.uri()
            == "docker"@ + "://"@ + container + seq!['/'] + interface && workload.interface()
            == interface,
        workload matches Workload::Lxc { container, interface, .. } ==> workload.uri() == "lxc"@
            + "://"@ + container + seq!['/'] + interface && workload.interface() == interface,
{
    reveal_strlit("local");
    reveal_strlit("docker");
    reveal_strlit("lxc");
    reveal_strlit("://");
    reveal_strlit("local://");
    reveal_strlit("docker://");
    reveal_strlit("lxc://");
    reveal_strlit("/");
    assert("local"@ + "://"@ =~= "local://"@);
    assert("docker"@ + "://"@ =~= "docker://"@);
    assert("lxc"@ + "://"@ =~= "lxc://"@);
    assert("/"@ =~= seq!['/']);
}

/// A workload moved to another interface keeps everything else, and moving it
/// back undoes that.
pub proof fn workloads_move_between_interfaces(workload: Workload, interface: Seq<char>)
    ensures
        workload.on_interface(interface).interface() == interface,
        workload.on_interface(interface).on_interface(workload.interface()) == workload,
        workload is Local <==> workload.on_interface(interface) is Local,
        workload is Docker <==> workload.on_interface(interface) is Docker,
{
}

} // verus!
