//! Laws of the places that faults act in: containers, targets, the agent beside
//! them, and the traffic inside them.

use vstd::prelude::*;
use crate::agent::{effective_mask, effective_text, lacking};
use crate::container::{
    attach_of, cleanup_of, container_interface, docker_create_call, lxc_create_call, names_in,
    only_interface, start_needed, tool_path, variable_args, without_loopback, Cleanup, Runtime,
};
use crate::invocation::{Call, ProcessOutput};
use crate::pacing::installation;
use crate::spelling::{numbers_are_written_in_tens, prefixes_and_suffixes_come_off};
use crate::text::{blank, digits, hex_value, lines_from, trimmed, without_prefix};
use crate::traffic::{inside, seconds_text, traffic_call};
use crate::words::{ascending, lowered, mentions, with_text_keeps_order};
use crate::workload_spec::{Container, System, Traffic, Workload, WorkloadLifecycle};

verus! {

/// A stopped workload is started where its session may; one that runs needs no
/// start, and one that is not the session's own stays stopped.
pub proof fn only_sessions_start_workloads(lifecycle: WorkloadLifecycle, running: bool)
    ensures
        start_needed(lifecycle, running) == Ok::<bool, Seq<char>>(true) <==> !running && lifecycle
            == WorkloadLifecycle::Session,
        start_needed(lifecycle, running) == Ok::<bool, Seq<char>>(false) <==> running,
        start_needed(lifecycle, running) is Err <==> !running && lifecycle
            == WorkloadLifecycle::Existing,
{
}

/// A container is removed at the end exactly when it was created for the
/// session and its provision asks for that; any other is stopped.
pub proof fn created_containers_are_removed_on_request(source: Workload, provisioned: bool)
    ensures
        cleanup_of(source, provisioned) == Cleanup::Remove <==> provisioned && match source {
            Workload::Docker { provision: Some(container), .. } => container.remove_on_exit,
            Workload::Lxc { provision: Some(system), .. } => system.remove_on_exit,
            _ => false,
        },
        cleanup_of(source, provisioned) != Cleanup::Remove ==> cleanup_of(source, provisioned)
            == Cleanup::Stop,
{
}

/// An inspection that ended well tells whether a container runs. One that did
/// not tells that there is none where it says so, and nothing otherwise.
pub proof fn inspections_tell_what_there_is(
    runtime: Runtime,
    name: Seq<char>,
    output: ProcessOutput,
)
    ensures
        output.exit.success && runtime == Runtime::Docker ==> (runtime.inspection(name, output)
            == Ok::<Option<bool>, Seq<char>>(Some(trimmed(output.stdout@) == "true"@))),
        output.exit.success && runtime == Runtime::Lxc ==> (runtime.inspection(name, output)
            == Ok::<Option<bool>, Seq<char>>(
            Some(lowered(trimmed(output.stdout@)) == lowered("RUNNING"@)),
        )),
        runtime.inspection(name, output) == Ok::<Option<bool>, Seq<char>>(None)
            <==> !output.exit.success && match runtime {
            Runtime::Docker => mentions(output.stderr@, "no such object"@) || mentions(
                output.stderr@,
                "no such container"@,
            ),
            Runtime::Lxc => mentions(output.stderr@, "doesn't exist"@) || mentions(
                output.stderr@,
                "does not exist"@,
            ),
        },
{
}

/// Each runtime is asked in its own words to start, inspect, stop and remove a
/// container by its name, and to list its interfaces.
pub proof fn runtimes_are_asked_in_their_words(name: Seq<char>)
    ensures
        Runtime::Docker.start_call(name) == (Call {
            program: "docker"@,
            args: seq!["start"@, name],
        }),
        Runtime::Lxc.start_call(name) == (Call {
            program: "lxc-start"@,
            args: seq!["-n"@, name, "-d"@],
        }),
        Runtime::Docker.inspect_call(name) == (Call {
            program: "docker"@,
            args: seq!["inspect"@, "--format"@, "{{.State.Running}}"@, name],
        }),
        Runtime::Lxc.inspect_call(name) == (Call {
            program: "lxc-info"@,
            args: seq!["-n"@, name, "-sH"@],
        }),
        Runtime::Docker.cleanup_call(name, Cleanup::Stop) == (Call {
            program: "docker"@,
            args: seq!["stop"@, name],
        }),
        Runtime::Docker.cleanup_call(name, Cleanup::Remove) == (Call {
            program: "docker"@,
            args: seq!["rm"@, "--force"@, name],
        }),
        Runtime::Lxc.cleanup_call(name, Cleanup::Stop) == (Call {
            program: "lxc-stop"@,
            args: seq!["-n"@, name],
        }),
        Runtime::Lxc.cleanup_call(name, Cleanup::Remove) == (Call {
            program: "lxc-destroy"@,
            args: seq!["-n"@, name, "-f"@],
        }),
        Runtime::Docker.interfaces_call(name) == inside(
            Workload::Docker {
                container: name,
                interface: Seq::empty(),
                lifecycle: WorkloadLifecycle::Existing,
                provision: None,
            },
            Call { program: "ls"@, args: seq!["-1"@, "/sys/class/net"@] },
        ),
        Runtime::Lxc.interfaces_call(name) == inside(
            Workload::Lxc {
                container: name,
                interface: Seq::empty(),
                lifecycle: WorkloadLifecycle::Existing,
                provision: None,
            },
            Call { program: "ls"@, args: seq!["-1"@, "/sys/class/net"@] },
        ),
        Runtime::Docker.title() == "Docker"@,
        Runtime::Lxc.title() == "LXC"@,
{
    let list = seq!["-1"@, "/sys/class/net"@];
    assert(seq!["exec"@, name, "ls"@] + list =~= seq![
        "exec"@,
        name,
        "ls"@,
        "-1"@,
        "/sys/class/net"@,
    ]);
    assert(seq!["-n"@, name, "--"@, "ls"@] + list =~= seq![
        "-n"@,
        name,
        "--"@,
        "ls"@,
        "-1"@,
        "/sys/class/net"@,
    ]);
}

proof fn variables_come_in_twos(environment: Seq<(Seq<char>, Seq<char>)>, n: nat)
    requires
        n <= environment.len(),
    ensures
        variable_args(environment, n).len() == 2 * n,
    decreases n,
{
    if n > 0 {
        variables_come_in_twos(environment, (n - 1) as nat);
    }
}

/// The environment of a new container is handed over one variable at a time,
/// each by its name and value.
pub proof fn variables_are_handed_over(
    environment: Seq<(Seq<char>, Seq<char>)>,
    n: nat,
    i: int,
)
    requires
        0 <= i < n <= environment.len(),
    ensures
        variable_args(environment, n).len() == 2 * n,
        variable_args(environment, n)[2 * i] == "--env"@,
        variable_args(environment, n)[2 * i + 1] == environment[i].0 + "="@ + environment[i].1,
    decreases n,
{
    let m = (n - 1) as nat;
    let before = variable_args(environment, m);
    let pair = seq!["--env"@, environment[m as int].0 + "="@ + environment[m as int].1];
    let after = variable_args(environment, n);
    variables_come_in_twos(environment, m);
    assert(after == before + pair);
    if i < m {
        variables_are_handed_over(environment, m, i);
        assert(after[2 * i] == before[2 * i]);
        assert(after[2 * i + 1] == before[2 * i + 1]);
    } else {
        assert(after[2 * i] == pair[0]);
        assert(after[2 * i + 1] == pair[1]);
    }
}

/// A container is created under its name with its environment, then its image
/// and what runs in it.
pub proof fn containers_are_created_as_provisioned(
    name: Seq<char>,
    container: Container,
    variable: int,
    word: int,
)
    ensures
        ({
            let call = docker_create_call(name, container);
            let count = 2 * container.environment.len() as int;
            &&& call.program == "docker"@
            &&& call.args.len() == 4 + count + container.command.len()
            &&& call.args[0] == "create"@
            &&& call.args[1] == "--name"@
            &&& call.args[2] == name
            &&& call.args[3 + count] == container.image
            &&& 0 <= variable < container.environment.len() ==> {
                &&& call.args[3 + 2 * variable] == "--env"@
                &&& call.args[4 + 2 * variable] == container.environment[variable].0 + "="@
                    + container.environment[variable].1
            }
            &&& 0 <= word < container.command.len() ==> call.args[4 + count + word]
                == container.command[word]
        }),
{
    let environment = container.environment;
    let variables = variable_args(environment, environment.len());
    variables_come_in_twos(environment, environment.len());
    let call = docker_create_call(name, container);
    let front = seq!["create"@, "--name"@, name];
    let image = seq![container.image];
    assert(call.args == front + variables + image + container.command);
    assert(call.args[3 + variables.len() as int] == image[0]);
    if 0 <= variable < environment.len() {
        variables_are_handed_over(environment, environment.len(), variable);
        assert(call.args[3 + 2 * variable] == variables[2 * variable]);
        assert(call.args[4 + 2 * variable] == variables[2 * variable + 1]);
    }
}

/// A system is created under its name with its distribution, its release and
/// its architecture.
pub proof fn systems_are_created_as_provisioned(name: Seq<char>, system: System)
    ensures
        lxc_create_call(name, system).program == "lxc-create"@,
        lxc_create_call(name, system).args == seq!["-n"@, name, "-t"@, "download"@, "--"@] + seq![
            "--dist"@,
            system.distribution,
        ] + seq!["--release"@, system.release] + seq!["--arch"@, system.architecture],
{
    assert(lxc_create_call(name, system).args =~= seq!["-n"@, name, "-t"@, "download"@, "--"@]
        + seq!["--dist"@, system.distribution] + seq!["--release"@, system.release] + seq![
        "--arch"@,
        system.architecture,
    ]);
}

/// The names in a list are its lines without the white around them, in their
/// order; blank lines name nothing.
pub proof fn names_are_the_lines(list: Seq<Seq<char>>, n: nat, name: Seq<char>)
    requires
        n <= list.len(),
    ensures
        names_in(list, n).contains(name) <==> name.len() > 0 && exists|i: int|
            0 <= i < n && trimmed(#[trigger] list[i]) == name,
        n > 0 && trimmed(list[n - 1]).len() > 0 ==> names_in(list, n).last() == trimmed(list[n - 1]),
        names_in(list, n).len() <= n,
    decreases n,
{
    if n > 0 {
        let m = (n - 1) as nat;
        names_are_the_lines(list, m, name);
        let before = names_in(list, m);
        let after = names_in(list, n);
        let last = trimmed(list[m as int]);
        if after.contains(name) {
            let k = choose|k: int| 0 <= k < after.len() && after[k] == name;
            if k < before.len() {
                assert(before[k] == name);
                let i = choose|i: int| 0 <= i < m && trimmed(#[trigger] list[i]) == name;
                assert(0 <= i < n && trimmed(list[i]) == name);
            } else {
                assert(trimmed(list[m as int]) == name);
            }
        }
        if name.len() > 0 && (exists|i: int| 0 <= i < n && trimmed(#[trigger] list[i]) == name) {
            let i = choose|i: int| 0 <= i < n && trimmed(#[trigger] list[i]) == name;
            if i < m {
                let k = choose|k: int| 0 <= k < before.len() && before[k] == name;
                assert(after[k] == name);
            } else {
                assert(after[before.len() as int] == name);
            }
        }
    }
}

/// Every interface but the loopback one is a candidate, each once.
pub proof fn loopback_is_left_out(list: Seq<Seq<char>>, n: nat, name: Seq<char>)
    requires
        n <= list.len(),
    ensures
        ascending(without_loopback(list, n)),
        without_loopback(list, n).contains(name) <==> name != "lo"@ && exists|i: int|
            0 <= i < n && #[trigger] list[i] == name,
    decreases n,
{
    if n > 0 {
        let m = (n - 1) as nat;
        loopback_is_left_out(list, m, name);
        with_text_keeps_order(without_loopback(list, m), list[m as int]);
        if exists|i: int| 0 <= i < m && #[trigger] list[i] == name {
            let i = choose|i: int| 0 <= i < m && #[trigger] list[i] == name;
            assert(0 <= i < n && list[i] == name);
        }
    }
}

/// A workload's interface is settled where it has one apart from the loopback
/// one and no other, and it is that one.
pub proof fn single_interfaces_are_settled(
    runtime: Seq<char>,
    workload: Seq<char>,
    list: Seq<Seq<char>>,
    name: Seq<char>,
)
    ensures
        only_interface(runtime, workload, list) == Ok::<Seq<char>, Seq<char>>(name) <==> {
            &&& list.contains(name)
            &&& name != "lo"@
            &&& forall|i: int|
                0 <= i < list.len() ==> #[trigger] list[i] == name || list[i] == "lo"@
        },
{
    let found = without_loopback(list, list.len());
    loopback_is_left_out(list, list.len(), name);
    if only_interface(runtime, workload, list) == Ok::<Seq<char>, Seq<char>>(name) {
        assert(found[0] == name);
        assert forall|i: int| 0 <= i < list.len() implies #[trigger] list[i] == name || list[i]
            == "lo"@ by {
            loopback_is_left_out(list, list.len(), list[i]);
        }
    }
    if list.contains(name) && name != "lo"@ && (forall|i: int|
        0 <= i < list.len() ==> #[trigger] list[i] == name || list[i] == "lo"@) {
        let at = choose|i: int| 0 <= i < list.len() && list[i] == name;
        assert(list[at] == name);
        assert(found.contains(name));
        assert forall|i: int| 0 <= i < found.len() implies #[trigger] found[i] == name by {
            loopback_is_left_out(list, list.len(), found[i]);
            assert(found.contains(found[i]));
        }
        if found.len() > 1 {
            crate::text::precedes_is_total(found[0], found[1]);
        }
    }
}

/// An interface that was named is taken as it is; only where it was left open
/// does what was found in the container settle it.
pub proof fn named_interfaces_are_taken(
    runtime: Runtime,
    name: Seq<char>,
    interface: Seq<char>,
    found: Result<Seq<Seq<char>>, Seq<char>>,
)
    ensures
        interface != "auto"@ ==> container_interface(runtime, name, interface, found) == Ok::<
            Seq<char>,
            Seq<char>,
        >(interface),
        interface == "auto"@ ==> match found {
            Ok(list) => container_interface(runtime, name, interface, found) == only_interface(
                runtime.title(),
                name,
                list,
            ),
            Err(message) => container_interface(runtime, name, interface, found) == Err::<
                Seq<char>,
                Seq<char>,
            >(message),
        },
{
}

/// What a source attaches to is the source itself on the interface that was
/// settled, which is neither blank nor open and the one that was named.
pub proof fn sources_attach_to_their_interface(
    source: Workload,
    found: Result<Seq<Seq<char>>, Seq<char>>,
    attach: Workload,
)
    ensures
        attach_of(source, found) == Ok::<Workload, Seq<char>>(attach) ==> {
            &&& !blank(attach.interface())
            &&& attach.interface() != "auto"@
            &&& source.interface() != "auto"@ ==> attach == source
            &&& match (source, attach) {
                (
                    Workload::Local { process, .. },
                    Workload::Local { process: attached, .. },
                ) => process == attached,
                (
                    Workload::Docker { container, lifecycle, provision, .. },
                    Workload::Docker { container: c, lifecycle: l, provision: p, .. },
                ) => container == c && lifecycle == l && provision == p,
                (
                    Workload::Lxc { container, lifecycle, provision, .. },
                    Workload::Lxc { container: c, lifecycle: l, provision: p, .. },
                ) => container == c && lifecycle == l && provision == p,
                _ => false,
            }
        },
        source.interface() != "auto"@ && !blank(source.interface()) ==> attach_of(source, found)
            == Ok::<Workload, Seq<char>>(source),
{
}

/// A tool goes below the root of its container, to where it stands outside or
/// among the local programs.
pub proof fn tools_go_below_the_root(name: Seq<char>, path: Seq<char>, file: Option<Seq<char>>)
    ensures
        tool_path(name, Some(path), file) == Some("/var/lib/lxc/"@ + name + "/rootfs/"@ + path),
        file matches Some(tool) ==> tool_path(name, None, file) == Some(
            "/var/lib/lxc/"@ + name + "/rootfs/"@ + "usr/local/bin/"@ + tool,
        ),
        tool_path(name, None, None) is None,
{
}

/// Traffic runs inside the workload: beside a local one as it stands, and in a
/// container through its runtime, with every argument kept in its order.
pub proof fn traffic_runs_inside(attach: Workload, call: Call, i: int)
    requires
        0 <= i < call.args.len(),
    ensures
        attach is Local ==> inside(attach, call) == call,
        attach matches Workload::Docker { container, .. } ==> {
            let run = inside(attach, call);
            &&& run.program == "docker"@
            &&& run.args[0] == "exec"@
            &&& run.args[1] == container
            &&& run.args[2] == call.program
            &&& run.args[3 + i] == call.args[i]
            &&& run.args.len() == 3 + call.args.len()
        },
        attach matches Workload::Lxc { container, .. } ==> {
            let run = inside(attach, call);
            &&& run.program == "lxc-attach"@
            &&& run.args[0] == "-n"@
            &&& run.args[1] == container
            &&& run.args[2] == "--"@
            &&& run.args[3] == call.program
            &&& run.args[4 + i] == call.args[i]
            &&& run.args.len() == 4 + call.args.len()
        },
{
}

/// A page is fetched once per attempt, within its time and without a trace; a
/// command is run as it was given.
pub proof fn attempts_do_what_was_asked(traffic: Traffic)
    ensures
        traffic matches Traffic::Http { url, timeout_ms, .. } ==> {
            let call = traffic_call(traffic);
            &&& call.program == "curl"@
            &&& call.args.len() == 7
            &&& call.args[0] == "--silent"@
            &&& call.args[1] == "--show-error"@
            &&& call.args[2] == "--output"@
            &&& call.args[3] == "/dev/null"@
            &&& call.args[4] == "--max-time"@
            &&& call.args[5] == seconds_text(timeout_ms)
            &&& call.args[6] == url
        },
        traffic matches Traffic::Command { program, args, .. } ==> traffic_call(traffic).program
            == program && traffic_call(traffic).args == args,
{
}

proof fn decimals_are_the_milliseconds(seconds: int, h: int, t: int, o: int)
    requires
        0 <= seconds,
        0 <= h < 10,
        0 <= t < 10,
        0 <= o < 10,
    ensures
        (1000 * seconds + 100 * h + 10 * t + o) / 1000 == seconds,
        (1000 * seconds + 100 * h + 10 * t + o) / 100 % 10 == h,
        (1000 * seconds + 100 * h + 10 * t + o) / 10 % 10 == t,
        (1000 * seconds + 100 * h + 10 * t + o) % 10 == o,
{
    let all = 1000 * seconds + 100 * h + 10 * t + o;
    assert(all / 10 == 100 * seconds + 10 * h + t);
    assert(all / 100 == 10 * seconds + h);
    assert(all / 1000 == seconds);
}

/// A time in seconds is written with its three decimals, which are its
/// milliseconds.
pub proof fn seconds_have_three_decimals(seconds: u64, h: u64, t: u64, o: u64)
    requires
        h < 10,
        t < 10,
        o < 10,
        1000 * seconds + 100 * h + 10 * t + o <= u64::MAX,
    ensures
        ({
            let whole = digits(seconds as nat);
            let text = seconds_text((1000 * seconds + 100 * h + 10 * t + o) as u64);
            let at = whole.len() as int;
            &&& text.len() == at + 4
            &&& text.subrange(0, at) == whole
            &&& text[at] == '.'
            &&& text[at + 1] as int == '0' as int + h
            &&& text[at + 2] as int == '0' as int + t
            &&& text[at + 3] as int == '0' as int + o
        }),
{
    decimals_are_the_milliseconds(seconds as int, h as int, t as int, o as int);
    numbers_are_written_in_tens(h as nat);
    numbers_are_written_in_tens(t as nat);
    numbers_are_written_in_tens(o as nat);
    let whole = digits(seconds as nat);
    let text = seconds_text((1000 * seconds + 100 * h + 10 * t + o) as u64);
    let at = whole.len() as int;
    reveal_strlit(".");
    assert(text == whole + "."@ + digits(h as nat) + digits(t as nat) + digits(o as nat));
    assert(text.subrange(0, at) =~= whole);
    assert(text[at + 1] == digits(h as nat)[0]);
    assert(text[at + 2] == digits(t as nat)[0]);
    assert(text[at + 3] == digits(o as nat)[0]);
}

/// The agent needs the right to change the network, bit 12, and the right to
/// load programs, bit 39 or 21 on older kernels; what it lacks is named.
pub proof fn rights_are_told_by_their_bits(mask: u64)
    ensures
        lacking(mask) is None <==> mask & 0x1000 != 0 && (mask & 0x80_0000_0000 != 0 || mask
            & 0x20_0000 != 0),
        mask & 0x1000 == 0 && (mask & 0x80_0000_0000 != 0 || mask & 0x20_0000 != 0) ==> lacking(
            mask,
        ) == Some("CAP_NET_ADMIN"@),
        mask & 0x1000 != 0 && mask & 0x80_0000_0000 == 0 && mask & 0x20_0000 == 0 ==> lacking(mask)
            == Some("CAP_BPF (or CAP_SYS_ADMIN on legacy kernels)"@),
        mask & 0x1000 == 0 && mask & 0x80_0000_0000 == 0 && mask & 0x20_0000 == 0 ==> lacking(mask)
            == Some("CAP_NET_ADMIN"@ + ", "@ + "CAP_BPF (or CAP_SYS_ADMIN on legacy kernels)"@),
{
    assert(1u64 << 12u32 == 0x1000 && 1u64 << 21u32 == 0x20_0000 && 1u64 << 39u32
        == 0x80_0000_0000) by (bit_vector);
}

/// The rights in force are read from the first line that begins with their
/// name, as a hexadecimal number without the white around it.
pub proof fn rights_are_read_from_their_line(lines: Seq<Seq<char>>, at: int, rest: Seq<char>)
    requires
        0 <= at < lines.len(),
        lines[at] == "CapEff:"@ + rest,
        forall|i: int|
            0 <= i < at ==> without_prefix(#[trigger] lines[i], "CapEff:"@) is None,
    ensures
        effective_text(lines, 0) == Some(trimmed(rest)),
{
    prefixes_and_suffixes_come_off(lines[at], rest, "CapEff:"@);
    rights_stand_at_the_first_line(lines, at, 0);
}

proof fn rights_stand_at_the_first_line(lines: Seq<Seq<char>>, at: int, from: int)
    requires
        0 <= from <= at < lines.len(),
        forall|i: int|
            0 <= i < at ==> without_prefix(#[trigger] lines[i], "CapEff:"@) is None,
    ensures
        effective_text(lines, from) == effective_text(lines, at),
    decreases at - from,
{
    if from < at {
        rights_stand_at_the_first_line(lines, at, from + 1);
    }
}

/// A mask is told exactly where there is such a line with a hexadecimal number.
pub proof fn masks_need_a_number(status: Seq<char>, text: Seq<char>, mask: u64)
    ensures
        effective_text(lines_from(status, 0), 0) == Some(text) ==> (effective_mask(status) == Ok::<
            u64,
            Seq<char>,
        >(mask) <==> hex_value(text) == Some(mask)),
        effective_text(lines_from(status, 0), 0) is None ==> effective_mask(status) is Err,
{
}

/// The queue stands at the root of its interface under its own handle and keeps
/// every packet of one flow for up to a day.
pub proof fn queues_stand_at_the_root(interface: Seq<char>)
    ensures
        installation(interface) == seq!["qdisc"@, "add"@] + seq!["dev"@, interface, "root"@] + seq![
            "handle"@,
            "7fff:"@,
        ] + seq!["fq"@] + seq!["limit"@, "100000"@] + seq!["flow_limit"@, "4294967295"@] + seq![
            "horizon"@,
            "86400s"@,
        ] + seq!["horizon_cap"@],
{
    assert(installation(interface) =~= seq!["qdisc"@, "add"@] + seq!["dev"@, interface, "root"@]
        + seq!["handle"@, "7fff:"@] + seq!["fq"@] + seq!["limit"@, "100000"@] + seq![
        "flow_limit"@,
        "4294967295"@,
    ] + seq!["horizon"@, "86400s"@] + seq!["horizon_cap"@]);
}

} // verus!
