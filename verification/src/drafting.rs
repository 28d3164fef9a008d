//! Laws of the form in which an experiment is drafted: what its keys do, and
//! which experiment its fields ask for.

use vstd::prelude::*;
use crate::builder::{
    loss_in, lxc_image, lxc_parts, new_form, port_in, protocol_beside, whole_in, BuilderOutcome,
    Form, Found, Runtime, Template,
};
use crate::console::{Key, Screen};
use crate::editing::{port_text, source_fields, written_numbers_are_read_back};
use crate::experiment_spec::{FaultSpec, NetworkProtocol, ResolutionStrategy};
use crate::json::{json_string, json_unsigned};
use crate::screen::{counter, left, member, protocol_name, right};
use crate::spelling::texts_split_at_the_first;
use crate::text::{blank, digits, number_up_to, split_at_first};
use crate::workload_spec::{Container, Process, System, Traffic, Workload, WorkloadLifecycle};

verus! {

/// What is typed goes behind what stands in the selected field, and nowhere
/// else. Numbers take digits alone, and what is chosen takes nothing.
pub proof fn typing_goes_to_the_selected_field(form: Form, c: char)
    ensures
        ({
            let typed = form.with_key(Key::Char(c), false).0;
            let taken = '0' <= c <= '9';
            &&& form.with_key(Key::Char(c), false).1 is None
            &&& form.selected == 0 || form.selected == 6 ==> typed == form
            &&& form.selected == 1 ==> typed == (Form { name: form.name.push(c), ..form })
            &&& form.selected == 2 ==> typed == (Form { workload: form.workload.push(c), ..form })
            &&& form.selected == 3 ==> typed == (Form { interface: form.interface.push(c), ..form })
            &&& form.selected == 4 ==> typed == (Form { image: form.image.push(c), ..form })
            &&& form.selected == 5 ==> typed == (Form {
                destination: form.destination.push(c),
                ..form
            })
            &&& form.selected == 7 && taken ==> typed == (Form { port: form.port.push(c), ..form })
            &&& form.selected == 8 && taken ==> typed == (Form {
                duration_ms: form.duration_ms.push(c),
                ..form
            })
            &&& form.selected == 9 && taken ==> typed == (Form {
                outage_start_ms: form.outage_start_ms.push(c),
                ..form
            })
            &&& form.selected == 10 && taken ==> typed == (Form {
                outage_end_ms: form.outage_end_ms.push(c),
                ..form
            })
            &&& form.selected == 11 && taken ==> typed == (Form {
                loss_percent: form.loss_percent.push(c),
                ..form
            })
            &&& 7 <= form.selected <= 11 && !taken ==> typed == form
            &&& form.selected == 12 ==> typed == (Form {
                traffic_url: form.traffic_url.push(c),
                ..form
            })
        }),
{
}

/// Erasing takes off what was typed last; nothing comes off an empty field.
pub proof fn erasing_undoes_typing(form: Form, c: char)
    ensures
        form.selected != 0 && form.selected != 6 && 0 < form.selected <= 12 && ('0' <= c <= '9')
            ==> form.with_key(Key::Char(c), false).0.with_key(Key::Backspace, false).0 == form,
        form.with_key(Key::Backspace, false).1 is None,
        form.field() == Some(Seq::<char>::empty()) ==> form.with_key(Key::Backspace, false).0
            == form,
        form.selected == 1 && form.name.len() > 0 ==> form.with_key(Key::Backspace, false).0.name
            == form.name.drop_last(),
{
    let typed = form.with_key(Key::Char(c), false).0;
    if let Some(text) = form.field() {
        assert(text.push(c).drop_last() =~= text);
    }
}

/// The thirteen fields stand in a circle, and going forth and back leads to
/// where it began.
pub proof fn fields_stand_in_a_circle(form: Form)
    requires
        0 <= form.selected < 13,
    ensures
        ({
            let (forth, outcome) = form.with_key(Key::Tab, false);
            &&& outcome is None
            &&& forth == (Form { selected: (form.selected + 1) % 13, ..form })
            &&& form.with_key(Key::Down, false) == (forth, outcome)
            &&& forth.with_key(Key::BackTab, false) == (form, None::<BuilderOutcome>)
            &&& forth.with_key(Key::Up, false) == (form, None::<BuilderOutcome>)
        }),
{
}

/// With control held down a form is saved, run or given up and stays as it is;
/// escape gives it up too.
pub proof fn forms_are_saved_run_or_given_up(form: Form, key: Key)
    ensures
        form.with_key(Key::Char('s'), true) == (form, Some(BuilderOutcome::Save)),
        form.with_key(Key::Char('e'), true) == (form, Some(BuilderOutcome::Execute)),
        form.with_key(Key::Char('q'), true) == (form, Some(BuilderOutcome::Cancel)),
        form.with_key(Key::Escape, false) == (form, Some(BuilderOutcome::Cancel)),
        key != Key::Char('s') && key != Key::Char('e') && key != Key::Char('q') ==> form.with_key(
            key,
            true,
        ) == (form, None::<BuilderOutcome>),
        key != Key::Escape ==> form.with_key(key, false).1 is None,
{
}

/// A template sets the loss and the delay of the outage: all is lost in an
/// outage, a quarter on a lossy link, and a slow link takes a tenth of a second.
/// They follow each other in a circle.
pub proof fn templates_set_the_outage(form: Form)
    ensures
        ({
            let (next, outcome) = form.with_key(Key::Function(2), false);
            &&& outcome is None
            &&& next == (Form {
                template: next.template,
                loss_percent: next.loss_percent,
                template_delay_ns: next.template_delay_ns,
                status: next.status,
                ..form
            })
            &&& form.template == Template::BriefOutage ==> {
                &&& next.template == Template::LossyLink
                &&& next.loss_percent == "25"@
                &&& next.template_delay_ns == 0
                &&& next.status == "Template: "@ + "lossy link"@
            }
            &&& form.template == Template::LossyLink ==> {
                &&& next.template == Template::SlowLink
                &&& next.loss_percent == "0"@
                &&& next.template_delay_ns == 100_000_000
                &&& next.status == "Template: "@ + "slow link"@
            }
            &&& form.template == Template::SlowLink || form.template == Template::Custom ==> {
                &&& next.template == Template::BriefOutage
                &&& next.loss_percent == "100"@
                &&& next.template_delay_ns == 0
                &&& next.status == "Template: "@ + "brief outage"@
            }
        }),
{
}

/// Choosing sideways goes in a circle through the runtimes, the protocols and
/// what was found, and going back undoes it.
pub proof fn choices_stand_in_circles(runtime: Runtime, protocol: NetworkProtocol)
    ensures
        runtime.beside(true).beside(false) == runtime,
        runtime.beside(true) != runtime,
        runtime.beside(true).beside(true) != runtime,
        Runtime::Local.beside(true) == Runtime::Docker,
        Runtime::Docker.beside(true) == Runtime::Lxc,
        protocol_beside(protocol_beside(protocol, true), false) == protocol,
        protocol_beside(protocol, true) != protocol,
        protocol_beside(protocol_beside(protocol, true), true) != protocol,
        protocol_beside(NetworkProtocol::Any, true) == NetworkProtocol::Tcp,
        protocol_beside(NetworkProtocol::Tcp, true) == NetworkProtocol::Udp,
{
}

/// Which field is chosen sideways, and what that changes: the protocol alone,
/// or the next or last of what was found, which fills the container or, for a
/// local source, the interface.
pub proof fn sideways_keys_choose(form: Form, forward: bool)
    requires
        form.wf(),
    ensures
        ({
            let key = if forward {
                Key::Right
            } else {
                Key::Left
            };
            let (chosen, outcome) = form.with_key(key, false);
            let list = form.discovery.candidates(form.runtime);
            &&& outcome is None
            &&& form.selected == 6 ==> chosen == (Form {
                protocol: protocol_beside(form.protocol, forward),
                ..form
            })
            &&& form.selected == 2 || (form.selected == 3 && form.runtime == Runtime::Local) ==> {
                &&& list.len() == 0 ==> chosen == form
                &&& list.len() > 0 ==> {
                    &&& forward ==> chosen.candidate_index == (form.candidate_index + 1)
                        % list.len() as int
                    &&& !forward ==> chosen.candidate_index == (form.candidate_index + list.len()
                        - 1) % list.len() as int
                    &&& form.runtime == Runtime::Local ==> chosen == (Form {
                        candidate_index: chosen.candidate_index,
                        interface: list[chosen.candidate_index],
                        ..form
                    })
                    &&& form.runtime != Runtime::Local ==> chosen == (Form {
                        candidate_index: chosen.candidate_index,
                        workload: list[chosen.candidate_index],
                        ..form
                    })
                }
            }
            &&& form.selected != 0 && form.selected != 2 && form.selected != 6 && !(form.selected
                == 3 && form.runtime == Runtime::Local) ==> chosen == form
        }),
{
    let list = form.discovery.candidates(form.runtime);
    if list.len() > 0 {
        let count = list.len() as int;
        assert(form.candidate_index < count);
        if form.candidate_index > 0 {
            assert((form.candidate_index + count - 1) % count == form.candidate_index - 1)
                by (nonlinear_arith)
                requires
                    0 < form.candidate_index < count,
            ;
        } else {
            assert((count - 1) % count == count - 1) by (nonlinear_arith)
                requires
                    count > 0,
            ;
        }
        if form.candidate_index + 1 < count {
            assert((form.candidate_index + 1) % count == form.candidate_index + 1)
                by (nonlinear_arith)
                requires
                    0 <= form.candidate_index,
                    form.candidate_index + 1 < count,
            ;
        }
    }
}

/// Another runtime starts from its own first find, without an image. A local
/// source takes the first interface that was found or the usual one, and a
/// container leaves its interface open.
pub proof fn other_runtimes_start_anew(form: Form, forward: bool)
    requires
        form.selected == 0,
    ensures
        ({
            let key = if forward {
                Key::Right
            } else {
                Key::Left
            };
            let chosen = form.with_key(key, false).0;
            let found = form.discovery;
            &&& chosen.runtime == form.runtime.beside(forward)
            &&& chosen.image.len() == 0
            &&& chosen.candidate_index == 0
            &&& chosen.runtime == Runtime::Local ==> chosen.workload == form.workload
            &&& chosen.runtime == Runtime::Local && found.local_interfaces.len() > 0
                ==> chosen.interface == found.local_interfaces[0]
            &&& chosen.runtime == Runtime::Local && found.local_interfaces.len() == 0
                ==> chosen.interface == "eth0"@
            &&& chosen.runtime != Runtime::Local ==> chosen.interface == "auto"@
            &&& chosen.runtime == Runtime::Docker && found.docker.len() > 0 ==> chosen.workload
                == found.docker[0]
            &&& chosen.runtime == Runtime::Lxc && found.lxc.len() > 0 ==> chosen.workload
                == found.lxc[0]
            &&& chosen == (Form {
                runtime: chosen.runtime,
                image: chosen.image,
                interface: chosen.interface,
                workload: chosen.workload,
                candidate_index: chosen.candidate_index,
                ..form
            })
        }),
{
}

/// Numbers in the form are read within their bounds: an empty port is none, a
/// port is at most 65535 and a loss at most 100.
pub proof fn numbers_of_the_form_are_read(n: nat, text: Seq<char>, name: Seq<char>)
    ensures
        n <= 65535 ==> port_in(digits(n), name) == Ok::<Option<u16>, Seq<char>>(Some(n as u16)),
        port_in(Seq::empty(), name) == Ok::<Option<u16>, Seq<char>>(None),
        text.len() > 0 && number_up_to(text, 65535) is None ==> port_in(text, name) is Err,
        n <= u64::MAX ==> whole_in(digits(n), name) == Ok::<u64, Seq<char>>(n as u64),
        number_up_to(text, u64::MAX as nat) is None ==> whole_in(text, name) is Err,
        n <= 100 ==> loss_in(digits(n)) == Ok::<u32, Seq<char>>(n as u32),
        100 < n <= u32::MAX ==> loss_in(digits(n)) is Err,
        number_up_to(text, u32::MAX as nat) is None ==> loss_in(text) is Err,
{
    crate::editing::digits_are_digits(n);
    if n <= 65535 {
        written_numbers_are_read_back(n, 65535);
    }
    if n <= u64::MAX {
        written_numbers_are_read_back(n, u64::MAX as nat);
    }
    if n <= u32::MAX {
        written_numbers_are_read_back(n, u32::MAX as nat);
    }
}

/// A form is refused where its outage does not begin before it ends, or ends
/// after the run.
pub proof fn outages_lie_within_the_run(form: Form, start: nat, end: nat, duration: nat)
    requires
        start <= u64::MAX,
        end <= u64::MAX,
        duration <= u64::MAX,
        form.outage_start_ms == digits(start),
        form.outage_end_ms == digits(end),
        form.duration_ms == digits(duration),
    ensures
        form.built() is Ok ==> start < end <= duration,
{
    numbers_of_the_form_are_read(start, form.port, "outage start"@);
    numbers_of_the_form_are_read(end, form.port, "outage end"@);
    numbers_of_the_form_are_read(duration, form.port, "duration"@);
}

/// Whether a fault does nothing to a packet.
pub open spec fn leaves_alone(fault: FaultSpec) -> bool {
    &&& fault.drop_permyriad == 0
    &&& fault.duplicate_permyriad == 0
    &&& fault.reorder_permyriad == 0
    &&& fault.delay_ns == 0
    &&& fault.jitter_ns == 0
    &&& fault.bandwidth_bps == 0
}

/// A new form asks for three events: none is harmed until the outage starts,
/// the outage loses the share that was typed and delays as its template does,
/// and none is harmed once it is over.
pub proof fn new_forms_ask_for_an_outage(
    form: Form,
    start: nat,
    end: nat,
    duration: nat,
    loss: nat,
)
    requires
        form.original is None,
        start <= u64::MAX,
        end <= u64::MAX,
        duration <= u64::MAX,
        loss <= 100,
        form.outage_start_ms == digits(start),
        form.outage_end_ms == digits(end),
        form.duration_ms == digits(duration),
        form.loss_percent == digits(loss),
    ensures
        form.built() matches Ok(experiment) ==> {
            let events = experiment.profile.events;
            &&& experiment.profile.duration_ms == duration
            &&& events.len() == 3
            &&& events[0].at_ms == 0
            &&& leaves_alone(events[0].fault)
            &&& events[1].at_ms == start
            &&& events[1].fault.drop_permyriad == 100 * loss
            &&& events[1].fault.delay_ns == form.template_delay_ns
            &&& leaves_alone(FaultSpec { drop_permyriad: 0, delay_ns: 0, ..events[1].fault })
            &&& events[1].fault.seed == 1
            &&& events[2].at_ms == end
            &&& leaves_alone(events[2].fault)
            &&& forall|i: int| 0 <= i < 3 ==> (#[trigger] events[i]).faults.len() == 0
            &&& experiment.version == 1
            &&& experiment.selectors.len() == 0
            &&& experiment.extensions.len() == 0
        },
{
    numbers_of_the_form_are_read(start, form.port, "outage start"@);
    numbers_of_the_form_are_read(end, form.port, "outage end"@);
    numbers_of_the_form_are_read(duration, form.port, "duration"@);
    numbers_of_the_form_are_read(loss, form.port, "loss"@);
}

/// An experiment that is saved bears the name, the destination, the protocol,
/// the port and the source that stand in its form.
pub proof fn forms_ask_for_what_they_show(form: Form, port: nat)
    requires
        port <= 65535,
    ensures
        form.built() matches Ok(experiment) ==> {
            &&& experiment.name == form.name
            &&& experiment.source.interface() == form.interface
            &&& form.runtime == Runtime::Local <==> experiment.source is Local
            &&& form.runtime == Runtime::Docker <==> experiment.source is Docker
            &&& form.runtime == Runtime::Lxc <==> experiment.source is Lxc
            &&& experiment.source matches Workload::Docker { container, .. } ==> container
                == form.workload
            &&& experiment.source matches Workload::Lxc { container, .. } ==> container
                == form.workload
            &&& form.original is None || form.destination.len() > 0 ==> {
                &&& experiment.destination matches Some(destination)
                &&& destination.selector == form.destination
                &&& destination.protocol == form.protocol
                &&& form.port == digits(port) ==> destination.port == Some(port as u16)
                &&& form.port.len() == 0 ==> destination.port is None
                &&& form.original is None ==> destination.resolution == ResolutionStrategy::Snapshot
            }
        },
{
    numbers_of_the_form_are_read(port, form.port, "port"@);
    if form.port.len() == 0 {
        assert(form.port =~= Seq::<char>::empty());
    }
}

/// A new source is the session's own and goes away with it. Without an image
/// nothing is started or created for it.
pub proof fn new_sources_are_the_sessions_own(form: Form)
    requires
        form.original is None,
    ensures
        form.built() matches Ok(experiment) ==> match experiment.source {
            Workload::Local { process, .. } => {
                &&& blank(form.image) ==> process is None
                &&& !blank(form.image) ==> process == Some(
                    Process {
                        program: form.image,
                        args: Seq::empty(),
                        environment: Seq::empty(),
                        working_directory: None,
                    },
                )
            },
            Workload::Docker { lifecycle, provision, .. } => {
                &&& lifecycle == WorkloadLifecycle::Session
                &&& blank(form.image) ==> provision is None
                &&& !blank(form.image) ==> provision == Some(
                    Container {
                        image: form.image,
                        command: Seq::empty(),
                        environment: Seq::empty(),
                        remove_on_exit: true,
                    },
                )
            },
            Workload::Lxc { lifecycle, provision, .. } => {
                &&& lifecycle == WorkloadLifecycle::Session
                &&& blank(form.image) ==> provision is None
                &&& !blank(form.image) ==> provision is Some && provision == lxc_parts(form.image)
            },
        },
{
}

/// Traffic to an address is tried every second and waits two, unless the
/// experiment that was opened says otherwise; without an address what was there
/// stays.
pub proof fn traffic_goes_to_the_address(form: Form)
    ensures
        form.built() matches Ok(experiment) ==> {
            &&& blank(form.traffic_url) && form.original is None ==> experiment.traffic is None
            &&& blank(form.traffic_url) && form.original is Some ==> experiment.traffic
                == form.original->0.traffic
            &&& !blank(form.traffic_url) ==> {
                &&& experiment.traffic matches Some(Traffic::Http { url, interval_ms, timeout_ms })
                &&& url == form.traffic_url
                &&& form.original is None ==> interval_ms == 1_000 && timeout_ms == 2_000
            }
        },
{
}

proof fn parts_come_apart(front: Seq<char>, rest: Seq<char>)
    requires
        !front.contains(':'),
    ensures
        split_at_first(front + seq![':'] + rest, ':') == Some((front, rest)),
        split_at_first(front, ':') is None,
{
    let text = front + seq![':'] + rest;
    texts_split_at_the_first(text, ':');
    texts_split_at_the_first(front, ':');
    assert(text[front.len() as int] == ':');
    assert(text.contains(':'));
    let (before, behind) = split_at_first(text, ':')->0;
    let other = before + seq![':'] + behind;
    assert(before.len() == front.len()) by {
        if before.len() < front.len() {
            assert(other[before.len() as int] == ':');
            assert(front[before.len() as int] == ':');
        } else if front.len() < before.len() {
            assert(other[front.len() as int] == before[front.len() as int]);
            assert(before.contains(':'));
        }
    }
    assert(before =~= front) by {
        assert forall|i: int| 0 <= i < front.len() implies #[trigger] before[i] == front[i] by {
            assert(other[i] == text[i]);
        }
    }
    assert(behind =~= rest) by {
        let at = front.len() as int + 1;
        assert forall|i: int| 0 <= i < rest.len() implies #[trigger] behind[i] == rest[i] by {
            assert(other[at + i] == text[at + i]);
        }
    }
}

/// A system is written as its distribution, its release and its architecture
/// with colons between them, and read back from that; any of them blank, or a
/// further colon, is refused.
pub proof fn systems_are_read_back(system: System, more: Seq<char>)
    requires
        !system.distribution.contains(':'),
        !system.release.contains(':'),
        !system.architecture.contains(':'),
    ensures
        !blank(system.distribution) && !blank(system.release) && !blank(system.architecture)
            ==> lxc_parts(lxc_image(system)) == Some(System { remove_on_exit: true, ..system }),
        blank(system.distribution) || blank(system.release) || blank(system.architecture)
            ==> lxc_parts(lxc_image(system)) is None,
        lxc_parts(lxc_image(system) + seq![':'] + more) is None,
        lxc_parts(system.distribution) is None,
        lxc_parts(system.distribution + seq![':'] + system.release) is None,
{
    reveal_strlit(":");
    assert(":"@ =~= seq![':']);
    let rest = system.release + seq![':'] + system.architecture;
    assert(lxc_image(system) =~= system.distribution + seq![':'] + rest);
    parts_come_apart(system.distribution, rest);
    parts_come_apart(system.release, system.architecture);
    parts_come_apart(system.architecture, more);
    let longer = system.release + seq![':'] + (system.architecture + seq![':'] + more);
    assert(lxc_image(system) + seq![':'] + more =~= system.distribution + seq![':'] + longer);
    parts_come_apart(system.distribution, longer);
    parts_come_apart(system.release, system.architecture + seq![':'] + more);
    parts_come_apart(system.distribution, system.release);
}

/// A form that nobody has touched asks for a brief outage of five seconds, two
/// seconds into a run of ten, for what goes to port 443.
pub proof fn new_forms_show_a_brief_outage(found: Found)
    ensures
        ({
            let form = new_form(found);
            &&& form.selected == 0
            &&& form.runtime == Runtime::Local
            &&& form.name == "New experiment"@
            &&& form.interface == "eth0"@
            &&& form.protocol == NetworkProtocol::Tcp
            &&& form.port == "443"@
            &&& form.duration_ms == "10000"@
            &&& form.outage_start_ms == "2000"@
            &&& form.outage_end_ms == "7000"@
            &&& form.loss_percent == "100"@
            &&& form.template == Template::BriefOutage
            &&& form.template_delay_ns == 0
            &&& form.original is None
            &&& form.discovery == found
            &&& form.workload.len() == 0 && form.image.len() == 0 && form.destination.len() == 0
                && form.traffic_url.len() == 0
        }),
{
}

/// A source is shown by its runtime, its container and what is started in it;
/// a port is shown by its number.
pub proof fn sources_are_shown_by_their_parts(source: Workload, port: u16)
    ensures
        source matches Workload::Local { process: None, .. } ==> source_fields(source) == (
            Runtime::Local,
            Seq::<char>::empty(),
            Seq::<char>::empty(),
        ),
        source matches Workload::Local { process: Some(process), .. } ==> source_fields(source) == (
            Runtime::Local,
            Seq::<char>::empty(),
            process.program,
        ),
        source matches Workload::Docker { container, provision, .. } ==> {
            let (runtime, workload, image) = source_fields(source);
            &&& runtime == Runtime::Docker
            &&& workload == container
            &&& provision is None ==> image.len() == 0
            &&& provision matches Some(value) ==> image == value.image
        },
        source matches Workload::Lxc { container, provision, .. } ==> {
            let (runtime, workload, image) = source_fields(source);
            &&& runtime == Runtime::Lxc
            &&& workload == container
            &&& provision is None ==> image.len() == 0
            &&& provision matches Some(value) ==> image == lxc_image(value)
        },
        port_text(Some(port)) == digits(port as nat),
        port_text(None).len() == 0,
{
}

/// A text is set to the right or to the left of a width by spaces alone, and
/// one that is longer stays whole.
pub proof fn texts_are_set_by_spaces(text: Seq<char>, width: nat)
    ensures
        text.len() >= width ==> right(text, width) == text && left(text, width) == text,
        text.len() < width ==> {
            let gap = (width - text.len()) as int;
            &&& right(text, width).len() == width
            &&& right(text, width).subrange(gap, width as int) == text
            &&& forall|i: int| 0 <= i < gap ==> #[trigger] right(text, width)[i] == ' '
            &&& left(text, width).len() == width
            &&& left(text, width).subrange(0, text.len() as int) == text
            &&& forall|i: int|
                text.len() <= i < width ==> #[trigger] left(text, width)[i] == ' '
        },
{
    if text.len() < width {
        let gap = (width - text.len()) as int;
        assert(right(text, width).subrange(gap, width as int) =~= text);
        assert(left(text, width).subrange(0, text.len() as int) =~= text);
    }
}

/// A counter is shown as its number, 0 where it is not told, and a member of a
/// rule as its text.
pub proof fn counters_are_shown_by_their_number(
    report: Seq<char>,
    key: Seq<char>,
    width: nat,
    value: u64,
    text: Seq<char>,
)
    ensures
        json_unsigned(report, key) == Some(value) ==> counter(report, key, width) == right(
            digits(value as nat),
            width,
        ),
        json_unsigned(report, key) is None ==> counter(report, key, width) == right(
            digits(0),
            width,
        ),
        json_string(report, key) == Some(text) ==> member(report, key, "?"@) == text,
        json_string(report, key) is None ==> member(report, key, text) == text,
{
}

/// A rule is shown by where it leads, from anywhere unless it says where from.
pub proof fn routes_lead_from_source_to_destination(screen: Screen, rule: Seq<char>)
    requires
        0 <= screen.selected_rule < screen.rules.len(),
        screen.rules[screen.selected_rule] == rule,
    ensures
        match (json_string(rule, "source"@), json_string(rule, "destination"@)) {
            (Some(source), Some(destination)) => screen.route() == source + " → "@ + destination,
            (None, Some(destination)) => screen.route() == "*"@ + " → "@ + destination,
            (Some(source), None) => screen.route() == source + " → "@ + "?"@,
            (None, None) => screen.route() == "*"@ + " → "@ + "?"@,
        },
{
}

/// Each row of the form shows its own field, and the selected one is marked.
pub proof fn rows_show_their_fields(form: Form, index: int)
    requires
        0 <= index < 13,
    ensures
        form.rows().len() == 13,
        form.rows()[0].1 == form.runtime.name(),
        form.rows()[1].1 == form.name,
        form.runtime == Runtime::Local ==> form.rows()[2].1 == "(not used for local)"@,
        form.runtime != Runtime::Local ==> form.rows()[2].1 == form.workload,
        form.rows()[3].1 == form.interface,
        form.rows()[4].1 == form.image,
        form.rows()[5].1 == form.destination,
        form.rows()[6].1 == protocol_name(form.protocol),
        form.rows()[7].1 == form.port,
        form.rows()[8].1 == form.duration_ms,
        form.rows()[9].1 == form.outage_start_ms,
        form.rows()[10].1 == form.outage_end_ms,
        form.rows()[11].1 == form.loss_percent,
        form.rows()[12].1 == form.traffic_url,
        index == form.selected ==> form.marked(index) == "▶ "@ + left(form.rows()[index].0, 22),
        index != form.selected ==> form.marked(index) == "  "@ + left(form.rows()[index].0, 22),
        Runtime::Local.name() == "local"@,
        Runtime::Docker.name() == "docker"@,
        Runtime::Lxc.name() == "lxc"@,
        protocol_name(NetworkProtocol::Any) == "any"@,
        protocol_name(NetworkProtocol::Tcp) == "tcp"@,
        protocol_name(NetworkProtocol::Udp) == "udp"@,
{
}

} // verus!
