//! Filling the form from an experiment, and getting it back.

use vstd::prelude::*;
use vstd::string::*;
use crate::builder::{lxc_image, port_in, BuilderApp, Form, Found, Runtime, Template};
use crate::console::Key;
use crate::container::Discovery;
use crate::experiment_spec::{
    incidents_of, DestinationSpec, Experiment, ExperimentSpec, FaultSpec, NetworkProtocol,
};
use crate::text::{
    blank, decimal, digit_char, digits, digits_value, is_digit, number_up_to, unsigned, whitespace,
    without_prefix,
};
use crate::workload_spec::{Container, Process, Traffic, TrafficSpec, Workload, WorkloadSpec};

verus! {

/// The runtime, the container and what goes into the field for the image, of a
/// source.
pub open spec fn source_fields(source: Workload) -> (Runtime, Seq<char>, Seq<char>) {
    match source {
        Workload::Local { process, .. } => (
            Runtime::Local,
            Seq::empty(),
            match process {
                Some(value) => value.program,
                None => Seq::empty(),
            },
        ),
        Workload::Docker { container, provision, .. } => (
            Runtime::Docker,
            container,
            match provision {
                Some(value) => value.image,
                None => Seq::empty(),
            },
        ),
        Workload::Lxc { container, provision, .. } => (
            Runtime::Lxc,
            container,
            match provision {
                Some(value) => lxc_image(value),
                None => Seq::empty(),
            },
        ),
    }
}

/// A port in a field.
pub open spec fn port_text(port: Option<u16>) -> Seq<char> {
    match port {
        Some(number) => digits(number as nat),
        None => Seq::empty(),
    }
}

/// The form for an experiment, or why it cannot be shown in one.
pub open spec fn edited(experiment: Experiment, discovery: Found) -> Result<Form, Seq<char>> {
    let events = experiment.profile.events;
    match experiment.error() {
        Some(message) => Err(message),
        None => if events.len() != 3 || events[0].at_ms != 0 {
            Err("visual editing currently requires exactly PASS → OUTAGE → RECOVER events"@)
        } else if events[1].fault.drop_permyriad % 100 != 0 {
            Err("visual editing requires loss in whole-percent increments"@)
        } else {
            let (runtime, workload, image) = source_fields(experiment.source);
            Ok(
                Form {
                    selected: 0,
                    runtime,
                    name: experiment.name,
                    workload,
                    image,
                    interface: experiment.source.interface(),
                    destination: match experiment.destination {
                        Some(destination) => destination.selector,
                        None => Seq::empty(),
                    },
                    protocol: match experiment.destination {
                        Some(destination) => destination.protocol,
                        None => NetworkProtocol::Any,
                    },
                    port: match experiment.destination {
                        Some(destination) => port_text(destination.port),
                        None => Seq::empty(),
                    },
                    duration_ms: digits(experiment.profile.duration_ms as nat),
                    outage_start_ms: digits(events[1].at_ms as nat),
                    outage_end_ms: digits(events[2].at_ms as nat),
                    loss_percent: digits((events[1].fault.drop_permyriad / 100) as nat),
                    traffic_url: match experiment.traffic {
                        Some(Traffic::Http { url, .. }) => url,
                        _ => Seq::empty(),
                    },
                    status: match experiment.traffic {
                        Some(Traffic::Command { .. }) => "Editing manifest; command traffic and advanced fields are preserved"@,
                        _ => "Editing manifest; Ctrl-S saves, Ctrl-E saves and runs"@,
                    },
                    discovery,
                    candidate_index: 0,
                    original: Some(experiment),
                    template: Template::Custom,
                    template_delay_ns: events[1].fault.delay_ns,
                },
            )
        },
    }
}

fn fill_source(source: &WorkloadSpec) -> (r: (Runtime, String, String))
    ensures
        (r.0, r.1@, r.2@) == source_fields(source@),
{
    proof {
        reveal_strlit("");
    }
    assert(""@ =~= Seq::<char>::empty());
    match source {
        WorkloadSpec::Local { process, .. } => (
            Runtime::Local,
            "".to_owned(),
            match process {
                Some(value) => value.program.clone(),
                None => "".to_owned(),
            },
        ),
        WorkloadSpec::Docker { container, provision, .. } => (
            Runtime::Docker,
            container.clone(),
            match provision {
                Some(value) => value.image.clone(),
                None => "".to_owned(),
            },
        ),
        WorkloadSpec::Lxc { container, provision, .. } => (
            Runtime::Lxc,
            container.clone(),
            match provision {
                Some(value) => crate::builder::format_lxc_image(value),
                None => "".to_owned(),
            },
        ),
    }
}

fn fill_destination(destination: &Option<DestinationSpec>) -> (r: (String, NetworkProtocol, String))
    ensures
        match *destination {
            Some(value) => r.0@ == value.selector@ && r.1 == value.protocol && r.2@ == port_text(
                value.port,
            ),
            None => r.0@ == Seq::<char>::empty() && r.1 == NetworkProtocol::Any && r.2@
                == Seq::<char>::empty(),
        },
{
    proof {
        reveal_strlit("");
    }
    assert(""@ =~= Seq::<char>::empty());
    match destination {
        Some(value) => (
            value.selector.clone(),
            value.protocol,
            match value.port {
                Some(number) => decimal(number as u64),
                None => "".to_owned(),
            },
        ),
        None => ("".to_owned(), NetworkProtocol::Any, "".to_owned()),
    }
}

fn fill_traffic(traffic: &Option<TrafficSpec>) -> (r: (String, String))
    ensures
        match crate::workload_spec::traffic_of(*traffic) {
            Some(Traffic::Http { url, .. }) => r.0@ == url && r.1@
                == "Editing manifest; Ctrl-S saves, Ctrl-E saves and runs"@,
            Some(Traffic::Command { .. }) => r.0@ == Seq::<char>::empty() && r.1@
                == "Editing manifest; command traffic and advanced fields are preserved"@,
            None => r.0@ == Seq::<char>::empty() && r.1@
                == "Editing manifest; Ctrl-S saves, Ctrl-E saves and runs"@,
        },
{
    proof {
        reveal_strlit("");
    }
    assert(""@ =~= Seq::<char>::empty());
    match traffic {
        Some(TrafficSpec::Http { url, .. }) => (
            url.clone(),
            "Editing manifest; Ctrl-S saves, Ctrl-E saves and runs".to_owned(),
        ),
        Some(TrafficSpec::Command { .. }) => (
            "".to_owned(),
            "Editing manifest; command traffic and advanced fields are preserved".to_owned(),
        ),
        None => (
            "".to_owned(),
            "Editing manifest; Ctrl-S saves, Ctrl-E saves and runs".to_owned(),
        ),
    }
}

impl BuilderApp {
    /// A form for an experiment that is there already. One whose faults the
    /// form cannot show is refused rather than simplified.
    pub fn from_spec(spec: ExperimentSpec, discovery: Discovery) -> (r: Result<BuilderApp, String>)
        ensures
            match (r, edited(spec@, discovery@)) {
                (Ok(app), Ok(wanted)) => app@ == wanted && app@.wf(),
                (Err(message), Err(wanted)) => message@ == wanted,
                _ => false,
            },
    {
        match spec.validate() {
            Ok(_) => {},
            Err(message) => return Err(message),
        }
        let ghost events = incidents_of(spec.profile.events@);
        assert(events.len() == spec.profile.events@.len());
        if spec.profile.events.len() != 3 {
            return Err(
                "visual editing currently requires exactly PASS → OUTAGE → RECOVER events".to_owned(),
            );
        }
        assert(events[0] == spec.profile.events@[0]@);
        assert(events[1] == spec.profile.events@[1]@);
        assert(events[2] == spec.profile.events@[2]@);
        if spec.profile.events[0].at_ms != 0 {
            return Err(
                "visual editing currently requires exactly PASS → OUTAGE → RECOVER events".to_owned(),
            );
        }
        let loss: u32 = spec.profile.events[1].fault.drop_permyriad;
        if loss % 100 != 0 {
            return Err("visual editing requires loss in whole-percent increments".to_owned());
        }
        let (runtime, workload, image) = fill_source(&spec.source);
        let (destination, protocol, port) = fill_destination(&spec.destination);
        let (traffic_url, status) = fill_traffic(&spec.traffic);
        Ok(
            BuilderApp {
                selected: 0,
                runtime,
                name: spec.name.clone(),
                workload,
                image,
                interface: spec.source.interface().clone(),
                destination,
                protocol,
                port,
                duration_ms: decimal(spec.profile.duration_ms),
                outage_start_ms: decimal(spec.profile.events[1].at_ms),
                outage_end_ms: decimal(spec.profile.events[2].at_ms),
                loss_percent: decimal((loss / 100) as u64),
                traffic_url,
                status,
                discovery,
                candidate_index: 0,
                template_delay_ns: spec.profile.events[1].fault.delay_ns,
                original: Some(spec),
                template: Template::Custom,
            },
        )
    }
}

// ---------------------------------------------------------------------------
// Laws
// ---------------------------------------------------------------------------
/// A written number is written in digits, at least one, that are worth it.
pub proof fn digits_are_digits(n: nat)
    ensures
        digits(n).len() > 0,
        forall|i: int| 0 <= i < digits(n).len() ==> is_digit(#[trigger] digits(n)[i]),
        digits_value(digits(n)) == n,
    decreases n,
{
    if n < 10 {
        let text = digits(n);
        assert(text =~= seq![digit_char(n)]);
        assert(text.drop_last() =~= Seq::<char>::empty());
        assert(digits_value(text.drop_last()) == 0);
    } else {
        digits_are_digits(n / 10);
        let text = digits(n);
        assert(text.drop_last() =~= digits(n / 10));
        assert(text.last() == digit_char(n % 10));
        assert forall|i: int| 0 <= i < text.len() implies is_digit(#[trigger] text[i]) by {
            if i < text.len() - 1 {
                assert(text[i] == digits(n / 10)[i]);
            }
        }
    }
}

/// A number that was written is read back.
pub proof fn written_numbers_are_read_back(n: nat, max: nat)
    requires
        n <= max,
    ensures
        number_up_to(digits(n), max) == Some(n),
{
    digits_are_digits(n);
    let text = digits(n);
    assert(is_digit(text[0]));
    assert(unsigned(text) == text);
}

/// No key changes the experiment that was opened.
pub proof fn keys_keep_what_was_opened(form: Form, key: Key, control: bool)
    ensures
        form.with_key(key, control).0.original == form.original,
{
}

/// What the form does not show is saved as it was opened, whatever was typed:
/// the version, named relations and their faults, extensions, the faults before
/// and after, all of the fault itself but its loss, the pace of the traffic, and
/// how the source is started and created as long as its runtime stays.
pub proof fn edits_keep_what_is_not_shown(form: Form, opened: Experiment, saved: Experiment)
    requires
        form.original == Some(opened),
        form.built() == Ok::<Experiment, Seq<char>>(saved),
    ensures
        saved.version == opened.version,
        saved.selectors == opened.selectors,
        saved.extensions == opened.extensions,
        saved.profile.events.len() == 3,
        forall|i: int|
            0 <= i < 3 ==> (#[trigger] saved.profile.events[i]).faults
                == opened.profile.events[i].faults,
        saved.profile.events[0].fault == opened.profile.events[0].fault,
        saved.profile.events[1].fault == (FaultSpec {
            drop_permyriad: saved.profile.events[1].fault.drop_permyriad,
            ..opened.profile.events[1].fault
        }),
        saved.profile.events[2].fault == opened.profile.events[2].fault,
        blank(form.traffic_url) ==> saved.traffic == opened.traffic,
        match (opened.traffic, saved.traffic) {
            (
                Some(Traffic::Http { interval_ms, timeout_ms, .. }),
                Some(Traffic::Http { interval_ms: interval, timeout_ms: timeout, .. }),
            ) => interval == interval_ms && timeout == timeout_ms,
            _ => true,
        },
        match (opened.source, saved.source) {
            (
                Workload::Local { process: Some(before), .. },
                Workload::Local { process: Some(after), .. },
            ) => after == (Process { program: after.program, ..before }),
            (
                Workload::Docker { lifecycle: before, provision: kept, .. },
                Workload::Docker { lifecycle: after, provision, .. },
            ) => after == before && (kept is Some && provision is Some ==> provision->0 == (
            Container { image: provision->0.image, ..kept->0 })),
            (
                Workload::Lxc { lifecycle: before, provision: kept, .. },
                Workload::Lxc { lifecycle: after, provision, .. },
            ) => after == before && (kept is Some && provision is Some && form.image == lxc_image(
                kept->0,
            ) ==> provision == kept),
            _ => true,
        },
{
    let (port, duration_ms, start, end, loss) = form.numbers()->Ok_0;
    let profile = form.profile(duration_ms, start, end, loss);
    assert(saved.profile == profile);
    assert(profile.events.len() == 3);
}

proof fn web_addresses_are_not_blank(url: Seq<char>)
    requires
        without_prefix(url, "http://"@) is Some || without_prefix(url, "https://"@) is Some,
    ensures
        !blank(url),
{
    reveal_strlit("http://");
    reveal_strlit("https://");
    assert(url[0] == 'h') by {
        if without_prefix(url, "http://"@) is Some {
            assert(url.subrange(0, "http://"@.len() as int)[0] == url[0]);
        } else {
            assert(url.subrange(0, "https://"@.len() as int)[0] == url[0]);
        }
    }
    assert(!whitespace(url[0]));
}

proof fn images_are_not_blank(system: crate::workload_spec::System)
    ensures
        !blank(lxc_image(system)),
{
    reveal_strlit(":");
    let image = lxc_image(system);
    assert(image[system.distribution.len() as int] == ':');
    assert(!whitespace(image[system.distribution.len() as int]));
}

/// An experiment that was opened in the form and not edited is saved as it
/// was, with everything that the form does not show. The form wants its faults
/// to start before they end, which a valid experiment need not.
pub proof fn unedited_experiments_are_preserved(experiment: Experiment, discovery: Found)
    requires
        edited(experiment, discovery) is Ok,
        experiment.profile.events[1].at_ms < experiment.profile.events[2].at_ms,
    ensures
        edited(experiment, discovery)->Ok_0.built() == Ok::<Experiment, Seq<char>>(experiment),
{
    let form = edited(experiment, discovery)->Ok_0;
    let events = experiment.profile.events;
    let loss = events[1].fault.drop_permyriad;
    // The numbers come back.
    written_numbers_are_read_back(experiment.profile.duration_ms as nat, u64::MAX as nat);
    written_numbers_are_read_back(events[1].at_ms as nat, u64::MAX as nat);
    written_numbers_are_read_back(events[2].at_ms as nat, u64::MAX as nat);
    written_numbers_are_read_back((loss / 100) as nat, u32::MAX as nat);
    crate::experiment_spec::incidents_error_reaches(
        events,
        experiment.profile.duration_ms,
        experiment.relations(),
        experiment.selectors.len() > 0,
        0,
        1,
    );
    crate::experiment_spec::incidents_error_reaches(
        events,
        experiment.profile.duration_ms,
        experiment.relations(),
        experiment.selectors.len() > 0,
        0,
        2,
    );
    let port = match experiment.destination {
        Some(destination) => destination.port,
        None => None,
    };
    match port {
        Some(number) => {
            written_numbers_are_read_back(number as nat, 65535);
            digits_are_digits(number as nat);
        },
        None => {},
    }
    assert(port_in(form.port, "port"@) == Ok::<Option<u16>, Seq<char>>(port));
    let numbers = (
        port,
        experiment.profile.duration_ms,
        events[1].at_ms,
        events[2].at_ms,
        (loss / 100) as u32,
    );
    assert(form.numbers() == Ok::<_, Seq<char>>(numbers));
    // So does the source.
    match experiment.source {
        Workload::Lxc { provision: Some(provision), .. } => {
            images_are_not_blank(provision);
        },
        _ => {},
    }
    assert(form.source() == Ok::<Workload, Seq<char>>(experiment.source));
    // And the faults and the traffic.
    let profile = form.profile(numbers.1, numbers.2, numbers.3, numbers.4);
    assert(((loss / 100) * 100) as u32 == loss);
    assert(profile.events =~= events);
    match experiment.traffic {
        Some(Traffic::Http { url, .. }) => {
            web_addresses_are_not_blank(url);
        },
        _ => {},
    }
    assert(form.traffic() == experiment.traffic);
    assert(form.target(port) == experiment.destination) by {
        match experiment.destination {
            Some(destination) => {
                assert(destination.selector == form.destination);
            },
            None => {},
        }
    }
    assert(form.experiment(experiment.source, port, profile) == experiment);
}

} // verus!
