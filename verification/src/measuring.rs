//! Laws of what is measured: the requests of the lab, the environment of a run,
//! and how two runs compare.

use vstd::prelude::*;
use crate::comparison::{
    environment_of, final_diagnostics_of, final_stats_of, kernel_of, offloads_of, qdiscs_of,
};
use crate::editing::written_numbers_are_read_back;
use crate::environment::{
    complaint, kernel_call, offload_in, offloads_call, qdiscs_call, qdiscs_in, told, Capture,
};
use crate::execution::ExecutionEnvironment;
use crate::json::json_text;
use crate::lab::{
    missing_error, number_in, option_or, option_value, request_meaning, ClientSpec, LabRequest,
    RequestReport, TransferSpec,
};
use crate::plan::ResolvedExperiment;
use crate::spelling::{texts_are_found_where_they_stand, texts_split_at_the_first};
use crate::text::{
    begins_beyond, digits, holds_text, number_up_to, place_in, split_at_first, trimmed, trimmed_end,
    whitespace,
};
use crate::words::first_word;

verus! {

/// A request is counted by how it ended, and the times of all requests lie
/// between the fastest and the slowest, each of which was one of them.
pub proof fn requests_are_measured(report: RequestReport, success: bool, elapsed_ms: u128)
    requires
        report.succeeded < u32::MAX,
        report.failed < u32::MAX,
    ensures
        ({
            let after = report.after(success, elapsed_ms);
            &&& success ==> after.succeeded == report.succeeded + 1 && after.failed == report.failed
            &&& !success ==> after.failed == report.failed + 1 && after.succeeded
                == report.succeeded
            &&& after.fastest_ms matches Some(fastest)
            &&& fastest <= elapsed_ms
            &&& report.fastest_ms is None ==> fastest == elapsed_ms
            &&& report.fastest_ms matches Some(before) ==> fastest <= before && (fastest == before
                || fastest == elapsed_ms)
            &&& elapsed_ms <= after.slowest_ms
            &&& report.slowest_ms <= after.slowest_ms
            &&& after.slowest_ms == elapsed_ms || after.slowest_ms == report.slowest_ms
            &&& after.spread() == after.slowest_ms - fastest
        }),
{
}

/// A report before any request counts none, and nothing lies between them.
pub proof fn fresh_reports_are_empty()
    ensures
        RequestReport::empty().succeeded == 0,
        RequestReport::empty().failed == 0,
        RequestReport::empty().fastest_ms is None,
        RequestReport::empty().spread() == 0,
{
}

/// A report passes exactly when each demand is met: none failed, some failed,
/// or some did and some did not, and the times reach what was asked for.
pub proof fn demands_are_met_together(report: RequestReport, spec: ClientSpec, elapsed_ms: u128)
    ensures
        report.meets(spec, elapsed_ms) <==> {
            &&& spec.require_success ==> report.failed == 0
            &&& spec.require_failure ==> report.failed > 0
            &&& spec.require_mixed ==> report.succeeded > 0 && report.failed > 0
            &&& elapsed_ms >= spec.min_elapsed_ms
            &&& report.spread() >= spec.min_spread_ms
        },
        spec.require_success && spec.require_failure ==> !report.meets(spec, elapsed_ms),
{
}

/// An option's value is the argument behind its first mention; without one the
/// default stands.
pub proof fn options_stand_behind_their_names(
    arguments: Seq<String>,
    expected: Seq<char>,
    default: Seq<char>,
    at: int,
)
    requires
        0 <= at < arguments.len(),
        arguments[at]@ == expected,
        forall|i: int| 0 <= i < at ==> (#[trigger] arguments[i])@ != expected,
    ensures
        at + 1 < arguments.len() ==> option_value(arguments, expected) == Some(
            arguments[at + 1]@,
        ) && option_or(arguments, expected, default) == arguments[at + 1]@,
        at + 1 == arguments.len() ==> option_value(arguments, expected) is None && option_or(
            arguments,
            expected,
            default,
        ) == default && missing_error(arguments, expected) == "missing value for "@ + expected,
{
    texts_are_found_where_they_stand(arguments, expected, 0);
    let found = place_in(arguments, expected, 0);
    if found > at {
        assert(arguments[at]@ != expected);
    }
    if found < at {
        assert(arguments[found]@ != expected);
    }
}

/// An option that is not mentioned has no value and leaves its default.
pub proof fn absent_options_leave_their_defaults(
    arguments: Seq<String>,
    expected: Seq<char>,
    default: Seq<char>,
)
    requires
        !holds_text(arguments, expected),
    ensures
        option_value(arguments, expected) is None,
        option_or(arguments, expected, default) == default,
        missing_error(arguments, expected) == "missing "@ + expected,
{
    texts_are_found_where_they_stand(arguments, expected, 0);
}

/// A number in an option is read whole and within its bound, or it is refused
/// for being empty, too large or no number.
pub proof fn option_numbers_are_read_whole(text: Seq<char>, max: nat, n: nat)
    ensures
        number_in(text, max) == Ok::<nat, Seq<char>>(n) <==> number_up_to(text, max) == Some(n),
        number_up_to(text, max) is None ==> {
            &&& text.len() == 0 ==> number_in(text, max) == Err::<nat, Seq<char>>(
                "cannot parse integer from empty string"@,
            )
            &&& text.len() > 0 && begins_beyond(text, max) ==> number_in(text, max) == Err::<
                nat,
                Seq<char>,
            >("number too large to fit in target type"@)
            &&& text.len() > 0 && !begins_beyond(text, max) ==> number_in(text, max) == Err::<
                nat,
                Seq<char>,
            >("invalid digit found in string"@)
        },
{
}

proof fn default_numbers_are_known()
    ensures
        digits(0) == "0"@,
        digits(100) == "100"@,
        digits(500) == "500"@,
        digits(10_000) == "10000"@,
{
    reveal_strlit("0");
    reveal_strlit("100");
    reveal_strlit("500");
    reveal_strlit("10000");
    reveal_with_fuel(digits, 6);
    assert(digits(0) =~= "0"@);
    assert(digits(100) =~= "100"@);
    assert(digits(500) =~= "500"@);
    assert(digits(10_000) =~= "10000"@);
}

/// A client that is told nothing else makes a hundred requests, waits half a
/// second for each and not at all between them, and demands nothing. What it is
/// told it takes from the option of that name.
pub proof fn clients_ask_as_they_are_told(spec: ClientSpec, arguments: Seq<String>, n: nat)
    requires
        spec.asked_by(arguments),
    ensures
        !holds_text(arguments, "--requests"@) ==> spec.requests == 100,
        !holds_text(arguments, "--timeout-ms"@) ==> spec.timeout_ms == 500,
        !holds_text(arguments, "--interval-ms"@) ==> spec.interval_ms == 0,
        !holds_text(arguments, "--min-elapsed-ms"@) ==> spec.min_elapsed_ms == 0,
        !holds_text(arguments, "--min-spread-ms"@) ==> spec.min_spread_ms == 0,
        option_value(arguments, "--requests"@) == Some(digits(n)) && n <= u32::MAX
            ==> spec.requests == n,
        option_value(arguments, "--timeout-ms"@) == Some(digits(n)) && n <= u64::MAX
            ==> spec.timeout_ms == n,
        option_value(arguments, "--interval-ms"@) == Some(digits(n)) && n <= u64::MAX
            ==> spec.interval_ms == n,
        option_value(arguments, "--min-elapsed-ms"@) == Some(digits(n)) && n <= u128::MAX
            ==> spec.min_elapsed_ms == n,
        option_value(arguments, "--min-spread-ms"@) == Some(digits(n)) && n <= u128::MAX
            ==> spec.min_spread_ms == n,
        spec.require_success <==> holds_text(arguments, "--require-success"@),
        spec.require_failure <==> holds_text(arguments, "--require-failure"@),
        spec.require_mixed <==> holds_text(arguments, "--require-mixed"@),
{
    default_numbers_are_known();
    written_numbers_are_read_back(100, u32::MAX as nat);
    written_numbers_are_read_back(500, u64::MAX as nat);
    written_numbers_are_read_back(0, u64::MAX as nat);
    written_numbers_are_read_back(0, u128::MAX as nat);
    if !holds_text(arguments, "--requests"@) {
        absent_options_leave_their_defaults(arguments, "--requests"@, "100"@);
    }
    if !holds_text(arguments, "--timeout-ms"@) {
        absent_options_leave_their_defaults(arguments, "--timeout-ms"@, "500"@);
    }
    if !holds_text(arguments, "--interval-ms"@) {
        absent_options_leave_their_defaults(arguments, "--interval-ms"@, "0"@);
    }
    if !holds_text(arguments, "--min-elapsed-ms"@) {
        absent_options_leave_their_defaults(arguments, "--min-elapsed-ms"@, "0"@);
    }
    if !holds_text(arguments, "--min-spread-ms"@) {
        absent_options_leave_their_defaults(arguments, "--min-spread-ms"@, "0"@);
    }
    if n <= u32::MAX {
        written_numbers_are_read_back(n, u32::MAX as nat);
    }
    if n <= u64::MAX {
        written_numbers_are_read_back(n, u64::MAX as nat);
    }
    if n <= u128::MAX {
        written_numbers_are_read_back(n, u128::MAX as nat);
    }
}

/// A transfer names how many bytes it moves. It waits ten seconds unless told
/// otherwise, and need not take any time.
pub proof fn transfers_ask_as_they_are_told(arguments: Seq<String>, n: nat)
    requires
        n <= u64::MAX,
    ensures
        !holds_text(arguments, "--bytes"@) ==> TransferSpec::asked(arguments) is Err,
        option_value(arguments, "--bytes"@) == Some(digits(n)) && !holds_text(
            arguments,
            "--timeout-ms"@,
        ) && !holds_text(arguments, "--min-elapsed-ms"@) ==> TransferSpec::asked(arguments) == Ok::<
            (nat, nat, nat),
            Seq<char>,
        >((n, 10_000, 0)),
        TransferSpec::asked(arguments) matches Ok((bytes, timeout_ms, min_elapsed_ms)) ==> {
            &&& option_value(arguments, "--bytes"@) == Some(digits(n)) ==> bytes == n
            &&& option_value(arguments, "--timeout-ms"@) == Some(digits(n)) ==> timeout_ms == n
            &&& option_value(arguments, "--min-elapsed-ms"@) == Some(digits(n)) ==> min_elapsed_ms
                == n
        },
{
    default_numbers_are_known();
    written_numbers_are_read_back(10_000, u64::MAX as nat);
    written_numbers_are_read_back(0, u128::MAX as nat);
    written_numbers_are_read_back(n, u64::MAX as nat);
    written_numbers_are_read_back(n, u128::MAX as nat);
    if !holds_text(arguments, "--bytes"@) {
        absent_options_leave_their_defaults(arguments, "--bytes"@, "0"@);
    }
    if !holds_text(arguments, "--timeout-ms"@) {
        absent_options_leave_their_defaults(arguments, "--timeout-ms"@, "10000"@);
    }
    if !holds_text(arguments, "--min-elapsed-ms"@) {
        absent_options_leave_their_defaults(arguments, "--min-elapsed-ms"@, "0"@);
    }
}

/// A request for bytes, and one that brings them, says how many; any other
/// request with an operand is unknown.
pub proof fn requests_say_how_many_bytes(operation: Seq<char>, text: Seq<char>, n: u64)
    requires
        !operation.contains(' '),
        text.len() > 0,
        !whitespace(text.last()),
    ensures
        ({
            let meaning = request_meaning(operation + seq![' '] + text);
            &&& operation == "bytes"@ ==> (meaning == Ok::<Option<LabRequest>, Seq<char>>(
                Some(LabRequest::Download(n)),
            ) <==> number_up_to(text, u64::MAX as nat) == Some(n as nat))
            &&& operation == "upload"@ ==> (meaning == Ok::<Option<LabRequest>, Seq<char>>(
                Some(LabRequest::Upload(n)),
            ) <==> number_up_to(text, u64::MAX as nat) == Some(n as nat))
            &&& operation == "bytes"@ || operation == "upload"@ ==> (meaning is Err
                <==> number_up_to(text, u64::MAX as nat) is None)
            &&& operation != "bytes"@ && operation != "upload"@ ==> meaning == Ok::<
                Option<LabRequest>,
                Seq<char>,
            >(None)
        }),
{
    let request = operation + seq![' '] + text;
    assert(trimmed_end(request) == request) by {
        assert(request.last() == text.last());
    }
    texts_split_at_the_first(request, ' ');
    assert(request[operation.len() as int] == ' ');
    assert(request.contains(' '));
    let (before, behind) = split_at_first(request, ' ')->0;
    let other = before + seq![' '] + behind;
    assert(before.len() == operation.len()) by {
        if before.len() < operation.len() {
            assert(other[before.len() as int] == ' ');
            assert(operation[before.len() as int] == ' ');
        } else if operation.len() < before.len() {
            assert(other[operation.len() as int] == before[operation.len() as int]);
            assert(before.contains(' '));
        }
    }
    assert(before =~= operation) by {
        assert forall|i: int| 0 <= i < operation.len() implies #[trigger] before[i]
            == operation[i] by {
            assert(other[i] == request[i]);
        }
    }
    assert(behind =~= text) by {
        let at = operation.len() as int + 1;
        assert forall|i: int| 0 <= i < text.len() implies #[trigger] behind[i] == text[i] by {
            assert(other[at + i] == request[at + i]);
        }
    }
    reveal_strlit("ping");
    reveal_strlit("bytes");
    reveal_strlit("upload");
    assert(!"ping"@.contains(' '));
    assert("bytes"@.len() == 5 && "upload"@.len() == 6);
}

/// A ping is told by its word, whatever white stands behind it.
pub proof fn pings_are_answered(line: Seq<char>)
    ensures
        trimmed_end(line) == "ping"@ <==> request_meaning(line) == Ok::<
            Option<LabRequest>,
            Seq<char>,
        >(Some(LabRequest::Ping)),
{
}

/// An offload is told by a line with its name, a colon and whether it is on or
/// off; what stands behind that word is passed over, and so is any other line.
pub proof fn offloads_are_on_or_off(line: Seq<char>, name: Seq<char>, state: Seq<char>)
    requires
        trimmed(line) == name + seq![':'] + state,
        !name.contains(':'),
    ensures
        first_word(state) == Some("on"@) ==> offload_in(line) == Some((name, true)),
        first_word(state) == Some("off"@) ==> offload_in(line) == Some((name, false)),
        first_word(state) != Some("on"@) && first_word(state) != Some("off"@) ==> offload_in(line)
            is None,
{
    let text = trimmed(line);
    texts_split_at_the_first(text, ':');
    assert(text[name.len() as int] == ':');
    assert(text.contains(':'));
    let (before, behind) = split_at_first(text, ':')->0;
    let other = before + seq![':'] + behind;
    assert(before.len() == name.len()) by {
        if before.len() < name.len() {
            assert(other[before.len() as int] == ':');
            assert(name[before.len() as int] == ':');
        } else if name.len() < before.len() {
            assert(other[name.len() as int] == before[name.len() as int]);
            assert(before.contains(':'));
        }
    }
    assert(before =~= name) by {
        assert forall|i: int| 0 <= i < name.len() implies #[trigger] before[i] == name[i] by {
            assert(other[i] == text[i]);
        }
    }
    assert(behind =~= state) by {
        let at = name.len() as int + 1;
        assert forall|i: int| 0 <= i < state.len() implies #[trigger] behind[i] == state[i] by {
            assert(other[at + i] == text[at + i]);
        }
    }
    reveal_strlit("on");
    reveal_strlit("off");
    assert("on"@.len() == 2 && "off"@.len() == 3);
}

/// What is asked of the machine: its kernel, and the offloads and queues of an
/// interface.
pub proof fn machines_are_asked_for_their_state(interface: Seq<char>)
    ensures
        kernel_call().program == "uname"@ && kernel_call().args == seq!["-r"@],
        offloads_call(interface).program == "ethtool"@ && offloads_call(interface).args == seq![
            "-k"@,
            interface,
        ],
        qdiscs_call(interface).program == "tc"@ && qdiscs_call(interface).args == seq!["-j"@]
            + seq!["qdisc"@, "show"@] + seq!["dev"@, interface],
{
    assert(seq!["-j"@] + seq!["qdisc"@, "show"@] + seq!["dev"@, interface] =~= seq![
        "-j"@,
        "qdisc"@,
        "show"@,
        "dev"@,
        interface,
    ]);
}

/// A program that ended well tells what it wrote. Otherwise the reason names
/// the program: that it could not run, could not be read, or how it ended and
/// what it complained of.
pub proof fn programs_tell_what_they_wrote(program: Seq<char>, capture: Capture)
    ensures
        capture matches Capture::Ran(output) ==> if output.exit.success {
            told(program, capture) == Ok::<Seq<char>, Seq<char>>(output.stdout@)
        } else {
            told(program, capture) == Err::<Seq<char>, Seq<char>>(
                program + " exited with "@ + output.exit.status@ + ": "@ + trimmed(output.stderr@),
            )
        },
        capture matches Capture::Unavailable(cause) ==> told(program, capture) == Err::<
            Seq<char>,
            Seq<char>,
        >("could not run "@ + program + ": "@ + cause@),
        capture matches Capture::Unreadable(cause) ==> told(program, capture) == Err::<
            Seq<char>,
            Seq<char>,
        >(program + " returned non-UTF-8: "@ + cause@),
{
}

/// The queues are kept where their listing was told and can be read. What could
/// not be told is complained of, by its subject and reason; nothing else is.
pub proof fn listings_are_kept_or_complained_of(
    text: Seq<char>,
    value: Seq<char>,
    message: Seq<char>,
    subject: Seq<char>,
)
    ensures
        qdiscs_in(Ok(text)) == Ok::<Seq<char>, Seq<char>>(value) <==> json_text(text) == Ok::<
            Seq<char>,
            Seq<char>,
        >(value),
        json_text(text) == Err::<Seq<char>, Seq<char>>(message) ==> qdiscs_in(Ok(text)) == Err::<
            Seq<char>,
            Seq<char>,
        >("invalid tc JSON: "@ + message),
        qdiscs_in(Err(message)) == Err::<Seq<char>, Seq<char>>(message),
        complaint(subject, Ok(text)) == Seq::<Seq<char>>::empty(),
        complaint(subject, Err(message)) == seq![subject + message],
{
}

/// Two runs are compared by the environment that was in force, and where that
/// was not captured by the one before, each by its kernel, its offloads and its
/// queues, and by what their rules and misses came to.
pub proof fn runs_compare_by_what_was_in_force(
    plan: ResolvedExperiment,
    environment: ExecutionEnvironment,
)
    ensures
        plan.effective_environment == Some(environment) ==> environment_of(plan) == Some(
            environment,
        ),
        plan.effective_environment is None ==> environment_of(plan) == plan.environment,
        kernel_of(None) is None && offloads_of(None) is None && qdiscs_of(None) is None,
        kernel_of(Some(environment)) matches Some(kernel) <==> environment.kernel_release is Some,
        environment.kernel_release matches Some(kernel) ==> kernel_of(Some(environment)) == Some(
            kernel@,
        ),
        environment.qdiscs matches Some(queues) ==> qdiscs_of(Some(environment)) == Some(queues@),
        environment.qdiscs is None ==> qdiscs_of(Some(environment)) is None,
        offloads_of(Some(environment)) matches Some(list) && list.len()
            == environment.offloads@.len() && forall|i: int|
            0 <= i < list.len() ==> (#[trigger] list[i]).0 == environment.offloads@[i].0@ && list[i].1
                == environment.offloads@[i].1,
        plan.execution is None ==> final_stats_of(plan) is None && final_diagnostics_of(plan)
            is None,
        plan.execution matches Some(execution) ==> final_stats_of(plan) == Some(
            execution.final_rule_stats,
        ) && final_diagnostics_of(plan) == execution.final_diagnostics,
{
}

} // verus!
