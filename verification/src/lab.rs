//! The traffic generator of the lab: its command line, its requests and how a
//! run is judged.

use vstd::prelude::*;
use vstd::string::*;
use crate::duration::Duration;
use crate::net::{socket_literal, Socket, SocketAddr};
use crate::text::{
    begins_beyond, decimal, digits, find_text, has_text, holds_text, number_up_to, parse_number,
    parse_wide, place_in, same_text, split_at_first, split_once, starts_beyond, trim_end,
    trimmed_end,
};

verus! {

/// The argument behind an option.
pub open spec fn option_value(arguments: Seq<String>, expected: Seq<char>) -> Option<Seq<char>> {
    let at = place_in(arguments, expected, 0);
    if at + 1 < arguments.len() {
        Some(arguments[at + 1]@)
    } else {
        None
    }
}

/// The complaint about an option that is not there, or has nothing behind it.
pub open spec fn missing_error(arguments: Seq<String>, expected: Seq<char>) -> Seq<char> {
    if place_in(arguments, expected, 0) == arguments.len() {
        "missing "@ + expected
    } else {
        "missing value for "@ + expected
    }
}

/// The argument behind an option that must be there.
pub fn value<'a>(arguments: &'a Vec<String>, expected: &str) -> (r: Result<&'a str, String>)
    ensures
        match r {
            Ok(text) => option_value(arguments@, expected@) == Some(text@),
            Err(message) => option_value(arguments@, expected@) is None && message@
                == missing_error(arguments@, expected@),
        },
{
    let at: usize = find_text(arguments, expected);
    if at >= arguments.len() {
        let mut message = "missing ".to_owned();
        message.append(expected);
        return Err(message);
    }
    if at >= arguments.len() - 1 {
        let mut message = "missing value for ".to_owned();
        message.append(expected);
        return Err(message);
    }
    Ok(arguments[at + 1].as_str())
}

/// The argument behind an option, or what stands for it.
pub open spec fn option_or(
    arguments: Seq<String>,
    expected: Seq<char>,
    default: Seq<char>,
) -> Seq<char> {
    match option_value(arguments, expected) {
        Some(text) => text,
        None => default,
    }
}

/// The argument behind an option, or what stands for it.
pub fn value_or<'a>(arguments: &'a Vec<String>, expected: &str, default: &'a str) -> (r: &'a str)
    ensures
        r@ == option_or(arguments@, expected@, default@),
{
    let at: usize = find_text(arguments, expected);
    if at < arguments.len() && at < arguments.len() - 1 {
        arguments[at + 1].as_str()
    } else {
        default
    }
}

/// Whether a flag was given.
pub fn has_flag(arguments: &Vec<String>, expected: &str) -> (r: bool)
    ensures
        r == holds_text(arguments@, expected@),
{
    has_text(arguments, expected)
}

/// What a client asks of the lab server.
#[derive(Clone, Copy, Debug, PartialEq, Eq, Structural)]
pub enum LabRequest {
    Ping,
    Download(u64),
    Upload(u64),
}

/// What a byte count means.
pub open spec fn byte_count(value: Seq<char>) -> Result<u64, Seq<char>> {
    match number_up_to(value, u64::MAX as nat) {
        Some(count) => Ok(count as u64),
        None => Err("invalid byte count"@),
    }
}

/// Reads a byte count.
pub fn parse_byte_count(value: &str) -> (r: Result<u64, String>)
    ensures
        match (r, byte_count(value@)) {
            (Ok(actual), Ok(wanted)) => actual == wanted,
            (Err(message), Err(wanted)) => message@ == wanted,
            _ => false,
        },
{
    match parse_number(value, u64::MAX) {
        Some(count) => Ok(count),
        None => Err("invalid byte count".to_owned()),
    }
}

/// What a request line means: `ping`, `bytes <count>` or `upload <count>`.
/// Other lines mean nothing.
pub open spec fn request_meaning(line: Seq<char>) -> Result<Option<LabRequest>, Seq<char>> {
    let request = trimmed_end(line);
    if request == "ping"@ {
        Ok(Some(LabRequest::Ping))
    } else {
        match split_at_first(request, ' ') {
            None => Ok(None),
            Some((operation, bytes)) => if operation == "bytes"@ {
                match byte_count(bytes) {
                    Ok(count) => Ok(Some(LabRequest::Download(count))),
                    Err(error) => Err(error),
                }
            } else if operation == "upload"@ {
                match byte_count(bytes) {
                    Ok(count) => Ok(Some(LabRequest::Upload(count))),
                    Err(error) => Err(error),
                }
            } else {
                Ok(None)
            },
        }
    }
}

/// Reads a request line.
pub fn parse_request(request: &str) -> (r: Result<Option<LabRequest>, String>)
    ensures
        match (r, request_meaning(request@)) {
            (Ok(actual), Ok(wanted)) => actual == wanted,
            (Err(message), Err(wanted)) => message@ == wanted,
            _ => false,
        },
{
    let line = trim_end(request);
    if same_text(line, "ping") {
        return Ok(Some(LabRequest::Ping));
    }
    match split_once(line, ' ') {
        None => Ok(None),
        Some((operation, bytes)) => {
            if same_text(operation, "bytes") {
                match parse_byte_count(bytes) {
                    Ok(count) => Ok(Some(LabRequest::Download(count))),
                    Err(message) => Err(message),
                }
            } else if same_text(operation, "upload") {
                match parse_byte_count(bytes) {
                    Ok(count) => Ok(Some(LabRequest::Upload(count))),
                    Err(message) => Err(message),
                }
            } else {
                Ok(None)
            }
        },
    }
}

/// Judges an upload by the bytes that arrived.
pub fn upload_result(received: u64, bytes: u64) -> (r: Result<(), String>)
    ensures
        match r {
            Ok(_) => received == bytes,
            Err(message) => received != bytes && message@ == "upload ended after "@ + digits(
                received as nat,
            ) + " of "@ + digits(bytes as nat) + " bytes"@,
        },
{
    if received == bytes {
        return Ok(());
    }
    let mut message = "upload ended after ".to_owned();
    message.append(decimal(received).as_str());
    message.append(" of ");
    message.append(decimal(bytes).as_str());
    message.append(" bytes");
    Err(message)
}

/// Whether a transfer was complete and took long enough.
pub fn transfer_succeeds(received: u64, bytes: u64, elapsed_ms: u128, min_elapsed_ms: u128) -> (r:
    bool)
    ensures
        r == (received == bytes && elapsed_ms >= min_elapsed_ms),
{
    received == bytes && elapsed_ms >= min_elapsed_ms
}

/// A run of the lab client.
#[derive(Clone, Debug, PartialEq, Eq)]
pub struct ClientSpec {
    pub address: SocketAddr,
    pub requests: u32,
    pub timeout_ms: u64,
    pub interval_ms: u64,
    pub min_elapsed_ms: u128,
    pub min_spread_ms: u128,
    pub require_success: bool,
    pub require_failure: bool,
    pub require_mixed: bool,
}

/// The complaint about a text that should be a number of at most `max`. The
/// text is read from the left: digits that already write too much are told
/// before anything behind them.
pub open spec fn number_error(text: Seq<char>, max: nat) -> Seq<char> {
    if text.len() == 0 {
        "cannot parse integer from empty string"@
    } else if begins_beyond(text, max) {
        "number too large to fit in target type"@
    } else {
        "invalid digit found in string"@
    }
}

/// The number of at most `max` that a text writes, or what is wrong with it.
pub open spec fn number_in(text: Seq<char>, max: nat) -> Result<nat, Seq<char>> {
    match number_up_to(text, max) {
        Some(value) => Ok(value),
        None => Err(number_error(text, max)),
    }
}

/// Reads a number of at most `max` or says what is wrong with it.
pub fn read_number(text: &str, max: u128) -> (r: Result<u128, String>)
    ensures
        match (r, number_in(text@, max as nat)) {
            (Ok(actual), Ok(wanted)) => actual == wanted && actual <= max,
            (Err(message), Err(wanted)) => message@ == wanted,
            _ => false,
        },
{
    match parse_wide(text, max) {
        Some(value) => Ok(value),
        None => {
            if text.is_empty() {
                Err("cannot parse integer from empty string".to_owned())
            } else if starts_beyond(text, max) {
                Err("number too large to fit in target type".to_owned())
            } else {
                Err("invalid digit found in string".to_owned())
            }
        },
    }
}

/// The address behind an option, or what is wrong with it.
pub open spec fn address_option(arguments: Seq<String>, expected: Seq<char>) -> Result<
    Socket,
    Seq<char>,
> {
    match option_value(arguments, expected) {
        Some(text) => socket_literal(text),
        None => Err(missing_error(arguments, expected)),
    }
}

/// Reads the address behind an option that must be there.
pub fn read_address(arguments: &Vec<String>, expected: &str) -> (r: Result<SocketAddr, String>)
    ensures
        match (r, address_option(arguments@, expected@)) {
            (Ok(address), Ok(wanted)) => address@ == wanted,
            (Err(message), Err(wanted)) => message@ == wanted,
            _ => false,
        },
{
    match value(arguments, expected) {
        Ok(text) => SocketAddr::parse(text),
        Err(message) => Err(message),
    }
}

/// A number behind an option, or the number that stands for it.
pub open spec fn number_option(
    arguments: Seq<String>,
    expected: Seq<char>,
    default: Seq<char>,
    max: nat,
) -> Result<nat, Seq<char>> {
    number_in(option_or(arguments, expected, default), max)
}

fn read_option(arguments: &Vec<String>, expected: &str, default: &str, max: u128) -> (r: Result<
    u128,
    String,
>)
    ensures
        match (r, number_option(arguments@, expected@, default@, max as nat)) {
            (Ok(actual), Ok(wanted)) => actual == wanted && actual <= max,
            (Err(message), Err(wanted)) => message@ == wanted,
            _ => false,
        },
{
    read_number(value_or(arguments, expected, default), max)
}

impl ClientSpec {
    /// Whether a client is the one that the arguments ask for, its address
    /// aside.
    pub open spec fn asked_by(self, arguments: Seq<String>) -> bool {
        &&& number_option(arguments, "--requests"@, "100"@, u32::MAX as nat) == Ok::<
            nat,
            Seq<char>,
        >(self.requests as nat)
        &&& number_option(arguments, "--timeout-ms"@, "500"@, u64::MAX as nat) == Ok::<
            nat,
            Seq<char>,
        >(self.timeout_ms as nat)
        &&& number_option(arguments, "--interval-ms"@, "0"@, u64::MAX as nat) == Ok::<
            nat,
            Seq<char>,
        >(self.interval_ms as nat)
        &&& number_option(arguments, "--min-elapsed-ms"@, "0"@, u128::MAX as nat) == Ok::<
            nat,
            Seq<char>,
        >(self.min_elapsed_ms as nat)
        &&& number_option(arguments, "--min-spread-ms"@, "0"@, u128::MAX as nat) == Ok::<
            nat,
            Seq<char>,
        >(self.min_spread_ms as nat)
        &&& self.require_success == holds_text(arguments, "--require-success"@)
        &&& self.require_failure == holds_text(arguments, "--require-failure"@)
        &&& self.require_mixed == holds_text(arguments, "--require-mixed"@)
    }

    /// The first thing that is wrong with the arguments of a client behind its
    /// address.
    pub open spec fn number_error(arguments: Seq<String>) -> Option<Seq<char>> {
        match number_option(arguments, "--requests"@, "100"@, u32::MAX as nat) {
            Err(error) => Some(error),
            Ok(_) => match number_option(
                arguments,
                "--timeout-ms"@,
                "500"@,
                u64::MAX as nat,
            ) {
                Err(error) => Some(error),
                Ok(_) => match number_option(
                    arguments,
                    "--interval-ms"@,
                    "0"@,
                    u64::MAX as nat,
                ) {
                    Err(error) => Some(error),
                    Ok(_) => match number_option(
                        arguments,
                        "--min-elapsed-ms"@,
                        "0"@,
                        u128::MAX as nat,
                    ) {
                        Err(error) => Some(error),
                        Ok(_) => match number_option(
                            arguments,
                            "--min-spread-ms"@,
                            "0"@,
                            u128::MAX as nat,
                        ) {
                            Err(error) => Some(error),
                            Ok(_) => None,
                        },
                    },
                },
            },
        }
    }

    /// Reads the arguments of a client: its address first, then the numbers.
    pub fn parse(arguments: &Vec<String>) -> (r: Result<ClientSpec, String>)
        ensures
            match (r, address_option(arguments@, "--address"@)) {
                (Ok(spec), Ok(wanted)) => ClientSpec::number_error(arguments@) is None
                    && spec.address@ == wanted && spec.asked_by(arguments@),
                (Err(message), Ok(_)) => ClientSpec::number_error(arguments@) == Some(message@),
                (Err(message), Err(wanted)) => message@ == wanted,
                _ => false,
            },
    {
        match read_address(arguments, "--address") {
            Ok(address) => ClientSpec::at_address(address, arguments),
            Err(message) => Err(message),
        }
    }

    /// Reads the arguments of a client whose address is known.
    pub fn at_address(address: SocketAddr, arguments: &Vec<String>) -> (r: Result<
        ClientSpec,
        String,
    >)
        ensures
            match (r, ClientSpec::number_error(arguments@)) {
                (Ok(spec), None) => spec.address == address && spec.asked_by(arguments@),
                (Err(message), Some(wanted)) => message@ == wanted,
                _ => false,
            },
    {
        let requests: u128 = match read_option(arguments, "--requests", "100", u32::MAX as u128) {
            Ok(number) => number,
            Err(message) => return Err(message),
        };
        let timeout_ms: u128 = match read_option(
            arguments,
            "--timeout-ms",
            "500",
            u64::MAX as u128,
        ) {
            Ok(number) => number,
            Err(message) => return Err(message),
        };
        let interval_ms: u128 = match read_option(
            arguments,
            "--interval-ms",
            "0",
            u64::MAX as u128,
        ) {
            Ok(number) => number,
            Err(message) => return Err(message),
        };
        let min_elapsed_ms: u128 = match read_option(
            arguments,
            "--min-elapsed-ms",
            "0",
            u128::MAX,
        ) {
            Ok(number) => number,
            Err(message) => return Err(message),
        };
        let min_spread_ms: u128 = match read_option(
            arguments,
            "--min-spread-ms",
            "0",
            u128::MAX,
        ) {
            Ok(number) => number,
            Err(message) => return Err(message),
        };
        Ok(
            ClientSpec {
                address,
                requests: requests as u32,
                timeout_ms: timeout_ms as u64,
                interval_ms: interval_ms as u64,
                min_elapsed_ms,
                min_spread_ms,
                require_success: has_flag(arguments, "--require-success"),
                require_failure: has_flag(arguments, "--require-failure"),
                require_mixed: has_flag(arguments, "--require-mixed"),
            },
        )
    }

    /// Whether the client pauses after its request at `index`: between
    /// requests, never after the last.
    pub fn pauses_after(&self, index: u32) -> (r: bool)
        ensures
            r == (self.interval_ms != 0 && index + 1 < self.requests),
    {
        self.interval_ms != 0 && index < u32::MAX && index + 1 < self.requests
    }
}

/// A transfer to or from the lab server.
#[derive(Clone, Copy, Debug, PartialEq, Eq)]
pub struct TransferSpec {
    pub address: SocketAddr,
    pub bytes: u64,
    pub timeout_ms: u64,
    pub min_elapsed_ms: u128,
}

/// A number behind an option that must be there.
pub open spec fn required_number(arguments: Seq<String>, expected: Seq<char>, max: nat) -> Result<
    nat,
    Seq<char>,
> {
    match option_value(arguments, expected) {
        Some(text) => number_in(text, max),
        None => Err(missing_error(arguments, expected)),
    }
}

impl TransferSpec {
    /// The size, the patience and the least duration that the arguments ask
    /// for, or the first thing that is wrong with them.
    pub open spec fn asked(arguments: Seq<String>) -> Result<(nat, nat, nat), Seq<char>> {
        match required_number(arguments, "--bytes"@, u64::MAX as nat) {
            Err(error) => Err(error),
            Ok(bytes) => match number_option(
                arguments,
                "--timeout-ms"@,
                "10000"@,
                u64::MAX as nat,
            ) {
                Err(error) => Err(error),
                Ok(timeout_ms) => match number_option(
                    arguments,
                    "--min-elapsed-ms"@,
                    "0"@,
                    u128::MAX as nat,
                ) {
                    Err(error) => Err(error),
                    Ok(min_elapsed_ms) => Ok((bytes, timeout_ms, min_elapsed_ms)),
                },
            },
        }
    }

    /// Reads the arguments of a transfer: its address first, then the numbers.
    pub fn parse(arguments: &Vec<String>) -> (r: Result<TransferSpec, String>)
        ensures
            match (r, address_option(arguments@, "--address"@)) {
                (Ok(spec), Ok(wanted)) => spec.address@ == wanted && TransferSpec::asked(arguments@)
                    == Ok::<(nat, nat, nat), Seq<char>>(
                    (spec.bytes as nat, spec.timeout_ms as nat, spec.min_elapsed_ms as nat),
                ),
                (Err(message), Ok(_)) => TransferSpec::asked(arguments@) == Err::<
                    (nat, nat, nat),
                    Seq<char>,
                >(message@),
                (Err(message), Err(wanted)) => message@ == wanted,
                _ => false,
            },
    {
        match read_address(arguments, "--address") {
            Ok(address) => TransferSpec::at_address(address, arguments),
            Err(message) => Err(message),
        }
    }

    /// Reads the arguments of a transfer whose address is known.
    pub fn at_address(address: SocketAddr, arguments: &Vec<String>) -> (r: Result<
        TransferSpec,
        String,
    >)
        ensures
            match (r, TransferSpec::asked(arguments@)) {
                (Ok(spec), Ok(wanted)) => spec.address == address && (
                    spec.bytes as nat,
                    spec.timeout_ms as nat,
                    spec.min_elapsed_ms as nat,
                ) == wanted,
                (Err(message), Err(wanted)) => message@ == wanted,
                _ => false,
            },
    {
        let text = match value(arguments, "--bytes") {
            Ok(text) => text,
            Err(message) => return Err(message),
        };
        let bytes: u128 = match read_number(text, u64::MAX as u128) {
            Ok(number) => number,
            Err(message) => return Err(message),
        };
        let timeout_ms: u128 = match read_option(
            arguments,
            "--timeout-ms",
            "10000",
            u64::MAX as u128,
        ) {
            Ok(number) => number,
            Err(message) => return Err(message),
        };
        let min_elapsed_ms: u128 = match read_option(
            arguments,
            "--min-elapsed-ms",
            "0",
            u128::MAX,
        ) {
            Ok(number) => number,
            Err(message) => return Err(message),
        };
        Ok(
            TransferSpec {
                address,
                bytes: bytes as u64,
                timeout_ms: timeout_ms as u64,
                min_elapsed_ms,
            },
        )
    }
}

/// The requests of a run so far.
#[derive(Clone, Copy, Debug, PartialEq, Eq)]
pub struct RequestReport {
    pub succeeded: u32,
    pub failed: u32,
    pub fastest_ms: Option<u128>,
    pub slowest_ms: u128,
}

impl RequestReport {
    /// A run without requests.
    pub open spec fn empty() -> RequestReport {
        RequestReport { succeeded: 0, failed: 0, fastest_ms: None, slowest_ms: 0 }
    }

    /// The time between the fastest and the slowest request.
    pub open spec fn spread(self) -> u128 {
        match self.fastest_ms {
            Some(fastest) => if self.slowest_ms < fastest {
                0
            } else {
                (self.slowest_ms - fastest) as u128
            },
            None => 0,
        }
    }

    /// The run after one more request.
    pub open spec fn after(self, success: bool, elapsed_ms: u128) -> RequestReport {
        RequestReport {
            succeeded: if success {
                (self.succeeded + 1) as u32
            } else {
                self.succeeded
            },
            failed: if success {
                self.failed
            } else {
                (self.failed + 1) as u32
            },
            fastest_ms: Some(
                match self.fastest_ms {
                    Some(fastest) => if fastest < elapsed_ms {
                        fastest
                    } else {
                        elapsed_ms
                    },
                    None => elapsed_ms,
                },
            ),
            slowest_ms: if self.slowest_ms > elapsed_ms {
                self.slowest_ms
            } else {
                elapsed_ms
            },
        }
    }

    /// Adds one request to the run.
    pub fn record(self, success: bool, elapsed: Duration) -> (r: RequestReport)
        requires
            self.succeeded < u32::MAX,
            self.failed < u32::MAX,
        ensures
            r == self.after(success, elapsed.nanos / 1_000_000),
    {
        let elapsed_ms: u128 = elapsed.nanos / 1_000_000;
        let mut report = self;
        if success {
            report.succeeded = report.succeeded + 1;
        } else {
            report.failed = report.failed + 1;
        }
        report.fastest_ms =
        match report.fastest_ms {
            Some(fastest) => if fastest < elapsed_ms {
                Some(fastest)
            } else {
                Some(elapsed_ms)
            },
            None => Some(elapsed_ms),
        };
        if elapsed_ms >= report.slowest_ms {
            report.slowest_ms = elapsed_ms;
        }
        report
    }

    /// Whether a run meets what its client asks for.
    pub open spec fn meets(self, spec: ClientSpec, elapsed_ms: u128) -> bool {
        &&& spec.require_success ==> self.failed == 0
        &&& spec.require_failure ==> self.failed > 0
        &&& spec.require_mixed ==> self.succeeded > 0 && self.failed > 0
        &&& elapsed_ms >= spec.min_elapsed_ms
        &&& self.spread() >= spec.min_spread_ms
    }

    /// Judges a finished run; also gives the spread of its times.
    pub fn finish(&self, spec: &ClientSpec, elapsed: Duration) -> (r: (bool, u128))
        ensures
            r.0 == self.meets(*spec, elapsed.nanos / 1_000_000),
            r.1 == self.spread(),
    {
        let elapsed_ms: u128 = elapsed.nanos / 1_000_000;
        let spread_ms: u128 = match self.fastest_ms {
            Some(fastest) => self.slowest_ms.saturating_sub(fastest),
            None => 0,
        };
        let met = (!spec.require_success || self.failed == 0) && (!spec.require_failure
            || self.failed > 0) && (!spec.require_mixed || (self.succeeded > 0 && self.failed > 0))
            && elapsed_ms >= spec.min_elapsed_ms && spread_ms >= spec.min_spread_ms;
        (met, spread_ms)
    }
}

impl Default for RequestReport {
    fn default() -> (r: Self)
        ensures
            r == RequestReport::empty(),
    {
        RequestReport { succeeded: 0, failed: 0, fastest_ms: None, slowest_ms: 0 }
    }
}

/// Every request counts once, and its time never lies outside the range from
/// the fastest to the slowest.
pub proof fn requests_are_counted_once(report: RequestReport, success: bool, elapsed_ms: u128)
    requires
        report.succeeded < u32::MAX,
        report.failed < u32::MAX,
    ensures
        report.after(success, elapsed_ms).succeeded + report.after(success, elapsed_ms).failed
            == report.succeeded + report.failed + 1,
        report.after(success, elapsed_ms).fastest_ms->0 <= elapsed_ms <= report.after(
            success,
            elapsed_ms,
        ).slowest_ms,
        report.after(success, elapsed_ms).spread() >= report.spread(),
{
}

} // verus!
