//! The queue that holds packets until their departure time.

use vstd::prelude::*;
use vstd::string::*;
use crate::text::{push_text, texts, trim, trimmed};

verus! {

pub const QUEUE_LIMIT: &'static str = "100000";

pub const FLOW_QUEUE_LIMIT: &'static str = "4294967295";

/// Installs the fair queue. All decisions and times come from the classifier;
/// the queue only keeps packets until they are due.
#[derive(Clone, Copy, Debug, PartialEq, Eq, Structural)]
pub struct PacingBackend;

/// The fair queue that this session put on an interface.
#[derive(Clone, Debug, PartialEq, Eq)]
pub struct PacingGuard {
    pub interface: String,
}

/// The arguments of `tc` that put the fair queue on an interface.
pub open spec fn installation(interface: Seq<char>) -> Seq<Seq<char>> {
    seq![
        "qdisc"@,
        "add"@,
        "dev"@,
        interface,
        "root"@,
        "handle"@,
        "7fff:"@,
        "fq"@,
        "limit"@,
        "100000"@,
        "flow_limit"@,
        "4294967295"@,
        "horizon"@,
        "86400s"@,
        "horizon_cap"@,
    ]
}

/// The arguments of `tc` that put the fair queue on an interface.
pub fn install_args(interface: &str) -> (r: Vec<String>)
    ensures
        texts(r@) == installation(interface@),
{
    let mut args: Vec<String> = Vec::new();
    assert(texts(args@) =~= Seq::<Seq<char>>::empty());
    push_text(&mut args, "qdisc");
    push_text(&mut args, "add");
    push_text(&mut args, "dev");
    push_text(&mut args, interface);
    push_text(&mut args, "root");
    push_text(&mut args, "handle");
    push_text(&mut args, "7fff:");
    push_text(&mut args, "fq");
    push_text(&mut args, "limit");
    push_text(&mut args, QUEUE_LIMIT);
    push_text(&mut args, "flow_limit");
    push_text(&mut args, FLOW_QUEUE_LIMIT);
    push_text(&mut args, "horizon");
    push_text(&mut args, "86400s");
    push_text(&mut args, "horizon_cap");
    assert(texts(args@) =~= installation(interface@));
    args
}

impl PacingBackend {
    /// The arguments of `tc` for a session, if it needs the queue.
    pub fn install(&self, interface: &str, required: bool) -> (r: Option<Vec<String>>)
        ensures
            match r {
                Some(args) => required && texts(args@) == installation(interface@),
                None => !required,
            },
    {
        if required {
            Some(install_args(interface))
        } else {
            None
        }
    }
}

impl PacingGuard {
    /// The arguments of `tc` that take the queue off again. They name the
    /// handle it was put on with, so no other queue is removed.
    pub fn remove_args(&self) -> (r: Vec<String>)
        ensures
            texts(r@) == seq![
                "qdisc"@,
                "del"@,
                "dev"@,
                self.interface@,
                "root"@,
                "handle"@,
                "7fff:"@,
            ],
    {
        let mut args: Vec<String> = Vec::new();
        assert(texts(args@) =~= Seq::<Seq<char>>::empty());
        push_text(&mut args, "qdisc");
        push_text(&mut args, "del");
        push_text(&mut args, "dev");
        push_text(&mut args, self.interface.as_str());
        push_text(&mut args, "root");
        push_text(&mut args, "handle");
        push_text(&mut args, "7fff:");
        assert(texts(args@) =~= seq![
            "qdisc"@,
            "del"@,
            "dev"@,
            self.interface@,
            "root"@,
            "handle"@,
            "7fff:"@,
        ]);
        args
    }
}

/// Judges a run of `tc`. An existing queue is never replaced, and the message
/// says so.
pub fn ensure_success(operation: &str, success: bool, stderr: &str) -> (r: Result<(), String>)
    ensures
        match r {
            Ok(_) => success,
            Err(message) => !success && message@ == operation@ + " failed: "@ + trimmed(stderr@)
                + ". faultline-engine does not replace an existing root qdisc"@,
        },
{
    if success {
        return Ok(());
    }
    let mut message = operation.to_owned();
    message.append(" failed: ");
    message.append(trim(stderr));
    message.append(". faultline-engine does not replace an existing root qdisc");
    Err(message)
}

} // verus!
