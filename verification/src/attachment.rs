//! How the classifier is attached, and who owns the qdisc it hangs on.

use vstd::prelude::*;
use vstd::string::*;
use crate::text::{push_text, texts};

verus! {

/// Whether a kernel attaches programs without a qdisc: from 6.6 on.
pub open spec fn attaches_without_qdisc(major: u8, minor: u8) -> bool {
    major > 6 || (major == 6 && minor >= 6)
}

/// Whether a kernel attaches programs without a qdisc.
pub fn uses_tcx(major: u8, minor: u8) -> (r: bool)
    ensures
        r == attaches_without_qdisc(major, minor),
{
    major > 6 || (major == 6 && minor >= 6)
}

/// What adding the qdisc answered.
#[derive(Clone, Debug, PartialEq, Eq)]
pub enum AddOutcome {
    Added,
    /// Somebody else had put one there before.
    Exists,
    Failed(String),
}

/// A qdisc that this session added and has to take off again.
#[derive(Clone, Debug, PartialEq, Eq)]
pub struct ClsactGuard {
    pub interface: String,
}

impl ClsactGuard {
    /// Takes ownership of a qdisc that was added, and never of one that was
    /// there before.
    pub fn install(interface: &str, outcome: AddOutcome) -> (r: Result<Option<ClsactGuard>, String>)
        ensures
            match (outcome, r) {
                (AddOutcome::Added, Ok(Some(guard))) => guard.interface@ == interface@,
                (AddOutcome::Exists, Ok(None)) => true,
                (AddOutcome::Failed(cause), Err(message)) => message@
                    == "installing the clsact qdisc: "@ + cause@,
                _ => false,
            },
    {
        match outcome {
            AddOutcome::Added => Ok(Some(ClsactGuard { interface: interface.to_owned() })),
            AddOutcome::Exists => Ok(None),
            AddOutcome::Failed(cause) => {
                let mut message = "installing the clsact qdisc: ".to_owned();
                message.append(cause.as_str());
                Err(message)
            },
        }
    }

    /// The arguments of `tc` that take the qdisc off.
    pub fn remove_args(&self) -> (r: Vec<String>)
        ensures
            texts(r@) == seq!["qdisc"@, "del"@, "dev"@, self.interface@, "clsact"@],
    {
        let mut args: Vec<String> = Vec::new();
        assert(texts(args@) =~= Seq::<Seq<char>>::empty());
        push_text(&mut args, "qdisc");
        push_text(&mut args, "del");
        push_text(&mut args, "dev");
        push_text(&mut args, self.interface.as_str());
        push_text(&mut args, "clsact");
        assert(texts(args@) =~= seq!["qdisc"@, "del"@, "dev"@, self.interface@, "clsact"@]);
        args
    }
}

/// The arguments of `tc` that list the filters of one direction.
pub fn filter_args(interface: &str, direction: &str) -> (r: Vec<String>)
    ensures
        texts(r@) == seq!["filter"@, "show"@, "dev"@, interface@, direction@],
{
    let mut args: Vec<String> = Vec::new();
    assert(texts(args@) =~= Seq::<Seq<char>>::empty());
    push_text(&mut args, "filter");
    push_text(&mut args, "show");
    push_text(&mut args, "dev");
    push_text(&mut args, interface);
    push_text(&mut args, direction);
    assert(texts(args@) =~= seq!["filter"@, "show"@, "dev"@, interface@, direction@]);
    args
}

/// The ASCII white space bytes: space, tab, line feed, form feed and carriage
/// return.
pub open spec fn ascii_blank(byte: u8) -> bool {
    byte == 0x20 || byte == 0x09 || byte == 0x0a || byte == 0x0c || byte == 0x0d
}

/// Whether a filter listing shows no filter.
pub open spec fn lists_nothing(output: Seq<u8>) -> bool {
    forall|i: int| 0 <= i < output.len() ==> ascii_blank(#[trigger] output[i])
}

/// What listing the filters of one direction answered: its output, or why it
/// failed.
#[derive(Clone, Debug, PartialEq, Eq)]
pub struct Listing {
    pub success: bool,
    pub stdout: Vec<u8>,
}

/// What becomes of an owned qdisc when the session ends.
#[derive(Clone, Copy, Debug, PartialEq, Eq, Structural)]
pub enum Removal {
    Remove,
    /// Others hung filters on it in the meantime.
    OthersRemain,
    /// Whether others did could not be found out.
    Unknown,
}

/// An owned qdisc is taken off only when both directions are known to hold no
/// filter. A direction that could not be listed, or that lists a filter,
/// settles it before the next one is looked at.
pub open spec fn removal(ingress: Listing, egress: Listing) -> Removal {
    if !ingress.success {
        Removal::Unknown
    } else if !lists_nothing(ingress.stdout@) {
        Removal::OthersRemain
    } else if !egress.success {
        Removal::Unknown
    } else if !lists_nothing(egress.stdout@) {
        Removal::OthersRemain
    } else {
        Removal::Remove
    }
}

fn shows_no_filter(output: &Vec<u8>) -> (r: bool)
    ensures
        r == lists_nothing(output@),
{
    let mut index: usize = 0;
    while index < output.len()
        invariant
            index <= output@.len(),
            forall|i: int| 0 <= i < index ==> ascii_blank(#[trigger] output@[i]),
        decreases output@.len() - index,
    {
        let byte: u8 = output[index];
        if !(byte == 0x20 || byte == 0x09 || byte == 0x0a || byte == 0x0c || byte == 0x0d) {
            assert(!ascii_blank(output@[index as int]));
            return false;
        }
        index += 1;
    }
    true
}

/// Decides what becomes of an owned qdisc.
pub fn decide_removal(ingress: &Listing, egress: &Listing) -> (r: Removal)
    ensures
        r == removal(*ingress, *egress),
{
    if !ingress.success {
        Removal::Unknown
    } else if !shows_no_filter(&ingress.stdout) {
        Removal::OthersRemain
    } else if !egress.success {
        Removal::Unknown
    } else if !shows_no_filter(&egress.stdout) {
        Removal::OthersRemain
    } else {
        Removal::Remove
    }
}

/// A filter that others added is never taken off with the qdisc.
pub proof fn filters_of_others_survive(ingress: Listing, egress: Listing)
    ensures
        removal(ingress, egress) == Removal::Remove ==> lists_nothing(ingress.stdout@)
            && lists_nothing(egress.stdout@) && ingress.success && egress.success,
{
}

} // verus!
