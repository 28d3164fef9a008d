//! Commands that are run without a shell, and what came of them.

use vstd::prelude::*;
use vstd::string::*;
use crate::text::{push_text, texts};

verus! {

/// A program and its arguments.
#[derive(Clone, Debug, PartialEq, Eq)]
pub struct Invocation {
    pub program: String,
    pub args: Vec<String>,
}

/// A program and its arguments as values.
pub struct Call {
    pub program: Seq<char>,
    pub args: Seq<Seq<char>>,
}

impl View for Invocation {
    type V = Call;

    open spec fn view(&self) -> Call {
        Call { program: self.program@, args: texts(self.args@) }
    }
}

impl Invocation {
    pub fn new(program: &str) -> (r: Invocation)
        ensures
            r@ == (Call { program: program@, args: Seq::empty() }),
    {
        let args: Vec<String> = Vec::new();
        assert(texts(args@) =~= Seq::<Seq<char>>::empty());
        Invocation { program: program.to_owned(), args }
    }

    /// Adds an argument.
    pub fn arg(&mut self, argument: &str)
        ensures
            final(self)@.program == old(self)@.program,
            final(self)@.args == old(self)@.args.push(argument@),
    {
        push_text(&mut self.args, argument);
    }

    /// Adds arguments.
    pub fn args(&mut self, arguments: &Vec<String>)
        ensures
            final(self)@.program == old(self)@.program,
            final(self)@.args == old(self)@.args + texts(arguments@),
    {
        let ghost before = self@;
        let ghost added = texts(arguments@);
        let mut index: usize = 0;
        assert(before.args + added.take(0) =~= before.args);
        while index < arguments.len()
            invariant
                index <= arguments@.len(),
                added == texts(arguments@),
                self@.program == before.program,
                self@.args == before.args + added.take(index as int),
            decreases arguments@.len() - index,
        {
            assert(added[index as int] == arguments@[index as int]@);
            self.arg(arguments[index].as_str());
            assert(before.args + added.take(index + 1) =~= (before.args + added.take(
                index as int,
            )).push(added[index as int]));
            index += 1;
        }
        assert(added.take(added.len() as int) =~= added);
    }
}

/// How a command ended.
#[derive(Clone, Debug, PartialEq, Eq)]
pub struct ExitReport {
    pub success: bool,
    /// The exit status in words.
    pub status: String,
}

/// How a command ended, and what it wrote.
#[derive(Clone, Debug, PartialEq, Eq)]
pub struct ProcessOutput {
    pub exit: ExitReport,
    pub stdout: String,
    pub stderr: String,
}

/// Why something could not be done; where the system refused it, with its
/// words.
#[derive(Clone, Debug, PartialEq, Eq)]
pub struct Failure {
    pub message: String,
    pub cause: Option<String>,
}

/// A failure as a value.
pub struct Reason {
    pub message: Seq<char>,
    pub cause: Option<Seq<char>>,
}

impl View for Failure {
    type V = Reason;

    open spec fn view(&self) -> Reason {
        Reason { message: self.message@, cause: crate::text::optional_text(self.cause) }
    }
}

} // verus!
