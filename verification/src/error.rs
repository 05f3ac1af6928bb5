//! What can go wrong, and how several failures are told as one.

use vstd::prelude::*;
use vstd::string::StringExecFns;

verus! {

/// The kinds of failure.
#[derive(Copy, Clone, Debug, PartialEq, Eq, Structural)]
pub enum ErrorKind {
    /// A snapshot holds bytes that are no value of the expected type, or says
    /// of itself that it is longer than it is.
    CorruptData,
    /// An asset is missing, or the asset index cannot be read.
    Assets,
}

/// A failure: its kind, and one message for each thing that went wrong.
#[derive(Clone, Debug)]
pub struct Error {
    kind: ErrorKind,
    messages: Vec<String>,
}

impl Error {
    /// The kind of the failure.
    pub closed spec fn spec_kind(&self) -> ErrorKind {
        self.kind
    }

    /// The messages, oldest first.
    pub closed spec fn texts(&self) -> Seq<Seq<char>> {
        Seq::new(self.messages@.len(), |i: int| self.messages@[i]@)
    }

    /// A failure of the given kind with one message.
    pub fn new(kind: ErrorKind, message: &str) -> (error: Error)
        ensures
            error.spec_kind() == kind,
            error.texts() == seq![message@],
    {
        let mut messages: Vec<String> = Vec::new();
        messages.push(message.to_owned());
        let error = Error { kind, messages };
        assert(error.texts() =~= seq![message@]);
        error
    }

    /// A snapshot that cannot be read.
    pub fn corrupt_data(message: &str) -> (error: Error)
        ensures
            error.spec_kind() == ErrorKind::CorruptData,
            error.texts() == seq![message@],
    {
        Error::new(ErrorKind::CorruptData, message)
    }

    /// An asset that cannot be had.
    pub fn assets(message: &str) -> (error: Error)
        ensures
            error.spec_kind() == ErrorKind::Assets,
            error.texts() == seq![message@],
    {
        Error::new(ErrorKind::Assets, message)
    }

    /// The kind of the failure.
    pub fn kind(&self) -> (kind: ErrorKind)
        ensures
            kind == self.spec_kind(),
    {
        self.kind
    }

    /// The number of messages.
    pub fn count(&self) -> (n: usize)
        ensures
            n == self.texts().len(),
    {
        self.messages.len()
    }

    /// Message `i`, oldest first.
    pub fn message(&self, i: usize) -> (text: &str)
        requires
            i < self.texts().len(),
        ensures
            text@ == self.texts()[i as int],
    {
        self.messages[i].as_str()
    }

    /// Takes the messages of `other` in, after those that are there. The kind
    /// stays that of the first failure.
    pub fn merge(&mut self, other: Error)
        ensures
            final(self).spec_kind() == old(self).spec_kind(),
            final(self).texts() == old(self).texts() + other.texts(),
    {
        let mut other = other;
        let ghost added = other.texts();
        self.messages.append(&mut other.messages);
        assert(self.texts() =~= old(self).texts() + added);
    }

    /// All messages, one to a line.
    pub fn report(&self) -> (text: String)
        ensures
            text@ == lines_text(self.texts(), self.texts().len()),
    {
        let mut text = String::new();
        let mut i: usize = 0;
        while i < self.messages.len()
            invariant
                i <= self.messages.len(),
                text@ == lines_text(self.texts(), i as nat),
            decreases self.messages.len() - i,
        {
            text.append(self.messages[i].as_str());
            text.append("\n");
            i = i + 1;
            assert(text@ =~= lines_text(self.texts(), i as nat));
        }
        text
    }
}

/// The first `n` lines, each closed by a line feed.
pub open spec fn lines_text(lines: Seq<Seq<char>>, n: nat) -> Seq<char>
    decreases n,
{
    if n == 0 {
        Seq::empty()
    } else {
        lines_text(lines, (n - 1) as nat) + lines[n - 1] + "\n"@
    }
}

} // verus!
