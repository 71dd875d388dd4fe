use vstd::prelude::*;

verus! {

/// A fully composed diagnostic, anchored to a source position.
#[derive(Debug)]
pub struct Message {
    /// Position (token offset into the source) the diagnostic is anchored to.
    pub position: usize,
    /// The complete human-readable message text.
    pub text: String,
}

impl Message {
    pub fn new(position: usize, text: String) -> (r: Message)
        ensures
            r.position == position,
            r.text@ == text@,
    {
        Message { position, text }
    }
}

/// The two failure kinds a parse step can propagate.
///
/// A *quiet* failure carries only a source position; the nearest
/// statement-sequencing loop wraps it into a generic "Unexpected token"
/// diagnostic.  A *loud* failure carries a fully formed diagnostic and is
/// passed through every enclosing layer unchanged.
#[derive(Debug)]
pub enum Failure {
    Quiet(usize),
    Loud(Message),
}

/// Holds when a failure is loud, anchored at `position`, with exactly `text`
/// as its message.
pub open spec fn loud_at(f: Failure, position: usize, text: Seq<char>) -> bool {
    match f {
        Failure::Loud(m) => m.position == position && m.text@ == text,
        Failure::Quiet(_) => false,
    }
}

} // verus!
