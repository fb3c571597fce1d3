//! The change log of one reconciliation pass.

use crate::text::{join_strings, join_with};
use vstd::prelude::*;

verus! {

/// Collects the lines written during one pass and remembers whether any of
/// them reports a change worth a notification.
#[derive(Debug)]
pub struct MuxWriter {
    pub buf: Vec<String>,
    pub should_notify: bool,
}

impl MuxWriter {
    /// The lines written so far, oldest first.
    pub open spec fn lines(&self) -> Seq<Seq<char>> {
        self.buf.deep_view()
    }

    /// An empty log that is not notable.
    pub fn new() -> (w: Self)
        ensures
            w.lines() == Seq::<Seq<char>>::empty(),
            !w.should_notify,
    {
        Self { buf: Vec::new(), should_notify: false }
    }

    /// Marks the log as notable; the lines stay as they are.
    pub fn mark(&mut self)
        ensures
            final(self).should_notify,
            final(self).lines() == old(self).lines(),
    {
        self.should_notify = true;
    }

    /// Appends one line; whether the log is notable stays as it is.
    pub fn write(&mut self, data: String)
        ensures
            final(self).lines() == old(self).lines().push(data@),
            final(self).should_notify == old(self).should_notify,
    {
        self.buf.push(data);
    }

    /// Hands out the lines, joined by line feeds, and whether the log was
    /// notable, and leaves the log as new.
    pub fn drain(&mut self) -> (out: (String, bool))
        ensures
            out.0@ == join_with(old(self).lines(), seq!['\n']),
            out.1 == old(self).should_notify,
            final(self).lines() == Seq::<Seq<char>>::empty(),
            !final(self).should_notify,
    {
        proof {
            reveal_strlit("\n");
            assert("\n"@ == seq!['\n']);
        }
        let result = join_strings(&self.buf, "\n");
        let should_notify = self.should_notify;
        self.buf.clear();
        self.should_notify = false;
        (result, should_notify)
    }
}

} // verus!
