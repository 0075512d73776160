//! The output sink abstraction and its in-memory realization.

use vstd::prelude::*;
use crate::render::RenderError;

verus! {

/// An abstract destination for rendered text.
///
/// A sink models its accepted output as a sequence of characters.  A sink
/// whose `infallible()` holds never refuses a write; the in-memory
/// [`StringWriter`] is such a sink, while a sink backed by a real stream is
/// free to report an [`RenderError::IOFailure`] at any write.
pub trait Sink {
    /// Everything the sink has accepted so far.
    spec fn content(&self) -> Seq<char>;

    /// Whether every write on this sink is guaranteed to succeed.
    spec fn infallible(&self) -> bool;

    /// Accept the text `data`.  On success the accepted content grows by
    /// exactly `data`; on failure nothing is promised about how much of
    /// `data` was taken.
    fn write_str(&mut self, data: &str) -> (r: Result<(), RenderError>)
        ensures
            r is Ok ==> final(self).content() == old(self).content() + data@,
            old(self).infallible() ==> r is Ok,
            final(self).infallible() == old(self).infallible(),
    ;

    /// Push accepted output to its final destination.  Flushing accepts no
    /// new content.
    fn flush(&mut self) -> (r: Result<(), RenderError>)
        ensures
            final(self).content() == old(self).content(),
            old(self).infallible() ==> r is Ok,
            final(self).infallible() == old(self).infallible(),
    ;
}

/// An in-memory sink that accumulates everything written to it in a
/// `String`.  Its writes always succeed.
pub struct StringWriter {
    string: String,
}

impl StringWriter {
    /// Create an empty `StringWriter`.
    pub fn new() -> (w: StringWriter)
        ensures
            w.content() == Seq::<char>::empty(),
            w.infallible(),
    {
        StringWriter { string: String::new() }
    }

    /// A reference to the accumulated `String`.
    pub fn as_string(&self) -> (s: &String)
        ensures
            s@ == self.content(),
    {
        &self.string
    }

    /// Give up the writer and keep the accumulated `String`.
    pub fn into_string(self) -> (s: String)
        ensures
            s@ == self.content(),
    {
        self.string
    }
}

impl Sink for StringWriter {
    closed spec fn content(&self) -> Seq<char> {
        self.string@
    }

    closed spec fn infallible(&self) -> bool {
        true
    }

    fn write_str(&mut self, data: &str) -> (r: Result<(), RenderError>) {
        self.string.append(data);
        Ok(())
    }

    fn flush(&mut self) -> (r: Result<(), RenderError>) {
        Ok(())
    }
}

} // verus!
