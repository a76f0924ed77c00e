//! An owned string that can be sliced in place from the start.

use vstd::prelude::*;
use vstd::string::StringSliceAdditionalSpecFns;
use vstd::utf8::*;

use crate::text::str_from;

verus! {

/// An owned string whose start can be moved forward without copying.
pub struct OffsetString {
    inner: String,
    offset: usize,
}

impl OffsetString {
    /// The bytes of the whole string.
    pub closed spec fn whole(&self) -> Seq<u8> {
        encode_utf8(self.inner@)
    }

    /// Where the visible text starts.
    pub closed spec fn spec_offset(&self) -> int {
        self.offset as int
    }

    /// The original string.
    pub closed spec fn spec_original(&self) -> String {
        self.inner
    }

    /// The offset lies on a character boundary.
    pub open spec fn wf(&self) -> bool {
        is_char_boundary(self.whole(), self.spec_offset())
    }

    /// Creates an `OffsetString` that shows `inner` from byte `offset` on.
    pub fn new(inner: String, offset: usize) -> (r: Self)
        requires
            is_char_boundary(encode_utf8(inner@), offset as int),
        ensures
            r.wf(),
            r.spec_original() == inner,
            r.spec_offset() == offset,
    {
        Self { inner, offset }
    }

    /// Returns the visible text.
    pub fn as_str(&self) -> (r: &str)
        requires
            self.wf(),
        ensures
            r.spec_bytes() == self.whole().subrange(self.spec_offset(), self.whole().len() as int),
    {
        str_from(self.inner.as_str(), self.offset)
    }

    /// Moves the start forward by `inc` bytes.
    pub fn inc_offset(&mut self, inc: usize)
        requires
            old(self).spec_offset() + inc <= usize::MAX,
            is_char_boundary(old(self).whole(), old(self).spec_offset() + inc),
        ensures
            final(self).wf(),
            final(self).spec_original() == old(self).spec_original(),
            final(self).spec_offset() == old(self).spec_offset() + inc,
    {
        self.offset = self.offset + inc;
    }

    /// Returns the original string.
    pub fn original(self) -> (r: String)
        ensures
            r == self.spec_original(),
    {
        self.inner
    }
}

} // verus!
