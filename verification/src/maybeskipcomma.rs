//! Cursor over the bytes of a type-tag string.

use vstd::prelude::*;

verus! {

/// The payload of a type-tag string with any leading comma removed.
///
/// OSC 1.0 recommends tolerating type-tag strings both with and without
/// the leading comma, so only the bytes after it drive argument parsing.
pub open spec fn effective_tags(tags: Seq<u8>) -> Seq<u8> {
    if tags.len() > 0 && tags[0] == 44u8 {
        tags.drop_first()
    } else {
        tags
    }
}

/// Cursor over a type-tag byte string that drops a leading comma, if one
/// is present, and yields every following byte verbatim.
pub struct MaybeSkipComma {
    tags: Vec<u8>,
    idx: usize,
    not_first: bool,
}

impl MaybeSkipComma {
    /// The tag bytes this cursor has not yet yielded.
    pub closed spec fn remaining(&self) -> Seq<u8> {
        if self.not_first {
            self.tags@.skip(self.idx as int)
        } else {
            effective_tags(self.tags@)
        }
    }

    pub closed spec fn wf(&self) -> bool {
        if self.not_first {
            self.idx <= self.tags@.len()
        } else {
            self.idx == 0
        }
    }

    pub fn new(tags: Vec<u8>) -> (r: Self)
        ensures
            r.wf(),
            r.remaining() == effective_tags(tags@),
    {
        MaybeSkipComma { tags, idx: 0, not_first: false }
    }

    /// Yields the next tag byte, or `None` once the tags are exhausted.
    pub fn next(&mut self) -> (r: Option<u8>)
        requires
            old(self).wf(),
        ensures
            final(self).wf(),
            old(self).remaining().len() == 0 ==> r is None && final(self).remaining() == old(self).remaining(),
            old(self).remaining().len() > 0 ==> r == Some(old(self).remaining()[0])
                && final(self).remaining() == old(self).remaining().drop_first(),
    {
        if !self.not_first {
            self.not_first = true;
            if self.idx < self.tags.len() && self.tags[self.idx] == 44u8 {
                self.idx = self.idx + 1;
            }
        }
        if self.idx < self.tags.len() {
            let b = self.tags[self.idx];
            self.idx = self.idx + 1;
            proof {
                assert(self.remaining() =~= old(self).remaining().drop_first());
            }
            Some(b)
        } else {
            proof {
                assert(self.remaining() =~= old(self).remaining());
            }
            None
        }
    }
}

} // verus!
