//! Collecting the two halves of a time tag.

use vstd::prelude::*;

use crate::error::Error;
use crate::oscarg::TimeTag;

verus! {

/// Records the two `u32`s of a time tag as a data-binding layer hands
/// them over one by one. Fewer or more than two is a format error.
pub struct TimetagSer {
    n_parsed: u8,
    sec: u32,
    frac: u32,
}

impl TimetagSer {
    /// How many halves have been recorded so far.
    pub closed spec fn count(&self) -> int {
        self.n_parsed as int
    }

    pub closed spec fn sec_spec(&self) -> u32 {
        self.sec
    }

    pub closed spec fn frac_spec(&self) -> u32 {
        self.frac
    }

    pub fn new() -> (r: Self)
        ensures
            r.count() == 0,
    {
        TimetagSer { n_parsed: 0, sec: 0, frac: 0 }
    }

    /// Records one half: the seconds first, then the fraction. A third
    /// value is refused.
    pub fn serialize_u32(&mut self, value: u32) -> (r: Result<(), Error>)
        ensures
            match r {
                Ok(()) => old(self).count() < 2 && final(self).count() == old(self).count() + 1 && (
                if old(self).count() == 0 {
                    final(self).sec_spec() == value && final(self).frac_spec() == old(
                        self,
                    ).frac_spec()
                } else {
                    final(self).sec_spec() == old(self).sec_spec() && final(self).frac_spec()
                        == value
                }),
                Err(e) => old(self).count() >= 2 && e == Error::BadFormat && *final(self) == *old(self),
            },
    {
        if self.n_parsed == 0 {
            self.sec = value;
            self.n_parsed = 1;
            Ok(())
        } else if self.n_parsed == 1 {
            self.frac = value;
            self.n_parsed = 2;
            Ok(())
        } else {
            Err(Error::BadFormat)
        }
    }

    /// Closes the tag: exactly two recorded values make a time tag.
    pub fn finish(self) -> (r: Result<TimeTag, Error>)
        ensures
            match r {
                Ok(t) => self.count() == 2 && t.sec == self.sec_spec() && t.frac
                    == self.frac_spec(),
                Err(e) => self.count() != 2 && e == Error::BadFormat,
            },
    {
        if self.n_parsed != 2 {
            return Err(Error::BadFormat);
        }
        Ok(TimeTag { sec: self.sec, frac: self.frac })
    }
}

} // verus!
