//! Reading the argument area of a message, driven by its type tags.

use vstd::prelude::*;

use crate::error::Error;
use crate::maybeskipcomma::{effective_tags, MaybeSkipComma};
use crate::oscarg::OscArg;
use crate::de::osc_reader::{parse_blob, parse_i32, parse_str, parse_u32, read_0term_bytes};
use crate::wire::{dec_arg, dec_str0};

verus! {

/// Walks the arguments of one message: it owns the type-tag cursor and
/// reads one argument from the byte window for each tag byte.
pub struct ArgVisitor {
    arg_types: MaybeSkipComma,
}

impl ArgVisitor {
    /// The tag bytes whose arguments have not been read yet.
    pub closed spec fn remaining(&self) -> Seq<u8> {
        self.arg_types.remaining()
    }

    pub closed spec fn wf(&self) -> bool {
        self.arg_types.wf()
    }

    /// Reads the type-tag string at `pos` and returns the visitor
    /// together with the position of the first argument.
    pub fn new(bytes: &[u8], pos: usize, end: usize) -> (r: Result<(ArgVisitor, usize), Error>)
        requires
            pos <= end <= bytes@.len(),
        ensures
            match r {
                Ok((av, np)) => av.wf() && pos + 4 <= np <= end && (dec_str0(
                    bytes@,
                    pos as int,
                    end as int,
                ) matches Ok(p) && p.1 == np as int && av.remaining() == effective_tags(p.0)),
                Err(e) => dec_str0(bytes@, pos as int, end as int) == Err::<(Seq<u8>, int), _>(e),
            },
    {
        match read_0term_bytes(bytes, pos, end) {
            Ok((bs, np)) => Ok((ArgVisitor { arg_types: MaybeSkipComma::new(bs) }, np)),
            Err(e) => Err(e),
        }
    }

    /// Reads the single argument that `typecode` announces.
    pub fn parse_arg(bytes: &[u8], pos: usize, end: usize, typecode: u8) -> (r: Result<
        (OscArg, usize),
        Error,
    >)
        requires
            pos <= end <= bytes@.len(),
        ensures
            match r {
                Ok((a, np)) => dec_arg(bytes@, pos as int, end as int, typecode) == Ok::<_, Error>((
                    a@,
                    np as int,
                )) && pos + 4 <= np <= end,
                Err(e) => dec_arg(bytes@, pos as int, end as int, typecode) == Err::<
                    (crate::oscarg::ArgV, int),
                    _,
                >(e),
            },
    {
        if typecode == 105 {
            match parse_i32(bytes, pos, end) {
                Ok((v, np)) => Ok((OscArg::I32(v), np)),
                Err(e) => Err(e),
            }
        } else if typecode == 102 {
            match parse_u32(bytes, pos, end) {
                Ok((v, np)) => Ok((OscArg::F32(v), np)),
                Err(e) => Err(e),
            }
        } else if typecode == 115 {
            match parse_str(bytes, pos, end) {
                Ok((s, np)) => Ok((OscArg::Str(s), np)),
                Err(e) => Err(e),
            }
        } else if typecode == 98 {
            match parse_blob(bytes, pos, end) {
                Ok((bs, np)) => Ok((OscArg::Blob(bs), np)),
                Err(e) => Err(e),
            }
        } else {
            Err(Error::UnsupportedType)
        }
    }

    /// Pops the next tag and reads its argument, or reports the end of
    /// the argument sequence.
    pub fn parse_next(&mut self, bytes: &[u8], pos: usize, end: usize) -> (r: Result<
        (Option<OscArg>, usize),
        Error,
    >)
        requires
            old(self).wf(),
            pos <= end <= bytes@.len(),
        ensures
            final(self).wf(),
            match r {
                Ok((opt, np)) => match opt {
                    None => old(self).remaining().len() == 0 && np == pos && final(self).remaining()
                        == old(self).remaining(),
                    Some(a) => old(self).remaining().len() > 0 && dec_arg(
                        bytes@,
                        pos as int,
                        end as int,
                        old(self).remaining()[0],
                    ) == Ok::<_, Error>((a@, np as int)) && final(self).remaining() == old(
                        self,
                    ).remaining().drop_first() && pos + 4 <= np <= end,
                },
                Err(e) => old(self).remaining().len() > 0 && dec_arg(
                    bytes@,
                    pos as int,
                    end as int,
                    old(self).remaining()[0],
                ) == Err::<(crate::oscarg::ArgV, int), _>(e),
            },
    {
        match self.arg_types.next() {
            None => Ok((None, pos)),
            Some(t) => match Self::parse_arg(bytes, pos, end, t) {
                Ok((a, np)) => Ok((Some(a), np)),
                Err(e) => Err(e),
            },
        }
    }
}

} // verus!
