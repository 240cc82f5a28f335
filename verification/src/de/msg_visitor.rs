//! Reading the rest of a message payload, once its address is known.

use vstd::prelude::*;

use crate::error::Error;
use crate::oscarg::{args_view, OscArg, Packet, PacketV};
use crate::de::arg_visitor::ArgVisitor;
use crate::wire::{dec_args, dec_msg_rest};

verus! {

/// Reads a message's type-tag string and arguments, and assembles the
/// message around the address the packet reader already consumed.
pub struct MsgVisitor {
    address: String,
}

impl MsgVisitor {
    pub closed spec fn address_view(&self) -> Seq<char> {
        self.address@
    }

    pub fn new(address: String) -> (r: Self)
        ensures
            r.address_view() == address@,
    {
        MsgVisitor { address }
    }

    /// Parses the message payload in `[pos, end)`: an empty window means
    /// zero arguments; otherwise the type-tag string drives the argument
    /// reads, which must consume the window exactly.
    #[verifier::loop_isolation(false)]
    pub fn deserialize(self, bytes: &[u8], pos: usize, end: usize) -> (r: Result<Packet, Error>)
        requires
            pos <= end <= bytes@.len(),
        ensures
            match r {
                Ok(p) => dec_msg_rest(bytes@, pos as int, end as int, self.address_view())
                    == Ok::<_, Error>(p@),
                Err(e) => dec_msg_rest(bytes@, pos as int, end as int, self.address_view())
                    == Err::<PacketV, _>(e),
            },
    {
        if pos == end {
            let p = Packet::Message { address: self.address, args: Vec::new() };
            proof {
                assert(args_view(Seq::<OscArg>::empty()) =~= Seq::empty());
            }
            return Ok(p);
        }
        let (mut av, start) = match ArgVisitor::new(bytes, pos, end) {
            Ok(r) => r,
            Err(e) => { return Err(e) },
        };
        let ghost tags0 = av.remaining();
        let mut args: Vec<OscArg> = Vec::new();
        let mut cur = start;
        loop
            invariant
                av.wf(),
                pos <= cur <= end <= bytes@.len(),
                match dec_args(bytes@, cur as int, end as int, av.remaining()) {
                    Ok((rest, np)) => dec_args(bytes@, start as int, end as int, tags0)
                        == Ok::<_, Error>((args_view(args@) + rest, np)),
                    Err(e) => dec_args(bytes@, start as int, end as int, tags0) == Err::<
                        (Seq<crate::oscarg::ArgV>, int),
                        _,
                    >(e),
                },
            decreases av.remaining().len(),
        {
            let ghost args0 = args@;
            match av.parse_next(bytes, cur, end) {
                Ok((None, _)) => {
                    proof {
                        assert(args_view(args@) + Seq::empty() =~= args_view(args@));
                    }
                    if cur == end {
                        let p = Packet::Message { address: self.address, args };
                        return Ok(p);
                    } else {
                        return Err(Error::BadFormat);
                    }
                },
                Ok((Some(a), np)) => {
                    args.push(a);
                    proof {
                        assert(args_view(args@) =~= args_view(args0) + seq![a@]);
                        match dec_args(bytes@, np as int, end as int, av.remaining()) {
                            Ok((rest2, _)) => {
                                assert(args_view(args0) + (seq![a@] + rest2) =~= args_view(args@)
                                    + rest2);
                            },
                            Err(_) => {},
                        }
                    }
                    cur = np;
                },
                Err(e) => {
                    return Err(e);
                },
            }
        }
    }
}

} // verus!
