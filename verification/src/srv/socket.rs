//! What a server socket writes for each queued message.
use vstd::prelude::*;

use crate::pkt::Packet;
use crate::util::packet_buf::PacketBuf;

verus! {

/// A message queued for a socket: one packet, or a buffer of framed ones.
#[derive(Debug)]
pub enum PktMsg {
    Packet(Packet),
    PacketBuf(PacketBuf),
}

impl PktMsg {
    /// The packets the socket sends for the message, in order.
    pub open spec fn spec_frames(&self) -> Seq<Seq<u8>> {
        match self {
            PktMsg::Packet(p) => seq![p@],
            PktMsg::PacketBuf(b) => b@,
        }
    }

    /// The packets the socket sends for the message, in order.
    pub fn frames(&self) -> (r: Vec<Vec<u8>>)
        ensures
            r@.len() == self.spec_frames().len(),
            forall|i: int| 0 <= i < r@.len() ==> #[trigger] r@[i]@ == self.spec_frames()[i],
    {
        match self {
            PktMsg::Packet(p) => {
                let mut out: Vec<Vec<u8>> = Vec::new();
                out.push(vstd::slice::slice_to_vec(p.as_slice()));
                out
            },
            PktMsg::PacketBuf(b) => {
                let mut it = b.packets();
                let mut out: Vec<Vec<u8>> = Vec::new();
                let ghost all = b@;
                loop
                    invariant
                        all == b@,
                        out@.len() + it@.len() == all.len(),
                        it@ == all.skip(out@.len() as int),
                        forall|i: int| 0 <= i < out@.len() ==> #[trigger] out@[i]@ == all[i],
                    ensures
                        out@.len() == all.len(),
                        forall|i: int| 0 <= i < out@.len() ==> #[trigger] out@[i]@ == all[i],
                    decreases it@.len(),
                {
                    let ghost before = it@;
                    match it.next() {
                        Some(f) => {
                            proof {
                                assert(before[0] == all[out@.len() as int]);
                                assert(all.skip(out@.len() as int + 1) =~= before.drop_first());
                            }
                            out.push(vstd::slice::slice_to_vec(f));
                        },
                        None => {
                            break ;
                        },
                    }
                }
                out
            },
        }
    }
}

impl From<Packet> for PktMsg {
    fn from(pkt: Packet) -> (r: Self) {
        PktMsg::Packet(pkt)
    }
}

impl vstd::std_specs::convert::FromSpecImpl<Packet> for PktMsg {
    open spec fn obeys_from_spec() -> bool {
        true
    }

    open spec fn from_spec(v: Packet) -> PktMsg {
        PktMsg::Packet(v)
    }
}

impl From<PacketBuf> for PktMsg {
    fn from(pkt: PacketBuf) -> (r: Self) {
        PktMsg::PacketBuf(pkt)
    }
}

impl vstd::std_specs::convert::FromSpecImpl<PacketBuf> for PktMsg {
    open spec fn obeys_from_spec() -> bool {
        true
    }

    open spec fn from_spec(v: PacketBuf) -> PktMsg {
        PktMsg::PacketBuf(v)
    }
}

} // verus!
