//! A buffer of length-framed messages.
use vstd::prelude::*;
use vstd::bytes::*;
use vstd::slice::slice_subrange;

use crate::opcode::HasOpCode;
use crate::pkt::{encode_message, spec_message_bytes};
use crate::proto::EncodePacket;
use crate::reader::le_u16;
use crate::writer::{le16, PacketWriter};
use crate::error::Error;
use crate::PacketResult;

verus! {

broadcast use vstd::seq_lib::group_seq_properties;

/// The frames of `s`: each a `u16` length followed by that many bytes;
/// `None` when `s` does not split into whole frames.
pub open spec fn frames(s: Seq<u8>) -> Option<Seq<Seq<u8>>>
    decreases s.len(),
{
    if s.len() == 0 {
        Some(Seq::empty())
    } else if s.len() < 2 {
        None
    } else if s.len() < 2 + le_u16(s) {
        None
    } else {
        match frames(s.skip(2 + le_u16(s))) {
            Some(fs) => Some(seq![s.subrange(2, 2 + le_u16(s))] + fs),
            None => None,
        }
    }
}

/// One more frame at the end of a framed buffer.
pub proof fn lemma_frames_append(s: Seq<u8>, m: Seq<u8>)
    requires
        frames(s) is Some,
        m.len() <= u16::MAX,
    ensures
        frames(s + (le16(m.len() as u16) + m)) == Some(frames(s)->Some_0.push(m)),
    decreases s.len(),
{
    lemma_auto_spec_u16_to_from_le_bytes();
    let f = le16(m.len() as u16) + m;
    assert(f.take(2) =~= le16(m.len() as u16));
    assert(le_u16(f) == m.len());
    if s.len() == 0 {
        assert(s + f =~= f);
        assert(f.skip(2 + m.len() as int) =~= Seq::<u8>::empty());
        assert(f.subrange(2, 2 + m.len() as int) =~= m);
        assert(seq![m] + Seq::<Seq<u8>>::empty() =~= Seq::<Seq<u8>>::empty().push(m));
    } else {
        let n = le_u16(s);
        assert((s + f).take(2) =~= s.take(2));
        lemma_frames_append(s.skip(2 + n), m);
        assert((s + f).skip(2 + n) =~= s.skip(2 + n) + f);
        assert((s + f).subrange(2, 2 + n) =~= s.subrange(2, 2 + n));
        let fs = frames(s.skip(2 + n))->Some_0;
        assert(seq![s.subrange(2, 2 + n)] + fs.push(m) =~= (seq![s.subrange(2, 2 + n)] + fs).push(
            m,
        ));
    }
}

/// Buffer of messages, each framed by its length, that can be walked back
/// frame by frame.
#[derive(Debug)]
pub struct PacketBuf {
    buf: Vec<u8>,
}

impl View for PacketBuf {
    type V = Seq<Seq<u8>>;

    closed spec fn view(&self) -> Seq<Seq<u8>> {
        frames(self.buf@)->Some_0
    }
}

impl PacketBuf {
    #[verifier::type_invariant]
    spec fn inv(self) -> bool {
        frames(self.buf@) is Some
    }

    /// An empty buffer.
    pub fn new() -> (r: Self)
        ensures
            r@ == Seq::<Seq<u8>>::empty(),
    {
        PacketBuf { buf: Vec::new() }
    }

    /// An empty buffer with room for `cap` bytes.
    pub fn with_capacity(cap: usize) -> (r: Self)
        ensures
            r@ == Seq::<Seq<u8>>::empty(),
    {
        PacketBuf { buf: Vec::with_capacity(cap) }
    }

    /// Appends the message holding `pkt`, framed by its length. A message
    /// longer than a `u16` length can frame fails with `OutOfCapacity` and
    /// leaves the buffer as it was.
    pub fn encode<T: EncodePacket + HasOpCode>(&mut self, pkt: &T) -> (r: PacketResult<()>)
        ensures
            spec_message_bytes::<T>(pkt.deep_view()).len() <= u16::MAX ==> {
                &&& r is Ok
                &&& final(self)@ == old(self)@.push(spec_message_bytes::<T>(pkt.deep_view()))
            },
            spec_message_bytes::<T>(pkt.deep_view()).len() > u16::MAX ==> {
                &&& r matches Err(Error::OutOfCapacity)
                &&& final(self)@ == old(self)@
            },
    {
        proof {
            use_type_invariant(&*self);
        }
        let mut pw = PacketWriter::default();
        let res = encode_message(pkt, &mut pw);
        if res.is_err() {
            return res;
        }
        let mut msg = pw.into_inner();
        let len = msg.len();
        if len > 0xffff {
            return Err(Error::OutOfCapacity);
        }
        let mut hdr = u16_to_le_bytes(len as u16);
        proof {
            lemma_frames_append(self.buf@, msg@);
            assert(self.buf@ + hdr@ + msg@ =~= self.buf@ + (hdr@ + msg@));
        }
        let mut buf: Vec<u8> = Vec::new();
        std::mem::swap(&mut buf, &mut self.buf);
        buf.append(&mut hdr);
        buf.append(&mut msg);
        self.buf = buf;
        Ok(())
    }

    /// Walks the frames from the first.
    pub fn packets(&self) -> (r: PacketIter<'_>)
        ensures
            r@ == self@,
    {
        proof {
            use_type_invariant(self);
            assert(self.buf@.skip(0) =~= self.buf@);
        }
        PacketIter { buf: self.buf.as_slice(), ix: 0 }
    }

    /// Drops all frames.
    pub fn clear(&mut self)
        ensures
            final(self)@ == Seq::<Seq<u8>>::empty(),
    {
        let mut buf: Vec<u8> = Vec::new();
        std::mem::swap(&mut buf, &mut self.buf);
        buf.truncate(0);
        self.buf = buf;
    }
}

/// Walk over the frames of a `PacketBuf`.
pub struct PacketIter<'a> {
    buf: &'a [u8],
    ix: usize,
}

impl<'a> View for PacketIter<'a> {
    type V = Seq<Seq<u8>>;

    /// The frames not yet walked.
    closed spec fn view(&self) -> Seq<Seq<u8>> {
        frames(self.buf@.skip(self.ix as int))->Some_0
    }
}

impl<'a> PacketIter<'a> {
    #[verifier::type_invariant]
    spec fn inv(self) -> bool {
        &&& self.ix <= self.buf@.len()
        &&& frames(self.buf@.skip(self.ix as int)) is Some
    }

    /// The next frame, if any.
    pub fn next(&mut self) -> (r: Option<&'a [u8]>)
        ensures
            old(self)@.len() == 0 ==> r is None && final(self)@ == old(self)@,
            old(self)@.len() > 0 ==> (r matches Some(f) && f@ == old(self)@[0]) && final(self)@
                == old(self)@.drop_first(),
    {
        proof {
            use_type_invariant(&*self);
        }
        if self.ix < self.buf.len() {
            let ix = self.ix;
            let ghost s = self.buf@.skip(ix as int);
            let hdr = slice_subrange(self.buf, ix, ix + 2);
            proof {
                assert(hdr@ =~= s.take(2));
            }
            let ln = u16_from_le_bytes(hdr) as usize;
            proof {
                assert(self.buf@.skip(ix + 2 + ln) =~= s.skip(2 + ln));
                assert(self.buf@.subrange(ix + 2, ix + 2 + ln) =~= s.subrange(2, 2 + ln));
                let fs = frames(s.skip(2 + ln))->Some_0;
                assert((seq![s.subrange(2, 2 + ln)] + fs).drop_first() =~= fs);
            }
            self.ix = ix + 2 + ln;
            Some(slice_subrange(self.buf, ix + 2, self.ix))
        } else {
            proof {
                assert(self.buf@.skip(self.ix as int) =~= Seq::<u8>::empty());
            }
            None
        }
    }
}

} // verus!
