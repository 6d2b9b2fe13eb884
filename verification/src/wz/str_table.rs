//! Tables between strings and the offsets where they were written, so that a
//! string repeated in an image is written once and referred to after.
use vstd::prelude::*;

use std::collections::HashMap;
use std::rc::Rc;

use vstd::hash_map::StringHashMap;

verus! {

broadcast use vstd::std_specs::hash::group_hash_axioms;

/// Shared string.
pub type RcStr = Rc<str>;

/// Offset of a string in a file.
pub type Offset = u32;

/// `Rc::clone`: another pointer to the same string.
#[verifier::external_body]
fn rc_str_clone(s: &RcStr) -> (r: RcStr)
    ensures
        r@ == s@,
{
    s.clone()
}

/// Offsets of the strings written so far, by string.
pub struct StrOffsetTable(StringHashMap<Offset>);

impl View for StrOffsetTable {
    type V = Map<Seq<char>, Offset>;

    closed spec fn view(&self) -> Map<Seq<char>, Offset> {
        self.0@
    }
}

impl Default for StrOffsetTable {
    fn default() -> (r: Self)
        ensures
            r@ == Map::<Seq<char>, Offset>::empty(),
    {
        StrOffsetTable(StringHashMap::new())
    }
}

impl StrOffsetTable {
    /// The offset recorded for `s`.
    pub fn get(&self, s: &str) -> (r: Option<Offset>)
        ensures
            r == (if self@.contains_key(s@) {
                Some(self@[s@])
            } else {
                None::<Offset>
            }),
    {
        match self.0.get(s) {
            Some(o) => Some(*o),
            None => None,
        }
    }

    /// Records `offset` for `s`, replacing an earlier one; whether `s` was
    /// new.
    pub fn insert(&mut self, s: RcStr, offset: Offset) -> (r: bool)
        ensures
            final(self)@ == old(self)@.insert(s@, offset),
            r == !old(self)@.contains_key(s@),
    {
        let k: &str = &s;
        let was = self.0.contains_key(k);
        self.0.insert(k.to_owned(), offset);
        !was
    }
}

/// Where a string is written: in an image's body, or as a property's type
/// name; each has its own tags.
#[derive(Debug, Clone, Copy, PartialEq, Eq)]
pub enum StrKind {
    Img,
    Ty,
}

impl StrKind {
    /// Tag of a string written in full.
    pub open spec fn spec_inline_tag(self) -> u8 {
        match self {
            StrKind::Img => 0,
            StrKind::Ty => 0x73,
        }
    }

    /// Tag of a reference to a string written before.
    pub open spec fn spec_ref_tag(self) -> u8 {
        match self {
            StrKind::Img => 1,
            StrKind::Ty => 0x1B,
        }
    }

    /// Tag of a string written in full.
    pub fn inline_tag(&self) -> (r: u8)
        ensures
            r == self.spec_inline_tag(),
    {
        match self {
            StrKind::Img => 0,
            StrKind::Ty => 0x73,
        }
    }

    /// Tag of a reference to a string written before.
    pub fn ref_tag(&self) -> (r: u8)
        ensures
            r == self.spec_ref_tag(),
    {
        match self {
            StrKind::Img => 1,
            StrKind::Ty => 0x1B,
        }
    }

    /// What a tag read announces: `Some(true)` a reference, `Some(false)` a
    /// string in full, `None` no string at all.
    pub fn classify(&self, tag: u8) -> (r: Option<bool>)
        ensures
            r == (if tag == self.spec_ref_tag() {
                Some(true)
            } else if tag == self.spec_inline_tag() {
                Some(false)
            } else {
                None::<bool>
            }),
    {
        if tag == self.ref_tag() {
            Some(true)
        } else if tag == self.inline_tag() {
            Some(false)
        } else {
            None
        }
    }
}

/// How to write a string.
#[derive(Debug, Clone, Copy, PartialEq, Eq)]
pub enum StrWrite {
    /// The reference tag, then the offset where the string was written.
    Ref { tag: u8, offset: Offset },
    /// The inline tag, then the string in full.
    Inline { tag: u8 },
}

impl StrOffsetTable {
    /// Decides how to write `s` when the tag would stand at `pos`: a string
    /// written before is referred to; a new one is written in full and
    /// recorded at `pos`.
    pub fn plan_write(&mut self, kind: StrKind, s: &str, pos: Offset) -> (r: StrWrite)
        ensures
            old(self)@.contains_key(s@) ==> r == (StrWrite::Ref {
                tag: kind.spec_ref_tag(),
                offset: old(self)@[s@],
            }) && final(self)@ == old(self)@,
            !old(self)@.contains_key(s@) ==> r == (StrWrite::Inline {
                tag: kind.spec_inline_tag(),
            }) && final(self)@ == old(self)@.insert(s@, pos),
    {
        match self.get(s) {
            Some(offset) => StrWrite::Ref { tag: kind.ref_tag(), offset },
            None => {
                self.0.insert(s.to_owned(), pos);
                StrWrite::Inline { tag: kind.inline_tag() }
            },
        }
    }
}

/// Strings written so far, by offset.
#[derive(Debug)]
pub struct OffsetStrTable(HashMap<Offset, RcStr>);

impl View for OffsetStrTable {
    type V = Map<Offset, Seq<char>>;

    closed spec fn view(&self) -> Map<Offset, Seq<char>> {
        self.0@.map_values(|s: RcStr| s@)
    }
}

impl Default for OffsetStrTable {
    fn default() -> (r: Self)
        ensures
            r@ == Map::<Offset, Seq<char>>::empty(),
    {
        let r = OffsetStrTable(HashMap::new());
        assert(r@ =~= Map::<Offset, Seq<char>>::empty());
        r
    }
}

impl OffsetStrTable {
    /// The string recorded at `offset`.
    pub fn get(&self, offset: Offset) -> (r: Option<RcStr>)
        ensures
            match r {
                Some(s) => self@.contains_key(offset) && s@ == self@[offset],
                None => !self@.contains_key(offset),
            },
    {
        match self.0.get(&offset) {
            Some(s) => Some(rc_str_clone(s)),
            None => None,
        }
    }

    /// Records `s` at `offset`, replacing an earlier one; whether the offset
    /// was new.
    pub fn insert(&mut self, offset: Offset, s: RcStr) -> (r: bool)
        ensures
            final(self)@ == old(self)@.insert(offset, s@),
            r == !old(self)@.contains_key(offset),
    {
        let ghost s_view = s@;
        let prev = self.0.insert(offset, s);
        proof {
            assert(self@ =~= old(self)@.insert(offset, s_view));
        }
        prev.is_none()
    }
}

} // verus!
