//! Walking a `/`-separated path one segment at a time.
use vstd::prelude::*;
use vstd::string::StringSliceAdditionalSpecFns;

verus! {

broadcast use vstd::utf8::encode_utf8_valid_utf8;

/// The path separator, `/`.
pub const DELIM: u8 = 0x2F;

/// Whether `split` is where the first separator of `b` stands, or `None`
/// when `b` has none.
pub open spec fn first_delim(b: Seq<u8>, split: Option<usize>) -> bool {
    match split {
        Some(k) => {
            &&& k < b.len()
            &&& b[k as int] == DELIM
            &&& forall|i: int| 0 <= i < k ==> b[i] != DELIM
        },
        None => forall|i: int| 0 <= i < b.len() ==> b[i] != DELIM,
    }
}

/// Position of the first separator in `s`.
fn find_delim(s: &str) -> (r: Option<usize>)
    ensures
        first_delim(s.spec_bytes(), r),
{
    let b = s.as_bytes();
    let mut i: usize = 0;
    while i < b.len()
        invariant
            b@ == s.spec_bytes(),
            0 <= i <= b@.len(),
            forall|j: int| 0 <= j < i ==> b@[j] != DELIM,
        decreases b@.len() - i,
    {
        if b[i] == DELIM {
            return Some(i);
        }
        i = i + 1;
    }
    None
}

/// A separator byte starts a character, and so does the byte after it.
proof fn lemma_delim_boundaries(b: Seq<u8>, k: int)
    requires
        vstd::utf8::valid_utf8(b),
        0 <= k < b.len(),
        b[k] == DELIM,
    ensures
        vstd::utf8::is_char_boundary(b, k),
        vstd::utf8::is_char_boundary(b.skip(k), 1),
{
    vstd::utf8::is_char_boundary_iff_not_is_continuation_byte(b, k);
    vstd::utf8::valid_utf8_split(b, k);
    assert(b.subrange(k, b.len() as int) =~= b.skip(k));
    let t = b.skip(k);
    if t.len() == 1 {
        vstd::utf8::is_char_boundary_start_end_of_seq(t);
    } else {
        vstd::utf8::is_char_boundary_iff_not_is_continuation_byte(t, 0);
        vstd::utf8::is_char_boundary_iff_not_is_continuation_byte(t, 1);
        vstd::utf8::valid_utf8_split(t, 0);
        assert(t[1] == b[k + 1]);
        reveal_with_fuel(vstd::utf8::is_char_boundary, 2);
        reveal_with_fuel(vstd::utf8::valid_utf8, 2);
    }
}

/// The segments of `b` that end in a separator, in order, and what follows
/// the last separator: `a/b/c` gives `a`, `b` and the remainder `c`.
pub open spec fn split_path(b: Seq<u8>) -> (Seq<Seq<u8>>, Seq<u8>)
    decreases b.len(),
{
    if b.len() == 0 {
        (Seq::empty(), Seq::empty())
    } else {
        let (segs, rest) = split_path(b.drop_first());
        if b[0] == DELIM {
            (seq![Seq::<u8>::empty()] + segs, rest)
        } else if segs.len() == 0 {
            (Seq::empty(), seq![b[0]] + rest)
        } else {
            (segs.update(0, seq![b[0]] + segs[0]), rest)
        }
    }
}

/// Without a separator, all of `b` is the remainder.
proof fn lemma_split_path_none(b: Seq<u8>)
    requires
        forall|i: int| 0 <= i < b.len() ==> b[i] != DELIM,
    ensures
        split_path(b) == (Seq::<Seq<u8>>::empty(), b),
    decreases b.len(),
{
    if b.len() > 0 {
        lemma_split_path_none(b.drop_first());
        assert(seq![b[0]] + b.drop_first() =~= b);
    }
}

/// The first segment ends at the first separator `k`; the rest splits on.
proof fn lemma_split_path_first(b: Seq<u8>, k: int)
    requires
        0 <= k < b.len(),
        b[k] == DELIM,
        forall|i: int| 0 <= i < k ==> b[i] != DELIM,
    ensures
        split_path(b) == (
            seq![b.take(k)] + split_path(b.skip(k + 1)).0,
            split_path(b.skip(k + 1)).1,
        ),
    decreases k,
{
    let t = b.drop_first();
    if k == 0 {
        assert(t =~= b.skip(1));
        assert(b.take(0) =~= Seq::<u8>::empty());
    } else {
        lemma_split_path_first(t, k - 1);
        assert(t.skip(k) =~= b.skip(k + 1));
        let segs = split_path(t).0;
        assert(segs[0] == t.take(k - 1));
        assert(seq![b[0]] + t.take(k - 1) =~= b.take(k));
        assert(segs.update(0, b.take(k)) =~= seq![b.take(k)] + split_path(b.skip(k + 1)).0);
    }
}

/// Walks a path `a/b/c` segment by segment: `a`, then `b`; what follows the
/// last separator stays as the remainder.
pub struct PathTraverser<'a> {
    p: &'a str,
    next_split: Option<usize>,
}

impl<'a> PathTraverser<'a> {
    #[verifier::type_invariant]
    closed spec fn inv(self) -> bool {
        first_delim(self.p.spec_bytes(), self.next_split)
    }

    /// The bytes not yet walked.
    pub closed spec fn spec_rest(&self) -> Seq<u8> {
        self.p.spec_bytes()
    }

    /// Whether a segment is left: the walk stops for good once none was.
    pub closed spec fn spec_has_next(&self) -> bool {
        self.next_split is Some
    }

    /// A walk over `path`.
    pub fn new(path: &'a str) -> (r: Self)
        ensures
            r.spec_rest() == path.spec_bytes(),
            r.spec_has_next() == exists|i: int|
                0 <= i < path.spec_bytes().len() && path.spec_bytes()[i] == DELIM,
    {
        let next_split = find_delim(path);
        PathTraverser { next_split, p: path }
    }

    /// The next segment: the text before the next separator, which the walk
    /// then passes. Once the remainder holds no separator, `None` for good.
    pub fn next_segment(&mut self) -> (r: Option<&'a str>)
        ensures
            match r {
                Some(seg) => {
                    &&& old(self).spec_has_next()
                    &&& exists|k: int|
                        #![trigger old(self).spec_rest()[k]]
                        0 <= k < old(self).spec_rest().len() && old(self).spec_rest()[k] == DELIM
                            && (forall|i: int| 0 <= i < k ==> old(self).spec_rest()[i] != DELIM)
                            && seg.spec_bytes() == old(self).spec_rest().take(k)
                            && final(self).spec_rest() == old(self).spec_rest().skip(k + 1)
                },
                None => {
                    &&& !old(self).spec_has_next()
                    &&& *final(self) == *old(self)
                },
            },
            final(self).spec_has_next() == exists|i: int|
                0 <= i < final(self).spec_rest().len() && final(self).spec_rest()[i] == DELIM,
    {
        proof {
            use_type_invariant(&*self);
        }
        let split = self.next_split;
        match split {
            None => {
                assert(!(exists|i: int|
                    0 <= i < self.spec_rest().len() && self.spec_rest()[i] == DELIM));
                None
            },
            Some(next) => {
                let ghost b = self.p.spec_bytes();
                proof {
                    lemma_delim_boundaries(b, next as int);
                }
                let (path, tail) = self.p.split_at(next);
                proof {
                    assert(tail.spec_bytes() =~= b.skip(next as int));
                }
                let (_, rest) = tail.split_at(1);
                let split = find_delim(rest);
                proof {
                    assert(rest.spec_bytes() =~= b.skip(next + 1));
                    assert(path.spec_bytes() =~= b.take(next as int));
                    assert(b[next as int] == DELIM);
                }
                *self = PathTraverser { p: rest, next_split: split };
                proof {
                    assert(self.spec_rest() == b.skip(next + 1));
                    assert(old(self).spec_rest() == b);
                    assert(path.spec_bytes() == b.take(next as int));
                    assert(self.spec_rest().len() >= 0);
                    if let Some(k) = split {
                        assert(self.spec_rest()[k as int] == DELIM);
                    }
                }
                Some(path)
            },
        }
    }

    /// What is left of the path.
    pub fn remaining(&self) -> (r: &'a str)
        ensures
            r.spec_bytes() == self.spec_rest(),
    {
        self.p
    }

    /// All segments left, in order: the text before each separator of the
    /// remainder; what follows the last separator stays as the remainder.
    pub fn segments(&mut self) -> (r: Vec<&'a str>)
        ensures
            r@.map_values(|s: &'a str| s.spec_bytes()) == split_path(old(self).spec_rest()).0,
            final(self).spec_rest() == split_path(old(self).spec_rest()).1,
            !final(self).spec_has_next(),
    {
        let ghost orig = self.spec_rest();
        let mut out: Vec<&'a str> = Vec::new();
        loop
            invariant
                split_path(orig).0 == out@.map_values(|s: &'a str| s.spec_bytes()) + split_path(
                    self.spec_rest(),
                ).0,
                split_path(orig).1 == split_path(self.spec_rest()).1,
            ensures
                !self.spec_has_next(),
                split_path(orig).0 == out@.map_values(|s: &'a str| s.spec_bytes()) + split_path(
                    self.spec_rest(),
                ).0,
                split_path(orig).1 == split_path(self.spec_rest()).1,
            decreases self.spec_rest().len(),
        {
            let ghost before = self.spec_rest();
            let ghost out0 = out@;
            proof {
                use_type_invariant(&*self);
            }
            match self.next_segment() {
                Some(seg) => {
                    proof {
                        let k = choose|k: int|
                            #![trigger before[k]]
                            0 <= k < before.len() && before[k] == DELIM && (forall|i: int|
                                0 <= i < k ==> before[i] != DELIM) && seg.spec_bytes()
                                == before.take(k) && self.spec_rest() == before.skip(k + 1);
                        lemma_split_path_first(before, k);
                    }
                    out.push(seg);
                    proof {
                        assert(out@.map_values(|s: &'a str| s.spec_bytes()) =~= out0.map_values(
                            |s: &'a str| s.spec_bytes(),
                        ).push(seg.spec_bytes()));
                        assert(out@.map_values(|s: &'a str| s.spec_bytes()) + split_path(
                            self.spec_rest(),
                        ).0 =~= out0.map_values(|s: &'a str| s.spec_bytes()) + split_path(
                            before,
                        ).0);
                    }
                },
                None => {
                    break ;
                },
            }
        }
        proof {
            use_type_invariant(&*self);
            lemma_split_path_none(self.spec_rest());
            assert(split_path(orig).0 =~= out@.map_values(|s: &'a str| s.spec_bytes()));
        }
        out
    }
}

} // verus!
