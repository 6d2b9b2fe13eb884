//! The list of images that an archive stores in chunks, and the set it is
//! looked up in, by name without regard to ASCII case.
use vstd::prelude::*;

use crate::wz::crypto::string_push;

verus! {

/// `c` with an ASCII capital turned into its small letter.
pub open spec fn ascii_lower(c: char) -> char {
    if 'A' as u32 <= c as u32 && c as u32 <= 'Z' as u32 {
        ((c as u32) + 32) as char
    } else {
        c
    }
}

/// `s` with its ASCII capitals turned into small letters.
pub open spec fn ascii_lowercase(s: Seq<char>) -> Seq<char> {
    s.map_values(|c: char| ascii_lower(c))
}

/// `c` with `A` to `Z` turned into `a` to `z`.
fn char_to_ascii_lower(c: char) -> (r: char)
    ensures
        r == ascii_lower(c),
{
    if 'A' <= c && c <= 'Z' {
        ((c as u8) + 32) as char
    } else {
        c
    }
}

/// `s` with `A` to `Z` turned into `a` to `z`, every other character kept.
fn str_to_ascii_lowercase(s: &str) -> (r: String)
    ensures
        r@ == ascii_lowercase(s@),
{
    let mut out = String::new();
    for c in it: s.chars()
        invariant
            it.seq() == s@,
            out@ == ascii_lowercase(s@.take(it.index() as int)),
    {
        let ghost before = out@;
        string_push(&mut out, char_to_ascii_lower(c));
        proof {
            assert(s@.take(it.index() + 1) =~= s@.take(it.index() as int).push(c));
            assert(out@ =~= ascii_lowercase(s@.take(it.index() + 1)));
        }
    }
    proof {
        assert(s@.take(s@.len() as int) =~= s@);
    }
    out
}

/// Name of an image in the archive list.
#[derive(Debug, Clone)]
pub struct ArchiveImgEntry(pub String);

/// Names of the images that the archive stores in chunks.
#[derive(Debug)]
pub struct ArchiveImgList(pub Vec<ArchiveImgEntry>);

impl ArchiveImgList {
    /// The names, in order.
    pub open spec fn names(&self) -> Seq<Seq<char>> {
        self.0@.map_values(|e: ArchiveImgEntry| e.0@)
    }
}

/// Whether no name occurs twice in `s`.
pub open spec fn no_dups(s: Seq<Seq<char>>) -> bool {
    forall|i: int, j: int| 0 <= i < j < s.len() ==> s[i] != s[j]
}

/// Set of image names, kept in small letters.
#[derive(Debug)]
pub struct ListImgSet(Vec<String>);

impl View for ListImgSet {
    type V = Set<Seq<char>>;

    closed spec fn view(&self) -> Set<Seq<char>> {
        self.names().to_set()
    }
}

impl Default for ListImgSet {
    fn default() -> (r: Self)
        ensures
            r@ == Set::<Seq<char>>::empty(),
    {
        Self::new()
    }
}

impl ListImgSet {
    closed spec fn names(&self) -> Seq<Seq<char>> {
        self.0@.map_values(|s: String| s@)
    }

    #[verifier::type_invariant]
    closed spec fn inv(self) -> bool {
        &&& no_dups(self.names())
        &&& forall|i: int|
            0 <= i < self.names().len() ==> ascii_lowercase(#[trigger] self.names()[i])
                == self.names()[i]
    }

    /// An empty set.
    pub fn new() -> (r: Self)
        ensures
            r@ == Set::<Seq<char>>::empty(),
    {
        let r = ListImgSet(Vec::new());
        assert(r.names() =~= Seq::<Seq<char>>::empty());
        assert(r@ =~= Set::<Seq<char>>::empty());
        r
    }

    /// Position of `s` among the names.
    fn position(&self, s: &String) -> (r: Option<usize>)
        ensures
            match r {
                Some(i) => i < self.names().len() && self.names()[i as int] == s@,
                None => !self.names().contains(s@),
            },
    {
        let mut i: usize = 0;
        while i < self.0.len()
            invariant
                0 <= i <= self.0@.len(),
                forall|j: int| 0 <= j < i ==> self.names()[j] != s@,
            decreases self.0@.len() - i,
        {
            if self.0[i] == *s {
                return Some(i);
            }
            i = i + 1;
        }
        None
    }

    /// The names of `list`, in small letters.
    pub fn from_list(list: ArchiveImgList) -> (r: Self)
        ensures
            r@ == list.names().map_values(|n: Seq<char>| ascii_lowercase(n)).to_set(),
    {
        let mut set = ListImgSet::new();
        let ghost lowered = list.names().map_values(|n: Seq<char>| ascii_lowercase(n));
        let mut i: usize = 0;
        while i < list.0.len()
            invariant
                0 <= i <= list.0@.len(),
                lowered == list.names().map_values(|n: Seq<char>| ascii_lowercase(n)),
                set@ == lowered.take(i as int).to_set(),
            decreases list.0@.len() - i,
        {
            let low = str_to_ascii_lowercase(list.0[i].0.as_str());
            proof {
                use_type_invariant(&set);
                lemma_lowercase_idempotent(list.0@[i as int].0@);
                assert(low@ == lowered[i as int]);
                assert(lowered.take(i + 1) =~= lowered.take(i as int).push(low@));
                lowered.take(i as int).lemma_push_to_set_commute(low@);
            }
            set.add(low);
            i = i + 1;
        }
        proof {
            assert(lowered.take(list.0@.len() as int) =~= lowered);
        }
        set
    }

    /// Adds a name that is already in small letters.
    fn add(&mut self, s: String)
        requires
            ascii_lowercase(s@) == s@,
        ensures
            final(self)@ == old(self)@.insert(s@),
    {
        proof {
            use_type_invariant(&*self);
        }
        match self.position(&s) {
            Some(_) => {
                proof {
                    assert(self@.contains(s@));
                    assert(self@.insert(s@) =~= self@);
                }
            },
            None => {
                let ghost old_names = self.names();
                let mut v: Vec<String> = Vec::new();
                std::mem::swap(&mut v, &mut self.0);
                let ghost sv = s@;
                v.push(s);
                let ghost new_names = v@.map_values(|x: String| x@);
                proof {
                    assert(new_names =~= old_names.push(sv));
                    old_names.lemma_push_to_set_commute(sv);
                    assert(!old_names.contains(sv));
                }
                self.0 = v;
            },
        }
    }

    /// Whether `s` is in the set, in small letters.
    pub fn contains(&self, s: &str) -> (r: bool)
        ensures
            r == self@.contains(ascii_lowercase(s@)),
    {
        let low = str_to_ascii_lowercase(s);
        let p = self.position(&low);
        p.is_some()
    }

    /// The names as an archive list, each once.
    pub fn to_list(&self) -> (r: ArchiveImgList)
        ensures
            r.names().to_set() == self@,
            no_dups(r.names()),
    {
        proof {
            use_type_invariant(self);
        }
        let mut out: Vec<ArchiveImgEntry> = Vec::new();
        let mut i: usize = 0;
        while i < self.0.len()
            invariant
                0 <= i <= self.0@.len(),
                out@.map_values(|e: ArchiveImgEntry| e.0@) == self.names().take(i as int),
            decreases self.0@.len() - i,
        {
            let s = self.0[i].clone();
            let ghost prev = out@;
            out.push(ArchiveImgEntry(s));
            proof {
                assert(s@ == self.names()[i as int]);
                assert(out@ =~= prev.push(ArchiveImgEntry(s)));
                assert(out@.map_values(|e: ArchiveImgEntry| e.0@) =~= prev.map_values(
                    |e: ArchiveImgEntry| e.0@,
                ).push(s@));
                assert(self.names().take(i + 1) =~= self.names().take(i as int).push(
                    self.names()[i as int],
                ));
                assert(out@.map_values(|e: ArchiveImgEntry| e.0@) =~= self.names().take(i + 1));
            }
            i = i + 1;
        }
        let r = ArchiveImgList(out);
        proof {
            assert(r.names() =~= self.names());
        }
        r
    }
}

/// Lowering a character leaves no ASCII capital: a capital `A` to `Z` becomes
/// its small letter, 32 code points on (`S` becomes `s`), and every other
/// character stays as it is.
pub proof fn lemma_ascii_lower_char(c: char)
    ensures
        !(65 <= ascii_lower(c) as u32 && ascii_lower(c) as u32 <= 90),
        65 <= c as u32 && c as u32 <= 90 ==> ascii_lower(c) as u32 == c as u32 + 32
            && 97 <= ascii_lower(c) as u32 && ascii_lower(c) as u32 <= 122,
        !(65 <= c as u32 && c as u32 <= 90) ==> ascii_lower(c) == c,
{
    if 'A' as u32 <= c as u32 && c as u32 <= 'Z' as u32 {
        let d = ((c as u32) + 32) as char;
        assert(d as u32 == c as u32 + 32);
    }
}

/// Lowering a string keeps its length and leaves no ASCII capital in it;
/// each character is the one it was or, for a capital, its small letter.
pub proof fn lemma_ascii_lowercase_string(s: Seq<char>)
    ensures
        ascii_lowercase(s).len() == s.len(),
        forall|i: int|
            0 <= i < s.len() ==> !(65 <= #[trigger] ascii_lowercase(s)[i] as u32
                && ascii_lowercase(s)[i] as u32 <= 90),
        forall|i: int|
            0 <= i < s.len() ==> (#[trigger] ascii_lowercase(s)[i] == s[i] || (65 <= s[i] as u32
                && s[i] as u32 <= 90 && ascii_lowercase(s)[i] as u32 == s[i] as u32 + 32)),
{
    assert forall|i: int| 0 <= i < s.len() implies !(65 <= #[trigger] ascii_lowercase(s)[i] as u32
        && ascii_lowercase(s)[i] as u32 <= 90) && (ascii_lowercase(s)[i] == s[i] || (65
        <= s[i] as u32 && s[i] as u32 <= 90 && ascii_lowercase(s)[i] as u32 == s[i] as u32
        + 32)) by {
        lemma_ascii_lower_char(s[i]);
    }
}

/// Lowering ASCII case twice is lowering it once.
pub proof fn lemma_lowercase_idempotent(s: Seq<char>)
    ensures
        ascii_lowercase(ascii_lowercase(s)) == ascii_lowercase(s),
{
    assert forall|i: int| 0 <= i < s.len() implies #[trigger] ascii_lowercase(
        ascii_lowercase(s),
    )[i] == ascii_lowercase(s)[i] by {
        let c = s[i];
        if 'A' as u32 <= c as u32 && c as u32 <= 'Z' as u32 {
            let d = ((c as u32) + 32) as char;
            assert(d as u32 == c as u32 + 32);
        }
    }
    assert(ascii_lowercase(ascii_lowercase(s)) =~= ascii_lowercase(s));
}

} // verus!
