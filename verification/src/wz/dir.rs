//! The entries of a WZ archive directory and the lookup of an entry by name.
use vstd::prelude::*;

use super::header::{WZ_DIR_DIR, WZ_DIR_IMG, WZ_DIR_LINK, WZ_DIR_NULL};
use super::ty::{WzInt, WzOffset, WzStr, WzVec};

verus! {

/// An image entry: its name, size, checksum and where its data starts.
#[derive(Debug, Clone, PartialEq, Eq)]
pub struct WzImgHeader {
    pub name: WzStr,
    pub blob_size: WzInt,
    pub checksum: WzInt,
    pub offset: WzOffset,
}

/// A directory entry: its name, size, checksum and where it starts.
#[derive(Debug, Clone, PartialEq, Eq)]
pub struct WzDirHeader {
    pub name: WzStr,
    pub blob_size: WzInt,
    pub checksum: WzInt,
    pub offset: WzOffset,
}

impl WzDirHeader {
    /// The root directory `name` of `root_size` entries at `offset`.
    pub fn root(name: &str, root_size: usize, offset: WzOffset) -> (r: Self)
        ensures
            r.name@ == name@,
            r.blob_size.0 == root_size as i32,
            r.checksum.0 == 1,
            r.offset == offset,
    {
        WzDirHeader {
            name: WzStr::new(name.to_owned()),
            blob_size: WzInt(
                #[verifier::truncate]
                (root_size as i32),
            ),
            checksum: WzInt(1),
            offset,
        }
    }
}

/// Where a link entry points.
#[derive(Debug, Clone, PartialEq)]
pub struct WzLinkData {
    pub offset: u32,
}

/// A link entry.
#[derive(Debug, Clone, PartialEq)]
pub struct WzLinkHeader {
    pub link: WzLinkData,
    pub blob_size: WzInt,
    pub checksum: WzInt,
    pub offset: WzOffset,
}

/// Ten bytes of an empty entry.
pub type WzNullHeader = [u8; 10];

/// An entry of a directory, by the kind byte in front of it.
#[derive(Debug, Clone, PartialEq)]
pub enum WzDirEntry {
    Null(WzNullHeader),
    Link(WzLinkHeader),
    Dir(WzDirHeader),
    Img(WzImgHeader),
}

impl WzDirEntry {
    /// The kind byte written in front of the entry.
    pub fn kind(&self) -> (r: u8)
        ensures
            r == (match self {
                WzDirEntry::Null(_) => WZ_DIR_NULL,
                WzDirEntry::Link(_) => WZ_DIR_LINK,
                WzDirEntry::Dir(_) => WZ_DIR_DIR,
                WzDirEntry::Img(_) => WZ_DIR_IMG,
            }),
    {
        match self {
            WzDirEntry::Null(_) => WZ_DIR_NULL,
            WzDirEntry::Link(_) => WZ_DIR_LINK,
            WzDirEntry::Dir(_) => WZ_DIR_DIR,
            WzDirEntry::Img(_) => WZ_DIR_IMG,
        }
    }

    /// The name a lookup finds the entry by: directories and images have
    /// one, empty entries and links none.
    pub open spec fn spec_name(&self) -> Option<Seq<char>> {
        match self {
            WzDirEntry::Dir(d) => Some(d.name@),
            WzDirEntry::Img(i) => Some(i.name@),
            _ => None,
        }
    }

    /// The name of a directory or image entry.
    pub fn name(&self) -> (r: Option<&WzStr>)
        ensures
            match self {
                WzDirEntry::Dir(d) => r == Some(&d.name),
                WzDirEntry::Img(i) => r == Some(&i.name),
                _ => r is None,
            },
    {
        match self {
            WzDirEntry::Dir(dir) => Some(&dir.name),
            WzDirEntry::Img(img) => Some(&img.name),
            _ => None,
        }
    }

    /// Whether the entry is empty.
    pub fn as_null(&self) -> (r: Option<()>)
        ensures
            r is Some <==> self is Null,
    {
        match self {
            WzDirEntry::Null(_) => Some(()),
            _ => None,
        }
    }

    /// The link, if the entry is one.
    pub fn as_link(&self) -> (r: Option<&WzLinkHeader>)
        ensures
            match self {
                WzDirEntry::Link(l) => r == Some(l),
                _ => r is None,
            },
    {
        match self {
            WzDirEntry::Link(link) => Some(link),
            _ => None,
        }
    }

    /// The directory header, if the entry is one.
    pub fn as_dir(&self) -> (r: Option<&WzDirHeader>)
        ensures
            match self {
                WzDirEntry::Dir(d) => r == Some(d),
                _ => r is None,
            },
    {
        match self {
            WzDirEntry::Dir(dir) => Some(dir),
            _ => None,
        }
    }

    /// The image header, if the entry is one.
    pub fn as_img(&self) -> (r: Option<&WzImgHeader>)
        ensures
            match self {
                WzDirEntry::Img(i) => r == Some(i),
                _ => r is None,
            },
    {
        match self {
            WzDirEntry::Img(img) => Some(img),
            _ => None,
        }
    }

    /// Whether the entry is found by `name`.
    fn has_name(&self, name: &str) -> (r: bool)
        ensures
            r == (self.spec_name() == Some(name@)),
    {
        match self {
            WzDirEntry::Dir(dir) => dir.name.eq_str(name),
            WzDirEntry::Img(img) => img.name.eq_str(name),
            _ => false,
        }
    }
}

/// Index of the first entry of `s` found by `name`.
pub open spec fn first_named(s: Seq<WzDirEntry>, name: Seq<char>) -> Option<int> {
    if exists|i: int| 0 <= i < s.len() && s[i].spec_name() == Some(name) {
        Some(
            choose|i: int|
                0 <= i < s.len() && s[i].spec_name() == Some(name) && forall|j: int|
                    0 <= j < i ==> s[j].spec_name() != Some(name),
        )
    } else {
        None
    }
}

/// A directory: its entries in order.
#[derive(Debug, Clone)]
pub struct WzDir(pub WzVec<WzDirEntry>);

impl WzDir {
    /// Position of the first directory or image entry called `name`.
    fn position(&self, name: &str) -> (r: Option<usize>)
        ensures
            match r {
                Some(i) => i < self.0.0@.len() && self.0.0@[i as int].spec_name() == Some(name@)
                    && forall|j: int| 0 <= j < i ==> self.0.0@[j].spec_name() != Some(name@),
                None => forall|j: int|
                    0 <= j < self.0.0@.len() ==> self.0.0@[j].spec_name() != Some(name@),
            },
    {
        let mut i: usize = 0;
        while i < self.0.0.len()
            invariant
                0 <= i <= self.0.0@.len(),
                forall|j: int| 0 <= j < i ==> self.0.0@[j].spec_name() != Some(name@),
            decreases self.0.0@.len() - i,
        {
            if self.0.0[i].has_name(name) {
                return Some(i);
            }
            i = i + 1;
        }
        None
    }

    /// The first directory or image entry called `name`; empty entries and
    /// links are never found.
    pub fn get(&self, name: &str) -> (r: Option<&WzDirEntry>)
        ensures
            match first_named(self.0.0@, name@) {
                Some(i) => r == Some(&self.0.0@[i]),
                None => r is None,
            },
    {
        match self.position(name) {
            Some(i) => {
                proof {
                    let s = self.0.0@;
                    let k = choose|k: int|
                        0 <= k < s.len() && s[k].spec_name() == Some(name@) && forall|j: int|
                            0 <= j < k ==> s[j].spec_name() != Some(name@);
                    assert(s[i as int].spec_name() == Some(name@));
                    if k < i {
                        assert(s[k].spec_name() != Some(name@));
                    }
                    if k > i {
                        assert(s[i as int].spec_name() != Some(name@));
                    }
                }
                Some(&self.0.0[i])
            },
            None => None,
        }
    }
}

} // verus!
