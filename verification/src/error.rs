//! Errors raised while reading or writing packets.
use vstd::prelude::*;
use vstd::string::*;

use crate::analyzer::{decimal_text, push_decimal};

verus! {

#[verifier::external_type_specification]
#[verifier::external_body]
pub struct ExUtf8Error(std::str::Utf8Error);

#[verifier::external_type_specification]
#[verifier::external_body]
pub struct ExFileTimeRangeError(nt_time::error::FileTimeRangeError);

/// Types that a reader can report in an end-of-packet error, by the name
/// Rust gives them (`std::any::type_name`).
pub trait TypeLabel {
    /// The type's name.
    spec fn spec_label() -> Seq<char>;

    /// The type's name.
    fn label() -> (r: String)
        ensures
            r@ == Self::spec_label(),
    ;
}

impl TypeLabel for () {
    open spec fn spec_label() -> Seq<char> {
        "()"@
    }

    fn label() -> (r: String) {
        "()".to_owned()
    }
}

impl TypeLabel for u8 {
    open spec fn spec_label() -> Seq<char> {
        "u8"@
    }

    fn label() -> (r: String) {
        "u8".to_owned()
    }
}

impl TypeLabel for i8 {
    open spec fn spec_label() -> Seq<char> {
        "i8"@
    }

    fn label() -> (r: String) {
        "i8".to_owned()
    }
}

impl TypeLabel for bool {
    open spec fn spec_label() -> Seq<char> {
        "bool"@
    }

    fn label() -> (r: String) {
        "bool".to_owned()
    }
}

impl TypeLabel for u16 {
    open spec fn spec_label() -> Seq<char> {
        "u16"@
    }

    fn label() -> (r: String) {
        "u16".to_owned()
    }
}

impl TypeLabel for i16 {
    open spec fn spec_label() -> Seq<char> {
        "i16"@
    }

    fn label() -> (r: String) {
        "i16".to_owned()
    }
}

impl TypeLabel for u32 {
    open spec fn spec_label() -> Seq<char> {
        "u32"@
    }

    fn label() -> (r: String) {
        "u32".to_owned()
    }
}

impl TypeLabel for i32 {
    open spec fn spec_label() -> Seq<char> {
        "i32"@
    }

    fn label() -> (r: String) {
        "i32".to_owned()
    }
}

impl TypeLabel for u64 {
    open spec fn spec_label() -> Seq<char> {
        "u64"@
    }

    fn label() -> (r: String) {
        "u64".to_owned()
    }
}

impl TypeLabel for i64 {
    open spec fn spec_label() -> Seq<char> {
        "i64"@
    }

    fn label() -> (r: String) {
        "i64".to_owned()
    }
}

impl TypeLabel for u128 {
    open spec fn spec_label() -> Seq<char> {
        "u128"@
    }

    fn label() -> (r: String) {
        "u128".to_owned()
    }
}

/// `[u8; ` and the length in decimal, then `]`.
pub open spec fn array_label(n: nat) -> Seq<char> {
    "[u8; "@ + decimal_text(n) + "]"@
}

impl<const N: usize> TypeLabel for [u8; N] {
    open spec fn spec_label() -> Seq<char> {
        array_label(N as nat)
    }

    fn label() -> (r: String) {
        let mut s = "[u8; ".to_owned();
        push_decimal(&mut s, N);
        s.append("]");
        s
    }
}

impl<'a> TypeLabel for &'a str {
    open spec fn spec_label() -> Seq<char> {
        "&str"@
    }

    fn label() -> (r: String) {
        "&str".to_owned()
    }
}

impl<'a> TypeLabel for &'a [u8] {
    open spec fn spec_label() -> Seq<char> {
        "&[u8]"@
    }

    fn label() -> (r: String) {
        "&[u8]".to_owned()
    }
}

/// Extra context of an end-of-packet error: which type was read and how many
/// bytes it needed.
#[derive(Debug)]
pub struct EOFExtraData {
    label: String,
    read_len: usize,
}

impl EOFExtraData {
    pub closed spec fn spec_read_len(&self) -> usize {
        self.read_len
    }

    pub closed spec fn spec_label(&self) -> Seq<char> {
        self.label@
    }

    /// Context for a read of `read_len` bytes of type `T`.
    pub fn from_type<T: TypeLabel>(read_len: usize) -> (r: Self)
        ensures
            r.spec_read_len() == read_len,
            r.spec_label() == T::spec_label(),
    {
        EOFExtraData { label: T::label(), read_len }
    }
}

/// An end-of-packet error at reader position `pos`.
#[derive(Debug)]
pub struct EOFErrorData {
    pub pos: usize,
    pub extra: Box<EOFExtraData>,
}

impl EOFErrorData {
    pub open spec fn spec_read_len(&self) -> usize {
        self.extra.spec_read_len()
    }

    /// Error at `pos` while reading `read_len` bytes of type `T`, which it
    /// names by `T`'s name.
    pub fn from_type<T: TypeLabel>(pos: usize, read_len: usize) -> (r: Self)
        ensures
            r.pos == pos,
            r.spec_read_len() == read_len,
            r.type_label_spec() == T::spec_label(),
    {
        let extra = EOFExtraData::from_type::<T>(read_len);
        EOFErrorData { pos, extra: Box::new(extra) }
    }

    /// Number of bytes the failed read needed.
    pub fn read_len(&self) -> (r: usize)
        ensures
            r == self.spec_read_len(),
    {
        self.extra.read_len
    }

    pub open spec fn type_label_spec(&self) -> Seq<char> {
        self.extra.spec_label()
    }

    /// Name of the type whose read failed.
    pub fn type_label(&self) -> (r: &str)
        ensures
            r@ == self.type_label_spec(),
    {
        self.extra.label.as_str()
    }
}

/// Errors of the packet codec.
#[derive(Debug)]
pub enum Error {
    StringUtf8(std::str::Utf8Error),
    EOF(EOFErrorData),
    StringLimit(usize),
    InvalidEnumDiscriminant(usize),
    InvalidEnumPrimitive(u32),
    InvalidTimestamp(u64),
    InvalidTime(nt_time::error::FileTimeRangeError),
    InvalidOpCode(u16),
    OutOfCapacity,
    NoOpCode,
    InvalidAllBits,
}

impl Error {
    /// End-of-packet error for a read of `n` bytes of type `T` at `pos`.
    pub fn eof<T: TypeLabel>(pos: usize, n: usize) -> (r: Self)
        ensures
            is_eof_at(r, pos as nat, n as nat),
    {
        Error::EOF(EOFErrorData::from_type::<T>(pos, n))
    }

    /// Whether this is an end-of-packet error.
    pub fn is_eof(&self) -> (r: bool)
        ensures
            r == (self is EOF),
    {
        match self {
            Error::EOF(_) => true,
            _ => false,
        }
    }
}

/// `e` is an end-of-packet error at `pos` for a read of `n` bytes.
pub open spec fn is_eof_at(e: Error, pos: nat, n: nat) -> bool {
    &&& e matches Error::EOF(d)
    &&& d.pos == pos
    &&& d.spec_read_len() == n
}

/// `r` failed with an end-of-packet error at `pos` for a read of `n` bytes.
pub open spec fn eof_result<T>(r: Result<T, Error>, pos: nat, n: nat) -> bool {
    &&& r matches Err(e)
    &&& is_eof_at(e, pos, n)
}

} // verus!
