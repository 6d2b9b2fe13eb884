//! The XOR masks that WZ files put over their strings, and the decoding of
//! masked strings into text.
use vstd::prelude::*;

verus! {

/// First key of the 8-bit string mask.
pub const STR8_MASK_START: u8 = 0xAA;

/// First key of the 16-bit string mask.
pub const STR16_MASK_START: u16 = 0xAAAA;

/// Key of the 8-bit mask `i` places after the key `m`.
pub open spec fn mask8_at(m: u8, i: int) -> u8 {
    ((m as int + i) % 256) as u8
}

/// Key of the 16-bit mask `i` places after the key `m`.
pub open spec fn mask16_at(m: u16, i: int) -> u16 {
    ((m as int + i) % 65536) as u16
}

/// `data` with each unit XORed with the 8-bit mask that starts at `m`.
pub open spec fn xor_mask8(data: Seq<u8>, m: u8) -> Seq<u8> {
    Seq::new(data.len(), |i: int| data[i] ^ mask8_at(m, i))
}

/// `data` with each unit XORed with the 16-bit mask that starts at `m`.
pub open spec fn xor_mask16(data: Seq<u16>, m: u16) -> Seq<u16> {
    Seq::new(data.len(), |i: int| data[i] ^ mask16_at(m, i))
}

proof fn lemma_mask8_step(m: u8, i: int)
    requires
        0 <= i,
    ensures
        mask8_at(m, i + 1) == (if mask8_at(m, i) == 255 {
            0
        } else {
            mask8_at(m, i) + 1
        }),
{
}

proof fn lemma_mask16_step(m: u16, i: int)
    requires
        0 <= i,
    ensures
        mask16_at(m, i + 1) == (if mask16_at(m, i) == 65535 {
            0
        } else {
            mask16_at(m, i) + 1
        }),
{
}

/// Masking twice with the same 8-bit mask gives the data back.
pub proof fn lemma_xor_mask8_involution(data: Seq<u8>, m: u8)
    ensures
        xor_mask8(xor_mask8(data, m), m) == data,
{
    assert forall|i: int| 0 <= i < data.len() implies #[trigger] xor_mask8(
        xor_mask8(data, m),
        m,
    )[i] == data[i] by {
        let a = data[i];
        let k = mask8_at(m, i);
        assert((a ^ k) ^ k == a) by (bit_vector);
    }
    assert(xor_mask8(xor_mask8(data, m), m) =~= data);
}

/// Masking twice with the same 16-bit mask gives the data back.
pub proof fn lemma_xor_mask16_involution(data: Seq<u16>, m: u16)
    ensures
        xor_mask16(xor_mask16(data, m), m) == data,
{
    assert forall|i: int| 0 <= i < data.len() implies #[trigger] xor_mask16(
        xor_mask16(data, m),
        m,
    )[i] == data[i] by {
        let a = data[i];
        let k = mask16_at(m, i);
        assert((a ^ k) ^ k == a) by (bit_vector);
    }
    assert(xor_mask16(xor_mask16(data, m), m) =~= data);
}

/// Masking data piece by piece, each piece where the last one left the mask,
/// is masking it whole.
pub proof fn lemma_xor_mask8_concat(a: Seq<u8>, b: Seq<u8>, m: u8)
    ensures
        xor_mask8(a + b, m) == xor_mask8(a, m) + xor_mask8(b, mask8_at(m, a.len() as int)),
{
    assert forall|j: int| 0 <= j < b.len() implies mask8_at(mask8_at(m, a.len() as int), j)
        == mask8_at(m, a.len() + j) by {
        vstd::arithmetic::div_mod::lemma_add_mod_noop(m as int + a.len(), j, 256);
        vstd::arithmetic::div_mod::lemma_mod_twice(j, 256);
        vstd::arithmetic::div_mod::lemma_add_mod_noop((m as int + a.len()) % 256, j, 256);
    }
    assert(xor_mask8(a + b, m) =~= xor_mask8(a, m) + xor_mask8(b, mask8_at(m, a.len() as int)));
}

/// Masking data piece by piece, each piece where the last one left the mask,
/// is masking it whole.
pub proof fn lemma_xor_mask16_concat(a: Seq<u16>, b: Seq<u16>, m: u16)
    ensures
        xor_mask16(a + b, m) == xor_mask16(a, m) + xor_mask16(b, mask16_at(m, a.len() as int)),
{
    assert forall|j: int| 0 <= j < b.len() implies mask16_at(mask16_at(m, a.len() as int), j)
        == mask16_at(m, a.len() + j) by {
        vstd::arithmetic::div_mod::lemma_add_mod_noop(m as int + a.len(), j, 65536);
        vstd::arithmetic::div_mod::lemma_mod_twice(j, 65536);
        vstd::arithmetic::div_mod::lemma_add_mod_noop((m as int + a.len()) % 65536, j, 65536);
    }
    assert(xor_mask16(a + b, m) =~= xor_mask16(a, m) + xor_mask16(
        b,
        mask16_at(m, a.len() as int),
    ));
}

/// Removes (or puts on) the 8-bit string mask, from its first key.
pub fn xor_mask_str8(data: &mut [u8])
    ensures
        final(data)@ == xor_mask8(old(data)@, STR8_MASK_START),
{
    let mut mask = Str8XorMaskIter::default();
    mask.apply_slice(data);
}

/// Removes (or puts on) the 16-bit string mask, from its first key.
pub fn xor_mask_unicode(data: &mut [u16])
    ensures
        final(data)@ == xor_mask16(old(data)@, STR16_MASK_START),
{
    let mut mask = Str16XorMaskIter::default();
    mask.apply_slice(data);
}

/// The 8-bit string mask, at the key it has reached.
pub struct Str8XorMaskIter(u8);

impl View for Str8XorMaskIter {
    /// The next key.
    type V = u8;

    closed spec fn view(&self) -> u8 {
        self.0
    }
}

impl Default for Str8XorMaskIter {
    fn default() -> (r: Self)
        ensures
            r@ == STR8_MASK_START,
    {
        Str8XorMaskIter(STR8_MASK_START)
    }
}

impl Str8XorMaskIter {
    /// Masks `data` from the current key on; the mask moves past it.
    pub fn apply_array<const N: usize>(&mut self, data: &mut [u8; N])
        ensures
            final(data)@ == xor_mask8(old(data)@, old(self)@),
            final(self)@ == mask8_at(old(self)@, N as int),
    {
        let ghost d0 = data@;
        let ghost m0 = self.0;
        let mut i: usize = 0;
        while i < N
            invariant
                d0.len() == N,
                data@.len() == N,
                0 <= i <= N,
                self.0 == mask8_at(m0, i as int),
                forall|j: int| 0 <= j < i ==> data@[j] == d0[j] ^ mask8_at(m0, j),
                forall|j: int| i <= j < N ==> data@[j] == d0[j],
            decreases N - i,
        {
            proof {
                lemma_mask8_step(m0, i as int);
            }
            data[i] = data[i] ^ self.0;
            self.0 = self.0.wrapping_add(1);
            i = i + 1;
        }
        assert(data@ =~= xor_mask8(d0, m0));
    }

    /// Masks `data` from the current key on; the mask moves past it.
    pub fn apply_slice(&mut self, data: &mut [u8])
        ensures
            final(data)@ == xor_mask8(old(data)@, old(self)@),
            final(self)@ == mask8_at(old(self)@, old(data)@.len() as int),
    {
        let ghost d0 = data@;
        let ghost m0 = self.0;
        let n = data.len();
        let mut i: usize = 0;
        while i < n
            invariant
                d0.len() == n,
                data@.len() == n,
                0 <= i <= n,
                self.0 == mask8_at(m0, i as int),
                forall|j: int| 0 <= j < i ==> data@[j] == d0[j] ^ mask8_at(m0, j),
                forall|j: int| i <= j < n ==> data@[j] == d0[j],
            decreases n - i,
        {
            proof {
                lemma_mask8_step(m0, i as int);
            }
            data[i] = data[i] ^ self.0;
            self.0 = self.0.wrapping_add(1);
            i = i + 1;
        }
        assert(data@ =~= xor_mask8(d0, m0));
    }

    /// The current key; the mask moves to the next one.
    pub fn next(&mut self) -> (r: Option<u8>)
        ensures
            r == Some(old(self)@),
            final(self)@ == mask8_at(old(self)@, 1),
    {
        let k = self.0;
        self.0 = self.0.wrapping_add(1);
        Some(k)
    }
}

/// The 16-bit string mask, at the key it has reached.
pub struct Str16XorMaskIter(u16);

impl View for Str16XorMaskIter {
    /// The next key.
    type V = u16;

    closed spec fn view(&self) -> u16 {
        self.0
    }
}

impl Default for Str16XorMaskIter {
    fn default() -> (r: Self)
        ensures
            r@ == STR16_MASK_START,
    {
        Str16XorMaskIter(STR16_MASK_START)
    }
}

impl Str16XorMaskIter {
    /// Masks `data` from the current key on; the mask moves past it.
    pub fn apply_array<const N: usize>(&mut self, data: &mut [u16; N])
        ensures
            final(data)@ == xor_mask16(old(data)@, old(self)@),
            final(self)@ == mask16_at(old(self)@, N as int),
    {
        let ghost d0 = data@;
        let ghost m0 = self.0;
        let mut i: usize = 0;
        while i < N
            invariant
                d0.len() == N,
                data@.len() == N,
                0 <= i <= N,
                self.0 == mask16_at(m0, i as int),
                forall|j: int| 0 <= j < i ==> data@[j] == d0[j] ^ mask16_at(m0, j),
                forall|j: int| i <= j < N ==> data@[j] == d0[j],
            decreases N - i,
        {
            proof {
                lemma_mask16_step(m0, i as int);
            }
            data[i] = data[i] ^ self.0;
            self.0 = self.0.wrapping_add(1);
            i = i + 1;
        }
        assert(data@ =~= xor_mask16(d0, m0));
    }

    /// Masks `data` from the current key on; the mask moves past it.
    pub fn apply_slice(&mut self, data: &mut [u16])
        ensures
            final(data)@ == xor_mask16(old(data)@, old(self)@),
            final(self)@ == mask16_at(old(self)@, old(data)@.len() as int),
    {
        let ghost d0 = data@;
        let ghost m0 = self.0;
        let n = data.len();
        let mut i: usize = 0;
        while i < n
            invariant
                d0.len() == n,
                data@.len() == n,
                0 <= i <= n,
                self.0 == mask16_at(m0, i as int),
                forall|j: int| 0 <= j < i ==> data@[j] == d0[j] ^ mask16_at(m0, j),
                forall|j: int| i <= j < n ==> data@[j] == d0[j],
            decreases n - i,
        {
            proof {
                lemma_mask16_step(m0, i as int);
            }
            data[i] = data[i] ^ self.0;
            self.0 = self.0.wrapping_add(1);
            i = i + 1;
        }
        assert(data@ =~= xor_mask16(d0, m0));
    }

    /// The current key; the mask moves to the next one.
    pub fn next(&mut self) -> (r: Option<u16>)
        ensures
            r == Some(old(self)@),
            final(self)@ == mask16_at(old(self)@, 1),
    {
        let k = self.0;
        self.0 = self.0.wrapping_add(1);
        Some(k)
    }
}

/// `String::push`: appends one character.
#[verifier::external_body]
pub(crate) fn string_push(s: &mut String, c: char)
    ensures
        final(s)@ == old(s)@.push(c),
{
    s.push(c)
}

/// `char::from_u32`: the character whose scalar value is `x`, when `x` is a
/// Unicode scalar value.
#[verifier::external_body]
fn char_from_u32(x: u32) -> (r: Option<char>)
    ensures
        r is Some <==> (x < 0xD800 || (0xE000 <= x && x <= 0x10FFFF)),
        r matches Some(c) ==> c as u32 == x,
{
    char::from_u32(x)
}

/// A Latin-1 byte as the character with the same code point.
pub fn char_decode_latin1(b: u8) -> (c: char)
    ensures
        c as u32 == b as u32,
{
    b as char
}

/// Latin-1 bytes as text.
pub open spec fn latin1_text(src: Seq<u8>) -> Seq<char> {
    src.map_values(|b: u8| (b as u32) as char)
}

/// Appends the Latin-1 text of `src`.
pub fn append_slice_str8(s: &mut String, src: &[u8])
    ensures
        final(s)@ == old(s)@ + latin1_text(src@),
{
    let mut i: usize = 0;
    while i < src.len()
        invariant
            0 <= i <= src@.len(),
            s@ == old(s)@ + latin1_text(src@.take(i as int)),
        decreases src@.len() - i,
    {
        let c = char_decode_latin1(src[i]);
        string_push(s, c);
        proof {
            assert(latin1_text(src@.take(i + 1)) =~= latin1_text(src@.take(i as int)).push(c));
        }
        i = i + 1;
    }
    assert(src@.take(src@.len() as int) =~= src@);
}

/// Appends the Latin-1 text of a fixed-size chunk.
pub fn append_chunk_str8<const N: usize>(s: &mut String, src: &[u8; N])
    ensures
        final(s)@ == old(s)@ + latin1_text(src@),
{
    append_slice_str8(s, src.as_slice());
}

/// Whether `u` is the first half of a surrogate pair.
pub open spec fn is_high_surrogate(u: u16) -> bool {
    0xD800 <= u < 0xDC00
}

/// Whether `u` is the second half of a surrogate pair.
pub open spec fn is_low_surrogate(u: u16) -> bool {
    0xDC00 <= u < 0xE000
}

/// The scalar value of a surrogate pair.
pub open spec fn surrogate_pair_value(hi: u16, lo: u16) -> u32 {
    (0x10000 + (hi - 0xD800) * 0x400 + (lo - 0xDC00)) as u32
}

/// How many units the UTF-16 sequence that starts `v` takes: 1 for a unit
/// outside the surrogates, 2 for a surrogate pair, 0 where `v` is empty or
/// starts with a surrogate that has no partner.
pub open spec fn utf16_unit_len(v: Seq<u16>) -> int {
    if v.len() == 0 {
        0
    } else if !is_high_surrogate(v[0]) && !is_low_surrogate(v[0]) {
        1
    } else if is_high_surrogate(v[0]) && v.len() >= 2 && is_low_surrogate(v[1]) {
        2
    } else {
        0
    }
}

/// The scalar value of the UTF-16 sequence that starts `v`.
pub open spec fn utf16_first_value(v: Seq<u16>) -> u32 {
    if utf16_unit_len(v) == 1 {
        v[0] as u32
    } else {
        surrogate_pair_value(v[0], v[1])
    }
}

/// The characters that UTF-16 decoding of `v` yields before it ends or meets
/// an unpaired surrogate.
pub open spec fn utf16_prefix(v: Seq<u16>) -> Seq<char>
    decreases v.len(),
{
    if utf16_unit_len(v) == 0 {
        Seq::empty()
    } else {
        seq![utf16_first_value(v) as char] + utf16_prefix(v.skip(utf16_unit_len(v)))
    }
}

/// The unpaired surrogate at which UTF-16 decoding of `v` stops, if any.
pub open spec fn utf16_error(v: Seq<u16>) -> Option<u16>
    decreases v.len(),
{
    if v.len() == 0 {
        None
    } else if utf16_unit_len(v) == 0 {
        Some(v[0])
    } else {
        utf16_error(v.skip(utf16_unit_len(v)))
    }
}

/// A surrogate with no partner in UTF-16 text.
#[derive(Debug, Clone, Copy, PartialEq, Eq)]
pub struct Utf16Error {
    pub unpaired_surrogate: u16,
}

/// Appends the UTF-16 text of `v`: all of it, or what comes before the first
/// unpaired surrogate, which is then the error.
pub fn append_slice_str16(s: &mut String, v: &[u16]) -> (r: Result<(), Utf16Error>)
    ensures
        final(s)@ == old(s)@ + utf16_prefix(v@),
        match utf16_error(v@) {
            None => r is Ok,
            Some(u) => r == Err::<(), Utf16Error>(Utf16Error { unpaired_surrogate: u }),
        },
{
    let mut i: usize = 0;
    let n = v.len();
    assert(v@.skip(0) =~= v@);
    while i < n
        invariant
            n == v@.len(),
            0 <= i <= n,
            old(s)@ + utf16_prefix(v@) == s@ + utf16_prefix(v@.skip(i as int)),
            utf16_error(v@) == utf16_error(v@.skip(i as int)),
        decreases n - i,
    {
        let ghost rest = v@.skip(i as int);
        let u = v[i];
        if u < 0xD800 || u >= 0xE000 {
            assert(utf16_unit_len(rest) == 1);
            let c = char_from_u32(u as u32);
            match c {
                Some(c) => {
                    string_push(s, c);
                    proof {
                        assert(rest.skip(1) =~= v@.skip(i + 1));
                        vstd::utf8::char_u32_cast(c, u as u32);
                    }
                },
                None => {
                    assert(false);
                },
            }
            i = i + 1;
        } else if u < 0xDC00 && i + 1 < n && v[i + 1] >= 0xDC00 && v[i + 1] < 0xE000 {
            let lo = v[i + 1];
            assert(utf16_unit_len(rest) == 2);
            let x: u32 = 0x10000 + (u as u32 - 0xD800) * 0x400 + (lo as u32 - 0xDC00);
            let c = char_from_u32(x);
            match c {
                Some(c) => {
                    string_push(s, c);
                    proof {
                        assert(rest.skip(2) =~= v@.skip(i + 2));
                        assert(x == surrogate_pair_value(u, lo));
                        vstd::utf8::char_u32_cast(c, x);
                    }
                },
                None => {
                    assert(false);
                },
            }
            i = i + 2;
        } else {
            assert(utf16_unit_len(rest) == 0);
            return Err(Utf16Error { unpaired_surrogate: u });
        }
    }
    assert(v@.skip(n as int) =~= Seq::<u16>::empty());
    Ok(())
}

/// Appends the UTF-16 text of a fixed-size chunk, as `append_slice_str16`.
pub fn append_chunk_str16<const N: usize>(s: &mut String, v: &[u16; N]) -> (r: Result<
    (),
    Utf16Error,
>)
    ensures
        final(s)@ == old(s)@ + utf16_prefix(v@),
        match utf16_error(v@) {
            None => r is Ok,
            Some(u) => r == Err::<(), Utf16Error>(Utf16Error { unpaired_surrogate: u }),
        },
{
    append_slice_str16(s, v.as_slice())
}

} // verus!
