//! Diagnostics for a failed read: the packet as hex with the failed read
//! marked.
use vstd::prelude::*;
use vstd::string::*;

use std::ops::Range;

use crate::error::EOFErrorData;

verus! {

broadcast use vstd::seq_lib::group_seq_properties;

/// Lower-case hex digit of `d < 16`.
pub open spec fn hex_digit(d: u8) -> char {
    if d < 10 {
        ((d + 0x30) as u8) as char
    } else {
        ((d - 10 + 0x61) as u8) as char
    }
}

/// The value of a hex digit read back: `0`-`9` and `a`-`f`.
pub open spec fn hex_digit_value(c: char) -> int {
    if c as u32 <= 57 {
        c as u32 - 48
    } else {
        c as u32 - 97 + 10
    }
}

/// Each byte shows as two digits from `0`-`9` and `a`-`f`, the high nibble
/// first, that read back as the byte.
pub proof fn lemma_hex_byte_reads_back(b: u8)
    ensures
        hex_byte(b).len() == 2,
        forall|k: int|
            0 <= k < 2 ==> (48 <= #[trigger] hex_byte(b)[k] as u32 <= 57 || 97 <= hex_byte(b)[k] as u32
                <= 102),
        16 * hex_digit_value(hex_byte(b)[0]) + hex_digit_value(hex_byte(b)[1]) == b,
{
    let h = b / 16;
    let l = b % 16;
    assert(h < 16 && l < 16);
    assert(hex_byte(b)[0] == hex_digit(h));
    assert(hex_byte(b)[1] == hex_digit(l));
}

/// A byte as two lower-case hex digits.
pub open spec fn hex_byte(b: u8) -> Seq<char> {
    seq![hex_digit(b / 16), hex_digit(b % 16)]
}

/// Bytes as hex, separated by single spaces when `space`.
pub open spec fn hex_text(data: Seq<u8>, space: bool) -> Seq<char>
    decreases data.len(),
{
    if data.len() == 0 {
        Seq::empty()
    } else if data.len() == 1 {
        hex_byte(data[0])
    } else {
        hex_text(data.drop_last(), space) + (if space {
            seq![' ']
        } else {
            Seq::empty()
        }) + hex_byte(data.last())
    }
}

/// Decimal digits of `n`.
pub open spec fn decimal_text(n: nat) -> Seq<char>
    decreases n,
{
    if n < 10 {
        seq![hex_digit(n as u8)]
    } else {
        decimal_text(n / 10) + seq![hex_digit((n % 10) as u8)]
    }
}

/// `n` copies of `c`.
pub open spec fn repeat_char(c: char, n: nat) -> Seq<char> {
    Seq::new(n, |i: int| c)
}

/// The digit `d < 16` as a one-character string.
fn digit_str(d: u8) -> (r: &'static str)
    requires
        d < 16,
    ensures
        r@ == seq![hex_digit(d)],
{
    proof {
        reveal_strlit("0");
        reveal_strlit("1");
        reveal_strlit("2");
        reveal_strlit("3");
        reveal_strlit("4");
        reveal_strlit("5");
        reveal_strlit("6");
        reveal_strlit("7");
        reveal_strlit("8");
        reveal_strlit("9");
        reveal_strlit("a");
        reveal_strlit("b");
        reveal_strlit("c");
        reveal_strlit("d");
        reveal_strlit("e");
        reveal_strlit("f");
    }
    match d {
        0 => "0",
        1 => "1",
        2 => "2",
        3 => "3",
        4 => "4",
        5 => "5",
        6 => "6",
        7 => "7",
        8 => "8",
        9 => "9",
        10 => "a",
        11 => "b",
        12 => "c",
        13 => "d",
        14 => "e",
        _ => "f",
    }
}

/// Appends the decimal digits of `n`.
pub(crate) fn push_decimal(s: &mut String, n: usize)
    ensures
        final(s)@ == old(s)@ + decimal_text(n as nat),
    decreases n,
{
    if n >= 10 {
        push_decimal(s, n / 10);
    }
    s.append(digit_str((n % 10) as u8));
}

/// Appends `n` copies of a one-character string.
fn push_repeat(s: &mut String, c: &str, n: usize)
    requires
        c@.len() == 1,
    ensures
        final(s)@ == old(s)@ + repeat_char(c@[0], n as nat),
{
    let mut i: usize = 0;
    while i < n
        invariant
            0 <= i <= n,
            c@.len() == 1,
            s@ == old(s)@ + repeat_char(c@[0], i as nat),
        decreases n - i,
    {
        s.append(c);
        i = i + 1;
        proof {
            assert(old(s)@ + repeat_char(c@[0], (i - 1) as nat) + c@ =~= old(s)@ + repeat_char(
                c@[0],
                i as nat,
            ));
        }
    }
    proof {
        assert(old(s)@ + repeat_char(c@[0], 0) =~= old(s)@);
    }
}

/// Bytes shown as hex; with `SPACE`, the bytes are separated by a space.
pub struct HexString<'a, const SPACE: bool>(pub &'a [u8]);

/// Characters that a byte takes in a hex string: two digits, and a space
/// when spaced.
pub open spec fn spec_size_per_byte(space: bool) -> nat {
    if space {
        3
    } else {
        2
    }
}

/// Length of the hex text: `S` characters per byte, less the separator
/// after the last byte.
proof fn lemma_hex_text_len(data: Seq<u8>, space: bool)
    ensures
        hex_text(data, space).len() == if data.len() == 0 {
            0
        } else {
            spec_size_per_byte(space) * data.len() - (if space {
                1int
            } else {
                0int
            })
        },
    decreases data.len(),
{
    if data.len() > 1 {
        lemma_hex_text_len(data.drop_last(), space);
        if space {
            assert(3 * (data.len() - 1) - 1 + 1 + 2 == 3 * data.len() - 1);
        } else {
            assert(2 * (data.len() - 1) + 2 == 2 * data.len());
        }
    }
}

/// The two hex digits of byte `i` stand at column `S * i` of the hex text,
/// where `map_index` puts it.
pub proof fn lemma_hex_byte_at(data: Seq<u8>, space: bool, i: int)
    requires
        0 <= i < data.len(),
    ensures
        hex_text(data, space).subrange(
            spec_size_per_byte(space) * i,
            spec_size_per_byte(space) * i + 2,
        ) == hex_byte(data[i]),
    decreases data.len(),
{
    let n = data.len() as int;
    let t = hex_text(data, space);
    if n == 1 {
        assert(t.subrange(0, 2) =~= hex_byte(data[0]));
    } else {
        let p = data.drop_last();
        lemma_hex_text_len(p, space);
        let sep: Seq<char> = if space {
            seq![' ']
        } else {
            Seq::empty()
        };
        let pt = hex_text(p, space);
        assert(t == pt + sep + hex_byte(data.last()));
        if i == n - 1 {
            assert(pt.len() + sep.len() == spec_size_per_byte(space) * i);
            let q: int = pt.len() as int + sep.len() as int;
            assert(t.subrange(q, q + 2) =~= hex_byte(
                data.last(),
            ));
        } else {
            lemma_hex_byte_at(p, space, i);
            assert(spec_size_per_byte(space) * i + 2 <= pt.len()) by {
                if space {
                    assert(3 * i + 2 <= 3 * (n - 1) - 1);
                } else {
                    assert(2 * i + 2 <= 2 * (n - 1));
                }
            }
            assert(t.subrange(spec_size_per_byte(space) * i, spec_size_per_byte(space) * i + 2)
                =~= pt.subrange(spec_size_per_byte(space) * i, spec_size_per_byte(space) * i + 2));
        }
    }
}

impl<'a, const SPACE: bool> HexString<'a, SPACE> {
    fn size_per_byte() -> (r: usize)
        ensures
            r == spec_size_per_byte(SPACE),
    {
        if SPACE {
            3
        } else {
            2
        }
    }

    /// Position in the text of the byte at `ix`.
    pub fn map_index(&self, ix: usize) -> (r: usize)
        requires
            ix * spec_size_per_byte(SPACE) <= usize::MAX,
        ensures
            r == ix * spec_size_per_byte(SPACE),
    {
        ix * Self::size_per_byte()
    }

    /// Span of the text that shows the bytes of `range`, not counting the
    /// separator after the last one; a range whose end lies before its start
    /// shows no byte and ends just before its start.
    pub fn map_range(&self, range: Range<usize>) -> (r: Range<usize>)
        requires
            range.start * spec_size_per_byte(SPACE) <= usize::MAX,
            range.end * spec_size_per_byte(SPACE) <= usize::MAX,
        ensures
            r.start == range.start * spec_size_per_byte(SPACE),
            ({
                let m = if range.end >= range.start {
                    range.end
                } else {
                    range.start
                };
                r.end == if m * spec_size_per_byte(SPACE) >= 1 {
                    m * spec_size_per_byte(SPACE) - 1
                } else {
                    0
                }
            }),
    {
        let start = range.start;
        let count = if range.end >= range.start {
            range.end - range.start
        } else {
            0
        };
        let l = self.map_index(start);
        let end = self.map_index(start + count);
        let end = if end >= 1 {
            end - 1
        } else {
            0
        };
        l..end
    }

    /// Length of the text, counting a separator after each byte.
    pub fn str_len(&self) -> (r: usize)
        requires
            self.0@.len() * spec_size_per_byte(SPACE) <= usize::MAX,
        ensures
            r == self.0@.len() * spec_size_per_byte(SPACE),
    {
        self.map_index(self.0.len())
    }

    /// The bytes as lower-case hex.
    pub fn to_string(&self) -> (r: String)
        ensures
            r@ == hex_text(self.0@, SPACE),
    {
        let mut s = String::new();
        let mut i: usize = 0;
        proof {
            assert(self.0@.take(0) =~= Seq::<u8>::empty());
        }
        while i < self.0.len()
            invariant
                0 <= i <= self.0@.len(),
                s@ == hex_text(self.0@.take(i as int), SPACE),
            decreases self.0@.len() - i,
        {
            let b = self.0[i];
            let ghost before = s@;
            if i > 0 && SPACE {
                proof {
                    reveal_strlit(" ");
                }
                s.append(" ");
            }
            s.append(digit_str(b / 16));
            s.append(digit_str(b % 16));
            proof {
                let t = self.0@.take(i + 1);
                assert(t.drop_last() =~= self.0@.take(i as int));
                assert(t.last() == b);
                if i == 0 {
                    assert(s@ =~= hex_byte(b));
                } else {
                    assert(s@ =~= hex_text(t, SPACE));
                }
            }
            i = i + 1;
        }
        proof {
            assert(self.0@.take(self.0@.len() as int) =~= self.0@);
        }
        s
    }
}

/// Analysis of an end-of-packet error against the packet's bytes.
#[derive(Debug)]
pub struct PacketAnalyzer<'a> {
    eof: &'a EOFErrorData,
    data: &'a [u8],
}

impl<'a> PacketAnalyzer<'a> {
    pub closed spec fn spec_eof(&self) -> &'a EOFErrorData {
        self.eof
    }

    pub closed spec fn spec_data(&self) -> Seq<u8> {
        self.data@
    }

    pub fn new(eof: &'a EOFErrorData, data: &'a [u8]) -> (r: Self)
        ensures
            r.spec_eof() == eof,
            r.spec_data() == data@,
    {
        PacketAnalyzer { eof, data }
    }

    /// Start of the context around the failed read: `2 * read_len` bytes
    /// before its position.
    pub open spec fn spec_left(&self) -> int {
        let ctx = self.spec_eof().spec_read_len() * 2;
        if self.spec_eof().pos >= ctx {
            self.spec_eof().pos - ctx
        } else {
            0
        }
    }

    /// End of the context: `2 * read_len` bytes after the position, at most
    /// the end of the packet.
    pub open spec fn spec_right(&self) -> int {
        let r = self.spec_eof().pos + self.spec_eof().spec_read_len() * 2;
        if r <= self.spec_data().len() {
            r
        } else {
            self.spec_data().len() as int
        }
    }

    /// The bytes around the failed read.
    pub fn get_relevant_data(&self) -> (r: &'a [u8])
        requires
            self.spec_eof().pos + self.spec_eof().spec_read_len() * 2 <= usize::MAX,
            self.spec_left() <= self.spec_right(),
        ensures
            r@ == self.spec_data().subrange(self.spec_left(), self.spec_right()),
    {
        let ctx = self.eof.read_len() * 2;
        let left = if self.eof.pos >= ctx {
            self.eof.pos - ctx
        } else {
            0
        };
        let right = if self.eof.pos + ctx <= self.data.len() {
            self.eof.pos + ctx
        } else {
            self.data.len()
        };
        vstd::slice::slice_subrange(self.data, left, right)
    }

    /// The bytes the failed read wanted, as far as the packet has them.
    pub fn eof_range(&self) -> (r: Range<usize>)
        requires
            self.spec_eof().pos + self.spec_eof().spec_read_len() <= usize::MAX,
        ensures
            r.start == self.spec_eof().pos,
            r.end == if self.spec_eof().pos + self.spec_eof().spec_read_len()
                <= self.spec_data().len() {
                self.spec_eof().pos + self.spec_eof().spec_read_len()
            } else {
                self.spec_data().len() as int
            },
    {
        let p = self.eof.pos;
        let e = p + self.eof.read_len();
        let right = if e <= self.data.len() {
            e
        } else {
            self.data.len()
        };
        p..right
    }

    /// The packet as spaced hex.
    pub fn hex_string(&self) -> (r: HexString<'a, true>)
        ensures
            r.0@ == self.spec_data(),
    {
        HexString(self.data)
    }

    /// The bytes around the failed read as spaced hex.
    pub fn relevant_data_hex_string(&self) -> (r: HexString<'a, true>)
        requires
            self.spec_eof().pos + self.spec_eof().spec_read_len() * 2 <= usize::MAX,
            self.spec_left() <= self.spec_right(),
        ensures
            r.0@ == self.spec_data().subrange(self.spec_left(), self.spec_right()),
    {
        HexString(self.get_relevant_data())
    }

    /// The bytes the failed read wanted as spaced hex.
    pub fn eof_hex_string(&self) -> (r: HexString<'a, true>)
        requires
            self.spec_eof().pos + self.spec_eof().spec_read_len() <= usize::MAX,
            self.spec_eof().pos <= self.spec_data().len(),
        ensures
            r.0@ == self.spec_data().subrange(
                self.spec_eof().pos as int,
                if self.spec_eof().pos + self.spec_eof().spec_read_len()
                    <= self.spec_data().len() {
                    self.spec_eof().pos + self.spec_eof().spec_read_len()
                } else {
                    self.spec_data().len() as int
                },
            ),
    {
        let r = self.eof_range();
        HexString(vstd::slice::slice_subrange(self.data, r.start, r.end))
    }

    /// Whether the marker line's columns fit in `usize`: the end of the
    /// failed read, and three columns per byte up to the later of its start
    /// and its end within the packet.
    pub open spec fn spec_marker_fits(&self) -> bool {
        let p = self.spec_eof().pos;
        let e = if p + self.spec_eof().spec_read_len() <= self.spec_data().len() {
            p + self.spec_eof().spec_read_len()
        } else {
            self.spec_data().len() as int
        };
        &&& p + self.spec_eof().spec_read_len() <= usize::MAX
        &&& 3 * (if e >= p {
            e
        } else {
            p as int
        }) <= usize::MAX
    }

    /// The marker line: spaces up to the failed read in the hex text, a `^`
    /// under each of its characters, then its length and type.
    pub fn eof_marker(&self) -> (r: String)
        requires
            self.spec_marker_fits(),
        ensures
            r@ == marker_text(
                self.spec_eof().pos as nat,
                self.spec_eof().spec_read_len() as nat,
                self.spec_data().len(),
                self.spec_eof().type_label_spec(),
            ),
    {
        let range = self.eof_range();
        let hx = self.hex_string();
        let m = hx.map_range(range);
        let mut s = String::new();
        proof {
            reveal_strlit(" ");
            reveal_strlit("^");
            reveal_strlit(" (read_len=");
            reveal_strlit(", type=");
            reveal_strlit(")\n");
        }
        push_repeat(&mut s, " ", m.start);
        let n = if m.end >= m.start {
            m.end - m.start
        } else {
            0
        };
        push_repeat(&mut s, "^", n);
        s.append(" (read_len=");
        push_decimal(&mut s, self.eof.read_len());
        s.append(", type=");
        s.append(self.eof.type_label());
        s.append(")\n");
        s
    }

    /// The packet as spaced hex on one line, then the marker line.
    pub fn to_string(&self) -> (r: String)
        requires
            self.spec_marker_fits(),
        ensures
            r@ == hex_text(self.spec_data(), true) + seq!['\n'] + marker_text(
                self.spec_eof().pos as nat,
                self.spec_eof().spec_read_len() as nat,
                self.spec_data().len(),
                self.spec_eof().type_label_spec(),
            ),
    {
        let mut s = self.hex_string().to_string();
        proof {
            reveal_strlit("\n");
        }
        s.append("\n");
        let m = self.eof_marker();
        s.append(m.as_str());
        s
    }
}

/// The marker line for a failed read at `pos` of `len` bytes, in a packet of
/// `data_len` bytes, of the type named `label`: a space for each character
/// before the read, a `^` under each character of its bytes (none when it
/// starts past the end), then its length and type.
pub open spec fn marker_text(pos: nat, len: nat, data_len: nat, label: Seq<char>) -> Seq<char> {
    let end = if pos + len <= data_len {
        pos + len
    } else {
        data_len
    };
    let start = pos * 3;
    let stop = if end * 3 >= 1 {
        end * 3 - 1
    } else {
        0
    };
    repeat_char(' ', start) + repeat_char('^', if stop >= start {
        (stop - start) as nat
    } else {
        0
    }) + " (read_len="@ + decimal_text(len) + ", type="@ + label + ")\n"@
}

impl EOFErrorData {
    /// Analysis of this error against the packet's bytes.
    pub fn analytics<'a>(&'a self, data: &'a [u8]) -> (r: PacketAnalyzer<'a>)
        ensures
            r.spec_eof() == self,
            r.spec_data() == data@,
    {
        PacketAnalyzer::new(self, data)
    }
}

} // verus!
