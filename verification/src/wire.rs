//! Big-endian byte layouts shared by the frame and payload codecs.

use vstd::prelude::*;

verus! {

/// The two big-endian bytes of a `u16`.
pub open spec fn u16_be(x: u16) -> Seq<u8> {
    seq![(x / 256) as u8, (x % 256) as u8]
}

/// The four big-endian bytes of a `u32`.
pub open spec fn u32_be(x: u32) -> Seq<u8> {
    seq![(x / 0x100_0000) as u8, ((x / 0x1_0000) % 256) as u8, ((x / 256) % 256) as u8, (x % 256) as u8]
}

/// The `u16` read big-endian from `b` at `i`.
pub open spec fn be_u16(b: Seq<u8>, i: int) -> u16 {
    (b[i] * 256 + b[i + 1]) as u16
}

/// The `u32` read big-endian from `b` at `i`.
pub open spec fn be_u32(b: Seq<u8>, i: int) -> u32 {
    (b[i] * 0x100_0000 + b[i + 1] * 0x1_0000 + b[i + 2] * 256 + b[i + 3]) as u32
}

/// Reading back the bytes written for a `u16` gives the value.
pub proof fn lemma_u16_round_trip(x: u16)
    ensures
        be_u16(u16_be(x), 0) == x,
        u16_be(x).len() == 2,
{
    assert(x == (x / 256) * 256 + x % 256) by (bit_vector);
}

/// Reading back the bytes written for a `u32` gives the value.
pub proof fn lemma_u32_round_trip(x: u32)
    ensures
        be_u32(u32_be(x), 0) == x,
        u32_be(x).len() == 4,
{
    assert(x == (x / 0x100_0000) * 0x100_0000 + ((x / 0x1_0000) % 256) * 0x1_0000 + ((x / 256) % 256) * 256 + x % 256)
        by (bit_vector);
}

/// Writing the `u16` read from two bytes gives those bytes back.
pub proof fn lemma_be_u16_bytes(b: Seq<u8>, i: int)
    requires
        0 <= i,
        i + 2 <= b.len(),
    ensures
        u16_be(be_u16(b, i)) == b.subrange(i, i + 2),
{
    let b0 = b[i];
    let b1 = b[i + 1];
    let v: u16 = (b0 * 256 + b1) as u16;
    assert(b0 * 256 + b1 < 0x1_0000);
    assert(v / 256 == b0 && v % 256 == b1) by (bit_vector)
        requires
            v == b0 * 256 + b1,
    ;
    assert(u16_be(be_u16(b, i)) =~= b.subrange(i, i + 2));
}

/// Writing the `u32` read from four bytes gives those bytes back.
pub proof fn lemma_be_u32_bytes(b: Seq<u8>, i: int)
    requires
        0 <= i,
        i + 4 <= b.len(),
    ensures
        u32_be(be_u32(b, i)) == b.subrange(i, i + 4),
{
    let b0 = b[i];
    let b1 = b[i + 1];
    let b2 = b[i + 2];
    let b3 = b[i + 3];
    assert(b0 * 0x100_0000 + b1 * 0x1_0000 + b2 * 256 + b3 < 0x1_0000_0000);
    let v: u32 = (b0 * 0x100_0000 + b1 * 0x1_0000 + b2 * 256 + b3) as u32;
    assert(v / 0x100_0000 == b0 && (v / 0x1_0000) % 256 == b1 && (v / 256) % 256 == b2 && v % 256 == b3) by (bit_vector)
        requires
            v == b0 * 0x100_0000 + b1 * 0x1_0000 + b2 * 256 + b3,
    ;
    assert(u32_be(be_u32(b, i)) =~= b.subrange(i, i + 4));
}

/// Appends the two big-endian bytes of a `u16`.
pub fn push_u16_be(v: &mut Vec<u8>, x: u16)
    ensures
        final(v)@ == old(v)@ + u16_be(x),
{
    v.push((x / 256) as u8);
    v.push((x % 256) as u8);
    assert(final(v)@ =~= old(v)@ + u16_be(x));
}

/// Appends the four big-endian bytes of a `u32`.
pub fn push_u32_be(v: &mut Vec<u8>, x: u32)
    ensures
        final(v)@ == old(v)@ + u32_be(x),
{
    v.push((x / 0x100_0000) as u8);
    v.push(((x / 0x1_0000) % 256) as u8);
    v.push(((x / 256) % 256) as u8);
    v.push((x % 256) as u8);
    assert(final(v)@ =~= old(v)@ + u32_be(x));
}

/// Reads a big-endian `u16` at `i`.
pub fn read_u16_be(b: &[u8], i: usize) -> (r: u16)
    requires
        i + 2 <= b@.len(),
    ensures
        r == be_u16(b@, i as int),
{
    (b[i] as u16) * 256 + (b[i + 1] as u16)
}

/// Reads a big-endian `u32` at `i`.
pub fn read_u32_be(b: &[u8], i: usize) -> (r: u32)
    requires
        i + 4 <= b@.len(),
    ensures
        r == be_u32(b@, i as int),
{
    (b[i] as u32) * 0x100_0000 + (b[i + 1] as u32) * 0x1_0000 + (b[i + 2] as u32) * 256 + (b[i + 3] as u32)
}


/// The character of a decimal digit.
pub open spec fn digit_char(d: nat) -> char {
    (48 + d) as char
}

/// The decimal representation of a number, most significant digit first.
pub open spec fn decimal(n: nat) -> Seq<char>
    decreases n,
{
    if n < 10 {
        seq![digit_char(n)]
    } else {
        decimal(n / 10).push(digit_char(n % 10))
    }
}

/// Appends one decimal digit.
fn push_digit(s: &mut String, d: u64)
    requires
        d < 10,
    ensures
        final(s)@ == old(s)@.push(digit_char(d as nat)),
{
    match d {
        0 => {
            proof {
                reveal_strlit("0");
            }
            s.append("0");
        },
        1 => {
            proof {
                reveal_strlit("1");
            }
            s.append("1");
        },
        2 => {
            proof {
                reveal_strlit("2");
            }
            s.append("2");
        },
        3 => {
            proof {
                reveal_strlit("3");
            }
            s.append("3");
        },
        4 => {
            proof {
                reveal_strlit("4");
            }
            s.append("4");
        },
        5 => {
            proof {
                reveal_strlit("5");
            }
            s.append("5");
        },
        6 => {
            proof {
                reveal_strlit("6");
            }
            s.append("6");
        },
        7 => {
            proof {
                reveal_strlit("7");
            }
            s.append("7");
        },
        8 => {
            proof {
                reveal_strlit("8");
            }
            s.append("8");
        },
        _ => {
            proof {
                reveal_strlit("9");
            }
            s.append("9");
        },
    }
}

/// Appends the decimal representation of `n`.
pub fn push_decimal(s: &mut String, n: u64)
    ensures
        final(s)@ == old(s)@ + decimal(n as nat),
    decreases n,
{
    if n >= 10 {
        push_decimal(s, n / 10);
    }
    push_digit(s, n % 10);
    assert(final(s)@ =~= old(s)@ + decimal(n as nat));
}

/// Returns the decimal representation of `n`.
pub fn decimal_string(n: u64) -> (r: String)
    ensures
        r@ == decimal(n as nat),
{
    let mut s = String::new();
    push_decimal(&mut s, n);
    assert(s@ =~= decimal(n as nat));
    s
}

} // verus!
