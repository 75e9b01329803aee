//! Binary P6 PPM images, the format of the original block and panel art: a text header of
//! whitespace-separated tokens (with `#` comments) giving the magic, the width, the height and
//! the maximum sample value, one whitespace byte, then three bytes per pixel, row by row.

use vstd::prelude::*;
use vstd::utf8::valid_utf8;

verus! {

/// An opaque decoded picture: width, height and row-major RGBA pixels.
#[derive(Debug, Clone, PartialEq, Eq)]
pub struct PpmImage {
    /// Pixel columns.
    pub width: u32,
    /// Pixel rows.
    pub height: u32,
    /// Row-major pixels, red, green, blue and a fully opaque alpha.
    pub pixels: Vec<[u8; 4]>,
}

/// Why a PPM file is refused.
#[derive(Debug, Clone, Copy, PartialEq, Eq, Structural)]
pub enum PpmError {
    /// A header token was not UTF-8 text.
    TokenNotUtf8,
    /// The file is not a binary `P6` PPM.
    NotP6,
    /// The width token is not a `u32`.
    BadWidth,
    /// The height token is not a `u32`.
    BadHeight,
    /// The maximum sample value token is not a `u32`.
    BadMaxValue,
    /// The maximum sample value is not 255.
    UnsupportedMaxValue,
    /// Fewer pixel bytes follow the header than the dimensions need.
    TooFewPixelBytes,
}

/// ASCII whitespace as `u8::is_ascii_whitespace` has it: space, tab, line feed, form feed and
/// carriage return.
pub open spec fn is_blank(c: u8) -> bool {
    c == 32 || c == 9 || c == 10 || c == 12 || c == 13
}

/// Where the next token starts at or after `i`: whitespace is skipped, and so is a `#` comment
/// up to its line end.
pub open spec fn token_start(b: Seq<u8>, i: int, in_comment: bool) -> int
    decreases b.len() - i,
{
    if i < 0 || i >= b.len() {
        i
    } else if in_comment {
        token_start(b, i + 1, b[i] != 10)
    } else if is_blank(b[i]) {
        token_start(b, i + 1, false)
    } else if b[i] == 35 {
        token_start(b, i + 1, true)
    } else {
        i
    }
}

/// Where the token starting at `i` ends: at the next whitespace byte or the end.
pub open spec fn token_end(b: Seq<u8>, i: int) -> int
    decreases b.len() - i,
{
    if i < 0 || i >= b.len() || is_blank(b[i]) {
        i
    } else {
        token_end(b, i + 1)
    }
}

/// The bounds of the `n`-th header token, counting from zero.
pub open spec fn token_bounds(b: Seq<u8>, n: nat) -> (int, int)
    decreases n,
{
    let from: int = if n == 0 { 0 } else { token_bounds(b, (n - 1) as nat).1 };
    let start = token_start(b, from, false);
    (start, token_end(b, start))
}

/// The bytes of the `n`-th header token.
pub open spec fn token(b: Seq<u8>, n: nat) -> Seq<u8> {
    b.subrange(token_bounds(b, n).0, token_bounds(b, n).1)
}

/// Whether a byte is an ASCII digit.
pub open spec fn is_digit(c: u8) -> bool {
    48 <= c <= 57
}

/// The number the decimal digits of `d` spell.
pub open spec fn digits_value(d: Seq<u8>) -> nat
    decreases d.len(),
{
    if d.len() == 0 {
        0
    } else {
        digits_value(d.drop_last()) * 10 + (d.last() - 48) as nat
    }
}

/// A number token without its optional leading `+`.
pub open spec fn unsigned_part(t: Seq<u8>) -> Seq<u8> {
    if t.len() > 0 && t[0] == 43 {
        t.drop_first()
    } else {
        t
    }
}

/// Whether every byte is an ASCII digit.
pub open spec fn all_digits(d: Seq<u8>) -> bool {
    forall|i: int| 0 <= i < d.len() ==> #[trigger] is_digit(d[i])
}

/// A token read as `u32` the way `str::parse::<u32>` reads it: an optional `+`, then one or more
/// decimal digits whose value fits.
pub open spec fn u32_token(t: Seq<u8>) -> Option<u32> {
    let d = unsigned_part(t);
    if d.len() == 0 || !all_digits(d) || digits_value(d) > u32::MAX {
        None
    } else {
        Some(digits_value(d) as u32)
    }
}

/// The first header token that is not UTF-8, if one of the first `n` is not.
pub open spec fn bad_token_before(b: Seq<u8>, n: nat) -> bool
    decreases n,
{
    n > 0 && (bad_token_before(b, (n - 1) as nat) || !valid_utf8(token(b, (n - 1) as nat)))
}

/// Where the pixel bytes start: one whitespace byte after the fourth token is skipped.
pub open spec fn pixel_start(b: Seq<u8>) -> int {
    let e = token_bounds(b, 3).1;
    if e < b.len() && is_blank(b[e]) { e + 1 } else { e }
}

/// What decoding `b` gives: the first failure in reading order, else the picture whose pixel
/// `k` is the three bytes at `pixel_start + 3k` with an opaque alpha.
pub open spec fn ppm_decoded(b: Seq<u8>, r: Result<PpmImage, PpmError>) -> bool {
    if bad_token_before(b, 1) {
        r == Err::<PpmImage, PpmError>(PpmError::TokenNotUtf8)
    } else if token(b, 0) != seq![80u8, 54u8] {
        r == Err::<PpmImage, PpmError>(PpmError::NotP6)
    } else if bad_token_before(b, 2) {
        r == Err::<PpmImage, PpmError>(PpmError::TokenNotUtf8)
    } else if u32_token(token(b, 1)) is None {
        r == Err::<PpmImage, PpmError>(PpmError::BadWidth)
    } else if bad_token_before(b, 3) {
        r == Err::<PpmImage, PpmError>(PpmError::TokenNotUtf8)
    } else if u32_token(token(b, 2)) is None {
        r == Err::<PpmImage, PpmError>(PpmError::BadHeight)
    } else if bad_token_before(b, 4) {
        r == Err::<PpmImage, PpmError>(PpmError::TokenNotUtf8)
    } else if u32_token(token(b, 3)) is None {
        r == Err::<PpmImage, PpmError>(PpmError::BadMaxValue)
    } else if u32_token(token(b, 3)) != Some(255u32) {
        r == Err::<PpmImage, PpmError>(PpmError::UnsupportedMaxValue)
    } else {
        let w = u32_token(token(b, 1))->0;
        let h = u32_token(token(b, 2))->0;
        let start = pixel_start(b);
        if b.len() - start < 3 * w * h {
            r == Err::<PpmImage, PpmError>(PpmError::TooFewPixelBytes)
        } else {
            r matches Ok(img) && img.width == w && img.height == h && img.pixels@.len() == w * h && forall|k: int|
                0 <= k < w * h ==> #[trigger] img.pixels@[k] == [b[start + 3 * k], b[start + 3 * k + 1], b[start + 3 * k + 2], 255u8]
        }
    }
}

/// `std::str::from_utf8`, asked only whether it succeeds.
/// Claimed: it succeeds exactly on valid UTF-8, as its documentation states.
#[verifier::external_body]
fn is_utf8(bytes: &[u8]) -> (r: bool)
    ensures
        r == valid_utf8(bytes@),
{
    std::str::from_utf8(bytes).is_ok()
}

fn blank(c: u8) -> (r: bool)
    ensures
        r == is_blank(c),
{
    c == 32 || c == 9 || c == 10 || c == 12 || c == 13
}

/// Moves from `from` to the start of the next token, then to its end; gives both.
fn next_token(b: &[u8], from: usize) -> (r: (usize, usize))
    requires
        from <= b@.len(),
    ensures
        r.0 as int == token_start(b@, from as int, false),
        r.1 as int == token_end(b@, r.0 as int),
        from <= r.0 <= r.1 <= b@.len(),
{
    let mut i = from;
    let mut in_comment = false;
    while i < b.len() && (in_comment || blank(b[i]) || b[i] == 35)
        invariant
            from <= i <= b@.len(),
            token_start(b@, i as int, in_comment) == token_start(b@, from as int, false),
        decreases b@.len() - i,
    {
        if in_comment {
            in_comment = b[i] != 10;
        } else if b[i] == 35 {
            in_comment = true;
        }
        i = i + 1;
    }
    let start = i;
    while i < b.len() && !blank(b[i])
        invariant
            start <= i <= b@.len(),
            token_end(b@, i as int) == token_end(b@, start as int),
        decreases b@.len() - i,
    {
        i = i + 1;
    }
    (start, i)
}

proof fn lemma_digits_prefix(d: Seq<u8>, k: int)
    requires
        0 <= k < d.len(),
    ensures
        d.take(k + 1).drop_last() == d.take(k),
        d.take(k + 1).last() == d[k],
{
    assert(d.take(k + 1).drop_last() =~= d.take(k));
}

/// Reads `b[start..end]` as `u32`, as `str::parse::<u32>` would.
fn parse_u32(b: &[u8], start: usize, end: usize) -> (r: Option<u32>)
    requires
        start <= end <= b@.len(),
    ensures
        r == u32_token(b@.subrange(start as int, end as int)),
{
    let ghost t = b@.subrange(start as int, end as int);
    let mut i = start;
    if i < end && b[i] == 43 {
        i = i + 1;
    }
    let ghost d = b@.subrange(i as int, end as int);
    assert(d =~= unsigned_part(t));
    if i == end {
        return None;
    }
    let first = i;
    let mut value: u64 = 0;
    while i < end
        invariant
            first <= i <= end <= b@.len(),
            d == b@.subrange(first as int, end as int),
            t == b@.subrange(start as int, end as int),
            d == unsigned_part(t),
            forall|j: int| 0 <= j < i - first ==> #[trigger] is_digit(d[j]),
            value as int == digits_value(d.take(i - first)),
            value <= u32::MAX,
        decreases end - i,
    {
        let c = b[i];
        if c < 48 || c > 57 {
            proof {
                assert(!is_digit(d[i - first]));
                assert(!all_digits(d));
            }
            return None;
        }
        proof {
            lemma_digits_prefix(d, i - first);
        }
        let next = value * 10 + (c - 48) as u64;
        if next > u32::MAX as u64 {
            proof {
                assert(d[i - first] == c);
                assert(digits_value(d.take(i - first + 1)) == next);
                lemma_digits_grow(d, i - first + 1);
            }
            return None;
        }
        value = next;
        i = i + 1;
    }
    assert(d.take(end - first) =~= d);
    Some(value as u32)
}

/// A digit string's value is at least the value of each of its prefixes.
proof fn lemma_digits_grow(d: Seq<u8>, k: int)
    requires
        0 <= k <= d.len(),
    ensures
        digits_value(d.take(k)) <= digits_value(d),
    decreases d.len() - k,
{
    if k < d.len() {
        lemma_digits_grow(d, k + 1);
        lemma_digits_prefix(d, k);
    } else {
        assert(d.take(k) =~= d);
    }
}

/// Decodes a binary P6 PPM with a maximum sample value of 255 into opaque RGBA pixels.
pub fn decode_ppm(b: &[u8]) -> (r: Result<PpmImage, PpmError>)
    ensures
        ppm_decoded(b@, r),
{
    proof {
        reveal_with_fuel(token_bounds, 5);
        reveal_with_fuel(bad_token_before, 5);
    }
    let (s0, e0) = next_token(b, 0);
    assert(b@.subrange(s0 as int, e0 as int) == token(b@, 0));
    if !is_utf8(&slice_of(b, s0, e0)) {
        return Err(PpmError::TokenNotUtf8);
    }
    if !(e0 - s0 == 2 && b[s0] == 80 && b[s0 + 1] == 54) {
        proof {
            if token(b@, 0) == seq![80u8, 54u8] {
                assert(token(b@, 0)[0] == b@[s0 as int]);
                assert(token(b@, 0)[1] == b@[s0 + 1]);
            }
        }
        return Err(PpmError::NotP6);
    }
    assert(token(b@, 0) =~= seq![80u8, 54u8]);
    let (s1, e1) = next_token(b, e0);
    assert(b@.subrange(s1 as int, e1 as int) == token(b@, 1));
    if !is_utf8(&slice_of(b, s1, e1)) {
        return Err(PpmError::TokenNotUtf8);
    }
    let width = match parse_u32(b, s1, e1) {
        Some(w) => w,
        None => {
            return Err(PpmError::BadWidth);
        },
    };
    let (s2, e2) = next_token(b, e1);
    assert(b@.subrange(s2 as int, e2 as int) == token(b@, 2));
    if !is_utf8(&slice_of(b, s2, e2)) {
        return Err(PpmError::TokenNotUtf8);
    }
    let height = match parse_u32(b, s2, e2) {
        Some(h) => h,
        None => {
            return Err(PpmError::BadHeight);
        },
    };
    let (s3, e3) = next_token(b, e2);
    assert(b@.subrange(s3 as int, e3 as int) == token(b@, 3));
    if !is_utf8(&slice_of(b, s3, e3)) {
        return Err(PpmError::TokenNotUtf8);
    }
    let max_value = match parse_u32(b, s3, e3) {
        Some(m) => m,
        None => {
            return Err(PpmError::BadMaxValue);
        },
    };
    if max_value != 255 {
        return Err(PpmError::UnsupportedMaxValue);
    }
    let start: usize = if e3 < b.len() && blank(b[e3]) {
        e3 + 1
    } else {
        e3
    };
    assert(0 <= width * height <= 0xFFFF_FFFF * 0xFFFF_FFFF) by (nonlinear_arith)
        requires
            width <= 0xFFFF_FFFFu32,
            height <= 0xFFFF_FFFFu32,
    ;
    let count: u64 = width as u64 * height as u64;
    assert(3 * width * height == 3 * (width * height)) by (nonlinear_arith);
    let available: usize = b.len() - start;
    if (available as u128) < 3 * (count as u128) {
        return Err(PpmError::TooFewPixelBytes);
    }
    assert(b@.len() - start >= 3 * count);
    let total: usize = b.len();
    let mut pixels: Vec<[u8; 4]> = Vec::new();
    let mut k: usize = 0;
    while (k as u64) < count
        invariant
            start as int == pixel_start(b@),
            start <= b@.len(),
            available as int == b@.len() - start,
            total as int == b@.len(),
            count == width * height,
            b@.len() - start >= 3 * count,
            k <= count,
            pixels@.len() == k,
            forall|j: int|
                0 <= j < k ==> #[trigger] pixels@[j] == [b@[start + 3 * j], b@[start + 3 * j + 1], b@[start + 3 * j + 2], 255u8],
        decreases count - k,
    {
        assert(3 * k + 3 <= 3 * count);
        let index = start + 3 * k;
        pixels.push([b[index], b[index + 1], b[index + 2], 255]);
        k = k + 1;
    }
    Ok(PpmImage { width, height, pixels })
}

fn slice_of(b: &[u8], start: usize, end: usize) -> (r: Vec<u8>)
    requires
        start <= end <= b@.len(),
    ensures
        r@ == b@.subrange(start as int, end as int),
{
    let mut r: Vec<u8> = Vec::new();
    let mut i = start;
    while i < end
        invariant
            start <= i <= end <= b@.len(),
            r@ == b@.subrange(start as int, i as int),
        decreases end - i,
    {
        r.push(b[i]);
        assert(b@.subrange(start as int, i + 1) =~= b@.subrange(start as int, i as int).push(b@[i as int]));
        i = i + 1;
    }
    r
}

/// One colour sample reduced to the five levels of the original art: the sample's quarter of
/// the range, rounded down, scaled back to the range.
pub fn quantize_ppm_component(value: u8) -> (r: u8)
    ensures
        r == (value * 4 / 255) * 255 / 4,
{
    let bucket: u16 = value as u16 * 4 / 255;
    (bucket * 255 / 4) as u8
}

/// Whether a theme colour is `#` followed by six or eight hexadecimal digits.
pub open spec fn is_hex_color(s: Seq<char>) -> bool {
    s.len() > 0 && s[0] == '#' && (s.len() == 7 || s.len() == 9) && forall|i: int|
        1 <= i < s.len() ==> #[trigger] is_hex_digit(s[i])
}

/// Whether a character is an ASCII hexadecimal digit.
pub open spec fn is_hex_digit(c: char) -> bool {
    ('0' <= c <= '9') || ('a' <= c <= 'f') || ('A' <= c <= 'F')
}

/// Checks a theme colour: `#` and six or eight hexadecimal digits.
pub fn valid_hex_color(value: &str) -> (r: bool)
    ensures
        r == is_hex_color(value@),
{
    let chars = crate::text::text_chars(value);
    if chars.len() == 0 || chars[0] != '#' || (chars.len() != 7 && chars.len() != 9) {
        return false;
    }
    let mut i: usize = 1;
    while i < chars.len()
        invariant
            1 <= i <= chars@.len(),
            chars@ == value@,
            forall|j: int| 1 <= j < i ==> #[trigger] is_hex_digit(chars@[j]),
        decreases chars@.len() - i,
    {
        let c = chars[i];
        if !(('0' <= c && c <= '9') || ('a' <= c && c <= 'f') || ('A' <= c && c <= 'F')) {
            assert(!is_hex_digit(value@[i as int]));
            return false;
        }
        i = i + 1;
    }
    true
}

} // verus!
