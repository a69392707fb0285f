//! Hexadecimal rendering and parsing used by the W3C trace context.

use vstd::prelude::*;
use vstd::utf8::*;

use crate::text::push_char;

verus! {

broadcast use vstd::utf8::encode_utf8_valid_utf8, vstd::utf8::encode_utf8_decode_utf8;

/// Value of an ASCII hexadecimal digit (either case), if `b` is one.
pub open spec fn hex_digit(b: u8) -> Option<nat> {
    if 48 <= b <= 57 {
        Some((b - 48) as nat)
    } else if 97 <= b <= 102 {
        Some((b - 87) as nat)
    } else if 65 <= b <= 70 {
        Some((b - 55) as nat)
    } else {
        None
    }
}

/// Every byte of `d` is a hexadecimal digit.
pub open spec fn all_hex(d: Seq<u8>) -> bool {
    forall|i: int| 0 <= i < d.len() ==> (#[trigger] hex_digit(d[i])) is Some
}

/// The number written by a sequence of hexadecimal digits.
pub open spec fn hex_value(d: Seq<u8>) -> nat
    decreases d.len(),
{
    if d.len() == 0 {
        0
    } else {
        hex_value(d.drop_last()) * 16 + match hex_digit(d.last()) {
            Some(v) => v,
            None => 0,
        }
    }
}

/// `u8::from_str_radix(s, 16)` on the bytes of `s`: an optional `+`, then
/// at least one hexadecimal digit, with a value below 256.
pub open spec fn parse_hex_u8_spec(s: Seq<u8>) -> Option<u8> {
    let digits = if s.len() > 0 && s[0] == 43u8 { s.skip(1) } else { s };
    if digits.len() > 0 && all_hex(digits) && hex_value(digits) < 256 {
        Some(hex_value(digits) as u8)
    } else {
        None
    }
}

/// Lower-case hexadecimal digit character of `n < 16`.
pub open spec fn hex_char(n: nat) -> char {
    if n < 10 {
        (48 + n) as char
    } else {
        (87 + n) as char
    }
}

/// The two lower-case hexadecimal digits of a byte.
pub open spec fn byte_hex(b: u8) -> Seq<char> {
    seq![hex_char((b / 16) as nat), hex_char((b % 16) as nat)]
}

/// Lower-case hexadecimal rendering of a byte sequence, two digits per byte.
pub open spec fn hex_string(bytes: Seq<u8>) -> Seq<char>
    decreases bytes.len(),
{
    if bytes.len() == 0 {
        seq![]
    } else {
        hex_string(bytes.drop_last()) + byte_hex(bytes.last())
    }
}

proof fn lemma_hex_value_prefix_mono(d: Seq<u8>, k: int, j: int)
    requires
        0 <= k <= j <= d.len(),
    ensures
        hex_value(d.take(k)) <= hex_value(d.take(j)),
    decreases j - k,
{
    if k < j {
        lemma_hex_value_prefix_mono(d, k, j - 1);
        assert(d.take(j).drop_last() =~= d.take(j - 1));
    }
}

fn hex_digit_exec(b: u8) -> (r: Option<u8>)
    ensures
        match hex_digit(b) {
            Some(v) => r == Some(v as u8),
            None => r is None,
        },
{
    if 48 <= b && b <= 57 {
        Some(b - 48)
    } else if 97 <= b && b <= 102 {
        Some(b - 87)
    } else if 65 <= b && b <= 70 {
        Some(b - 55)
    } else {
        None
    }
}

/// `u8::from_str_radix(s, 16)` over bytes.
pub fn parse_hex_u8(s: &[u8]) -> (r: Option<u8>)
    ensures
        r == parse_hex_u8_spec(s@),
{
    let start: usize = if s.len() > 0 && s[0] == 43u8 { 1 } else { 0 };
    let ghost digits = if s@.len() > 0 && s@[0] == 43u8 { s@.skip(1) } else { s@ };
    assert(digits =~= s@.skip(start as int));
    if start >= s.len() {
        return None;
    }
    let mut acc: u32 = 0;
    let mut i: usize = start;
    while i < s.len()
        invariant
            start <= i <= s.len(),
            start < s.len(),
            digits =~= s@.skip(start as int),
            digits == (if s@.len() > 0 && s@[0] == 43u8 { s@.skip(1) } else { s@ }),
            acc as nat == hex_value(digits.take(i - start)),
            acc <= 255,
            all_hex(digits.take(i - start)),
        decreases s.len() - i,
    {
        let d = hex_digit_exec(s[i]);
        match d {
            None => {
                assert(digits[i - start] == s@[i as int]);
                assert(hex_digit(digits[i - start]) is None);
                return None;
            },
            Some(v) => {
                let ghost k = (i - start) as int;
                assert(digits.take(k + 1).drop_last() =~= digits.take(k));
                assert(digits.take(k + 1).last() == s@[i as int]);
                acc = acc * 16 + v as u32;
                assert(all_hex(digits.take(k + 1))) by {
                    assert forall|j: int| 0 <= j < k + 1 implies (#[trigger] hex_digit(
                        digits.take(k + 1)[j])) is Some by {
                        if j < k {
                            assert(digits.take(k + 1)[j] == digits.take(k)[j]);
                        }
                    }
                }
                if acc > 255 {
                    proof {
                        if all_hex(digits) {
                            lemma_hex_value_prefix_mono(digits, k + 1, digits.len() as int);
                            assert(digits.take(digits.len() as int) =~= digits);
                        }
                    }
                    return None;
                }
                i = i + 1;
            },
        }
    }
    assert(digits.take(digits.len() as int) =~= digits);
    Some(acc as u8)
}

fn hex_char_exec(n: u8) -> (c: char)
    requires
        n < 16,
    ensures
        c == hex_char(n as nat),
{
    if n < 10 {
        if n == 0 { '0' } else if n == 1 { '1' } else if n == 2 { '2' } else if n == 3 { '3' }
        else if n == 4 { '4' } else if n == 5 { '5' } else if n == 6 { '6' } else if n == 7 { '7' }
        else if n == 8 { '8' } else { '9' }
    } else {
        if n == 10 { 'a' } else if n == 11 { 'b' } else if n == 12 { 'c' } else if n == 13 { 'd' }
        else if n == 14 { 'e' } else { 'f' }
    }
}

/// Appends the two lower-case hexadecimal digits of `b` (`{:02x}`).
pub fn push_hex_byte(out: &mut String, b: u8)
    ensures
        final(out)@ == old(out)@ + byte_hex(b),
{
    push_char(out, hex_char_exec(b / 16));
    push_char(out, hex_char_exec(b % 16));
    assert(out@ =~= old(out)@ + byte_hex(b));
}

/// Appends the hexadecimal rendering of `bytes`.
pub fn push_hex_bytes(out: &mut String, bytes: &[u8])
    ensures
        final(out)@ == old(out)@ + hex_string(bytes@),
{
    let mut i: usize = 0;
    while i < bytes.len()
        invariant
            i <= bytes.len(),
            out@ == old(out)@ + hex_string(bytes@.take(i as int)),
        decreases bytes.len() - i,
    {
        push_hex_byte(out, bytes[i]);
        proof {
            assert(bytes@.take(i + 1).drop_last() =~= bytes@.take(i as int));
            assert(out@ =~= old(out)@ + hex_string(bytes@.take(i + 1)));
        }
        i = i + 1;
    }
    assert(bytes@.take(bytes@.len() as int) =~= bytes@);
}

/// The two bytes of pair `i` of `b`.
pub open spec fn pair_at(b: Seq<u8>, i: int) -> Seq<u8> {
    b.subrange(2 * i, 2 * i + 2)
}

/// Pair `i` of `b` is a valid hexadecimal byte.
pub open spec fn pair_ok(b: Seq<u8>, i: int) -> bool {
    parse_hex_u8_spec(pair_at(b, i)) is Some
}

/// All pairs before `i` are valid.
pub open spec fn pairs_ok_before(b: Seq<u8>, i: int) -> bool {
    forall|j: int| 0 <= j < i ==> #[trigger] pair_ok(b, j)
}

/// The bytes that the `n` pairs of `b` denote.
pub open spec fn pair_bytes(b: Seq<u8>, n: nat) -> Seq<u8> {
    Seq::new(n, |i: int| parse_hex_u8_spec(pair_at(b, i))->0)
}

/// Slicing pair after pair out of the string with bytes `b` (of length
/// `2n`) hits a position inside a multi-byte character before any pair
/// fails to parse: the point where `&s[2i..2i + 2]` panics.
pub open spec fn id_slicing_panics(b: Seq<u8>, n: nat) -> bool {
    &&& b.len() == 2 * n
    &&& exists|i: int|
        0 <= i < n && pairs_ok_before(b, i) && 2 * i + 2 < b.len() && is_continuation_byte(
            #[trigger] b[2 * i + 2],
        )
}

/// Pair `i` is the first pair of `b` that is not a hexadecimal byte.
pub open spec fn first_bad_pair_is(b: Seq<u8>, i: int) -> bool {
    !pair_ok(b, i) && pairs_ok_before(b, i)
}

/// The index of the first pair of `b` that is not a hexadecimal byte.
pub open spec fn first_bad_pair(b: Seq<u8>, n: nat) -> int {
    choose|i: int| 0 <= i < n && first_bad_pair_is(b, i)
}

proof fn lemma_first_bad_pair_unique(b: Seq<u8>, n: nat, i: int)
    requires
        0 <= i < n,
        first_bad_pair_is(b, i),
    ensures
        first_bad_pair(b, n) == i,
{
    let k = first_bad_pair(b, n);
    assert(0 <= k < n && first_bad_pair_is(b, k));
    if k < i {
        assert(pair_ok(b, k));
    } else if i < k {
        assert(pair_ok(b, i));
    }
}

/// Reads a fixed-size identifier written as `n` hexadecimal byte pairs.
/// `Err(None)` when the byte length is not `2n`; `Err(Some(text))` with the
/// text of the first pair that is not a hexadecimal byte.
pub fn parse_hex_id(s: &str, n: usize) -> (r: Result<Vec<u8>, Option<String>>)
    requires
        n <= usize::MAX / 2,
        !id_slicing_panics(encode_utf8(s@), n as nat),
    ensures
        ({
            let b = encode_utf8(s@);
            &&& b.len() != 2 * n ==> r == Err::<Vec<u8>, Option<String>>(None)
            &&& (b.len() == 2 * n && pairs_ok_before(b, n as int)) ==> (r matches Ok(v) && v@
                == pair_bytes(b, n as nat))
            &&& (b.len() == 2 * n && !pairs_ok_before(b, n as int)) ==> (r matches Err(Some(t))
                && t@ == decode_utf8(pair_at(b, first_bad_pair(b, n as nat))))
        }),
{
    let ghost b = encode_utf8(s@);
    if s.as_bytes().len() != 2 * n {
        return Err(None);
    }
    let mut rest: &str = s;
    let mut out: Vec<u8> = Vec::new();
    let mut i: usize = 0;
    while i < n
        invariant
            b == encode_utf8(s@),
            b.len() == 2 * n,
            !id_slicing_panics(b, n as nat),
            i <= n,
            encode_utf8(rest@) == b.subrange(2 * i as int, b.len() as int),
            pairs_ok_before(b, i as int),
            out@ == pair_bytes(b, i as nat),
        decreases n - i,
    {
        let ghost rb = encode_utf8(rest@);
        assert(valid_utf8(rb));
        proof {
            if 2 < rb.len() {
                vstd::utf8::is_char_boundary_iff_not_is_continuation_byte(rb, 2);
                assert(rb[2] == b[2 * i + 2]);
                if is_continuation_byte(b[2 * i + 2]) {
                    assert(id_slicing_panics(b, n as nat));
                }
            } else {
                vstd::utf8::is_char_boundary_start_end_of_seq(rb);
            }
        }
        let (pair, tail) = rest.split_at(2);
        assert(encode_utf8(pair@) =~= pair_at(b, i as int));
        let pb = pair.as_bytes();
        match parse_hex_u8(pb) {
            None => {
                let t = pair.to_string();
                proof {
                    assert(!pair_ok(b, i as int));
                    assert(first_bad_pair_is(b, i as int));
                    lemma_first_bad_pair_unique(b, n as nat, i as int);
                    assert(decode_utf8(encode_utf8(pair@)) == pair@);
                    assert(!pairs_ok_before(b, n as int));
                }
                return Err(Some(t));
            },
            Some(v) => {
                out.push(v);
                proof {
                    assert(pair_ok(b, i as int));
                    assert(pairs_ok_before(b, i + 1)) by {
                        assert forall|j: int| 0 <= j < i + 1 implies #[trigger] pair_ok(b, j) by {
                        }
                    }
                    assert(out@ =~= pair_bytes(b, (i + 1) as nat));
                    assert(encode_utf8(tail@) =~= b.subrange(2 * (i + 1) as int, b.len() as int));
                }
                rest = tail;
                i = i + 1;
            },
        }
    }
    Ok(out)
}

} // verus!
