//! Hex text: the `0x` prefix, decoding of numeric and byte arguments, and encoding.
use vstd::prelude::*;
use vstd::string::StringSliceAdditionalSpecFns;

use crate::hasher_error::CKBFSError;

verus! {

/// Whether `s` begins with the two characters `0x`.
pub open spec fn starts_0x(s: Seq<u8>) -> bool {
    s.len() >= 2 && s[0] == 0x30u8 && s[1] == 0x78u8
}

/// `s` without a leading `0x`.
pub open spec fn without_0x(s: Seq<u8>) -> Seq<u8> {
    if starts_0x(s) {
        s.subrange(2, s.len() as int)
    } else {
        s
    }
}

/// `content_str` without a leading `0x`, or unchanged where it has none.
pub fn strip_prefix_0x(content_str: &str) -> (r: &str)
    ensures
        r.spec_bytes() == without_0x(content_str.spec_bytes()),
{
    let b = content_str.as_bytes();
    if b.len() >= 2 && b[0] == 0x30u8 && b[1] == 0x78u8 {
        proof {
            let bytes = content_str.spec_bytes();
            vstd::utf8::encode_utf8_valid_utf8(content_str@);
            reveal_with_fuel(vstd::utf8::valid_utf8, 2);
            reveal_with_fuel(vstd::utf8::is_char_boundary, 3);
            let rest = vstd::utf8::pop_first_scalar(bytes);
            assert(rest =~= bytes.subrange(1, bytes.len() as int));
            assert(vstd::utf8::is_char_boundary(bytes, 2));
        }
        let (_, rest) = content_str.split_at(2);
        rest
    } else {
        content_str
    }
}

/// Whether `c` is an ASCII hex digit, in either case.
pub open spec fn is_hex_digit(c: u8) -> bool {
    (0x30 <= c <= 0x39) || (0x41 <= c <= 0x46) || (0x61 <= c <= 0x66)
}

/// The value of the hex digit `c`.
pub open spec fn hex_value(c: u8) -> int {
    if c <= 0x39 {
        c - 0x30
    } else if c <= 0x46 {
        c - 0x37
    } else {
        c - 0x57
    }
}

/// Whether the first `2 * n` characters of `src` can be decoded into `n` bytes: `src` is
/// of even length, holds at least that many characters, and all of them are hex digits.
pub open spec fn hex_decodable(src: Seq<u8>, n: int) -> bool {
    &&& src.len() >= 2 * n
    &&& src.len() % 2 == 0
    &&& forall|i: int| 0 <= i < src.len() ==> is_hex_digit(#[trigger] src[i])
}

/// The `n` bytes written by the first `2 * n` hex digits of `src`.
pub open spec fn hex_decoded(src: Seq<u8>, n: nat) -> Seq<u8> {
    Seq::new(n, |i: int| (hex_value(src[2 * i]) * 16 + hex_value(src[2 * i + 1])) as u8)
}

/// Relies on `faster_hex::hex_decode`: it fills `n` bytes from the first `2 * n`
/// characters when `src` is of even length, at least `2 * n` long and all hex digits,
/// and fails otherwise.
#[verifier::external_body]
pub(crate) fn hex_decode_bytes(src: &[u8], n: usize) -> (r: Option<Vec<u8>>)
    ensures
        r is Some <==> hex_decodable(src@, n as int),
        r is Some ==> r->Some_0@ == hex_decoded(src@, n as nat),
{
    let mut dst = std::vec![0u8; n];
    match faster_hex::hex_decode(src, &mut dst) {
        Ok(()) => Some(dst),
        Err(_) => None,
    }
}

/// `256` to the power `n`.
pub open spec fn pow256(n: nat) -> int
    decreases n,
{
    if n == 0 {
        1
    } else {
        256 * pow256((n - 1) as nat)
    }
}

/// The little-endian value of the bytes `b`.
pub open spec fn le_value(b: Seq<u8>) -> int
    decreases b.len(),
{
    if b.len() == 0 {
        0
    } else {
        b[0] + 256 * le_value(b.drop_first())
    }
}

/// Whether `c` is an ASCII decimal digit.
pub open spec fn is_decimal_digit(c: u8) -> bool {
    0x30 <= c <= 0x39
}

/// Whether `s` is one or more decimal digits.
pub open spec fn is_decimal(s: Seq<u8>) -> bool {
    s.len() > 0 && forall|i: int| 0 <= i < s.len() ==> is_decimal_digit(#[trigger] s[i])
}

/// The value of the decimal digits `s`.
pub open spec fn decimal_value(s: Seq<u8>) -> int
    decreases s.len(),
{
    if s.len() == 0 {
        0
    } else {
        decimal_value(s.drop_last()) * 10 + (s.last() - 0x30)
    }
}

/// `s` without one leading `+`.
pub open spec fn without_plus(s: Seq<u8>) -> Seq<u8> {
    if s.len() > 0 && s[0] == 0x2bu8 {
        s.drop_first()
    } else {
        s
    }
}

/// What a numeric argument of `width` bytes stands for: `0x` and the hex digits of its
/// little-endian bytes, or else a decimal number (an optional `+`, then digits) that fits
/// in `width` bytes.
pub open spec fn arg_number(arg: Seq<u8>, width: nat) -> Option<int> {
    let digits = without_0x(arg);
    if starts_0x(arg) {
        if hex_decodable(digits, width as int) {
            Some(le_value(hex_decoded(digits, width)))
        } else {
            None
        }
    } else {
        let d = without_plus(arg);
        if is_decimal(d) && decimal_value(d) < pow256(width) {
            Some(decimal_value(d))
        } else {
            None
        }
    }
}

proof fn lemma_decimal_prefix(s: Seq<u8>, n: int)
    requires
        0 <= n <= s.len(),
        forall|i: int| 0 <= i < s.len() ==> is_decimal_digit(#[trigger] s[i]),
    ensures
        0 <= decimal_value(s.subrange(0, n)) <= decimal_value(s),
    decreases s.len() - n,
{
    if n < s.len() {
        lemma_decimal_prefix(s, n + 1);
        assert(s.subrange(0, n + 1).drop_last() =~= s.subrange(0, n));
    } else {
        assert(s.subrange(0, n) =~= s);
        lemma_decimal_nonneg(s);
    }
}

proof fn lemma_decimal_nonneg(s: Seq<u8>)
    requires
        forall|i: int| 0 <= i < s.len() ==> is_decimal_digit(#[trigger] s[i]),
    ensures
        decimal_value(s) >= 0,
    decreases s.len(),
{
    if s.len() > 0 {
        lemma_decimal_nonneg(s.drop_last());
    }
}

/// Reads the decimal digits `s` as a number no larger than `max`.
fn parse_decimal(s: &[u8], max: u64) -> (r: Option<u64>)
    requires
        max >= 9,
    ensures
        match r {
            Some(v) => is_decimal(s@) && decimal_value(s@) <= max && v == decimal_value(s@),
            None => !(is_decimal(s@) && decimal_value(s@) <= max),
        },
{
    if s.len() == 0 {
        return None;
    }
    let mut v: u64 = 0;
    let mut i: usize = 0;
    while i < s.len()
        invariant
            i <= s@.len(),
            forall|k: int| 0 <= k < i ==> is_decimal_digit(#[trigger] s@[k]),
            v == decimal_value(s@.subrange(0, i as int)),
            v <= max,
            max >= 9,
        decreases s@.len() - i,
    {
        let c = s[i];
        if c < 0x30u8 || c > 0x39u8 {
            return None;
        }
        let d = (c - 0x30u8) as u64;
        assert(s@.subrange(0, i + 1).drop_last() =~= s@.subrange(0, i as int));
        if v > (max - d) / 10 {
            proof {
                assert(v * 10 + d > max) by (nonlinear_arith)
                    requires
                        v > (max - d) / 10,
                        d <= max || d > max,
                        0 <= d,
                ;
                if is_decimal(s@) {
                    lemma_decimal_prefix(s@, i + 1);
                }
            }
            return None;
        }
        proof {
            assert(v * 10 + d <= max) by (nonlinear_arith)
                requires
                    v <= (max - d) / 10,
                    d <= max,
            ;
        }
        v = v * 10 + d;
        i = i + 1;
    }
    assert(s@.subrange(0, s@.len() as int) =~= s@);
    Some(v)
}

proof fn lemma_le_value_bound(b: Seq<u8>)
    ensures
        0 <= le_value(b) < pow256(b.len()),
    decreases b.len(),
{
    if b.len() > 0 {
        lemma_le_value_bound(b.drop_first());
        let rest = le_value(b.drop_first());
        let p = pow256((b.len() - 1) as nat);
        assert(b[0] + 256 * rest < 256 * p) by (nonlinear_arith)
            requires
                0 <= b[0] < 256,
                0 <= rest < p,
        ;
    }
}

/// Reads the little-endian value of `b`, at most eight bytes.
fn le_bytes_value(b: &Vec<u8>) -> (r: u64)
    requires
        b@.len() <= 8,
    ensures
        r == le_value(b@),
{
    let mut v: u64 = 0;
    let mut i: usize = b.len();
    while i > 0
        invariant
            i <= b@.len() <= 8,
            v == le_value(b@.subrange(i as int, b@.len() as int)),
        decreases i,
    {
        let ghost tail = b@.subrange(i as int, b@.len() as int);
        proof {
            lemma_le_value_bound(tail);
            assert(pow256(tail.len()) <= pow256(7)) by {
                lemma_pow256_mono(tail.len(), 7);
            }
            reveal_with_fuel(pow256, 9);
            assert(pow256(7) == 0x100000000000000);
        }
        i = i - 1;
        let ghost next = b@.subrange(i as int, b@.len() as int);
        assert(next.drop_first() =~= tail);
        v = b[i] as u64 + 256 * v;
    }
    assert(b@.subrange(0, b@.len() as int) =~= b@);
    v
}

proof fn lemma_pow256_mono(m: nat, n: nat)
    requires
        m <= n,
    ensures
        pow256(m) <= pow256(n),
    decreases n,
{
    if m < n {
        lemma_pow256_mono(m, (n - 1) as nat);
        lemma_pow256_pos((n - 1) as nat);
    }
}

proof fn lemma_pow256_pos(n: nat)
    ensures
        pow256(n) >= 1,
    decreases n,
{
    if n > 0 {
        lemma_pow256_pos((n - 1) as nat);
    }
}

/// Decodes a numeric argument of `width` bytes (`0x` and little-endian hex digits, or a
/// decimal number).
fn arg_to_number(arg: &[u8], width: usize) -> (r: Result<u64, CKBFSError>)
    requires
        width == 1 || width == 4 || width == 8,
    ensures
        arg_number(arg@, width as nat) is Some ==> r == Ok::<u64, CKBFSError>(
            arg_number(arg@, width as nat)->Some_0 as u64,
        ),
        arg_number(arg@, width as nat) is None ==> r == Err::<u64, CKBFSError>(
            CKBFSError::Encoding,
        ),
{
    if !(arg.len() >= 2 && arg[0] == 0x30u8 && arg[1] == 0x78u8) {
        let max: u64 = if width == 1 {
            0xff
        } else if width == 4 {
            0xffff_ffff
        } else {
            0xffff_ffff_ffff_ffff
        };
        let start: usize = if arg.len() > 0 && arg[0] == 0x2bu8 {
            1
        } else {
            0
        };
        let digits = slice_from(arg, start);
        assert(start == 1 ==> digits@ =~= arg@.drop_first());
        assert(start == 0 ==> digits@ =~= arg@);
        proof {
            reveal_with_fuel(pow256, 9);
        }
        return match parse_decimal(digits.as_slice(), max) {
            Some(v) => Ok(v),
            None => Err(CKBFSError::Encoding),
        };
    }
    let digits = slice_from(arg, 2);
    match hex_decode_bytes(digits.as_slice(), width) {
        Some(bytes) => {
            proof {
                lemma_le_value_bound(bytes@);
                lemma_pow256_mono(bytes@.len(), 8);
                reveal_with_fuel(pow256, 9);
            assert(pow256(8) == 0x1_0000_0000_0000_0000);
            }
            Ok(le_bytes_value(&bytes))
        },
        None => Err(CKBFSError::Encoding),
    }
}

/// The bytes of `s` from `start` on.
pub fn slice_from(s: &[u8], start: usize) -> (r: Vec<u8>)
    requires
        start <= s@.len(),
    ensures
        r@ == s@.subrange(start as int, s@.len() as int),
{
    let mut out: Vec<u8> = Vec::new();
    let mut i: usize = start;
    while i < s.len()
        invariant
            start <= i <= s@.len(),
            out@ == s@.subrange(start as int, i as int),
        decreases s@.len() - i,
    {
        out.push(s[i]);
        i = i + 1;
        assert(out@ =~= s@.subrange(start as int, i as int));
    }
    out
}

/// Decodes a one-byte argument.
pub fn arg_to_u8(arg: &[u8]) -> (r: Result<u8, CKBFSError>)
    ensures
        arg_number(arg@, 1) is Some ==> r == Ok::<u8, CKBFSError>(arg_number(arg@, 1)->Some_0 as u8),
        arg_number(arg@, 1) is Some ==> 0 <= arg_number(arg@, 1)->Some_0 <= 255,
        arg_number(arg@, 1) is None ==> r == Err::<u8, CKBFSError>(CKBFSError::Encoding),
{
    let v = arg_to_number(arg, 1)?;
    proof {
        lemma_arg_number_bound(arg@, 1);
        reveal_with_fuel(pow256, 9);
            assert(pow256(1) == 256);
    }
    Ok(v as u8)
}

/// Decodes a four-byte argument.
pub fn arg_to_u32(arg: &[u8]) -> (r: Result<u32, CKBFSError>)
    ensures
        arg_number(arg@, 4) is Some ==> r == Ok::<u32, CKBFSError>(arg_number(arg@, 4)->Some_0 as u32),
        arg_number(arg@, 4) is Some ==> 0 <= arg_number(arg@, 4)->Some_0 <= 0xffff_ffff,
        arg_number(arg@, 4) is None ==> r == Err::<u32, CKBFSError>(CKBFSError::Encoding),
{
    let v = arg_to_number(arg, 4)?;
    proof {
        lemma_arg_number_bound(arg@, 4);
        reveal_with_fuel(pow256, 9);
            assert(pow256(4) == 0x1_0000_0000);
    }
    Ok(v as u32)
}

/// Decodes an eight-byte argument.
pub fn arg_to_u64(arg: &[u8]) -> (r: Result<u64, CKBFSError>)
    ensures
        arg_number(arg@, 8) is Some ==> r == Ok::<u64, CKBFSError>(arg_number(arg@, 8)->Some_0 as u64),
        arg_number(arg@, 8) is Some ==> 0 <= arg_number(arg@, 8)->Some_0 <= 0xffff_ffff_ffff_ffff,
        arg_number(arg@, 8) is None ==> r == Err::<u64, CKBFSError>(CKBFSError::Encoding),
{
    proof {
        if arg_number(arg@, 8) is Some {
            lemma_arg_number_bound(arg@, 8);
            reveal_with_fuel(pow256, 9);
            assert(pow256(8) == 0x1_0000_0000_0000_0000);
        }
    }
    arg_to_number(arg, 8)
}

proof fn lemma_arg_number_bound(arg: Seq<u8>, width: nat)
    requires
        arg_number(arg, width) is Some,
    ensures
        0 <= arg_number(arg, width)->Some_0 < pow256(width),
{
    if starts_0x(arg) {
        let d = hex_decoded(without_0x(arg), width);
        lemma_le_value_bound(d);
    } else {
        lemma_decimal_nonneg(without_plus(arg));
    }
}

/// What a byte-string argument stands for: `0x` and the hex digits of its bytes.
pub open spec fn arg_bytes(arg: Seq<u8>) -> Option<Seq<u8>> {
    let digits = without_0x(arg);
    if starts_0x(arg) && hex_decodable(digits, (digits.len() / 2) as int) {
        Some(hex_decoded(digits, (digits.len() / 2) as nat))
    } else {
        None
    }
}

/// Decodes a byte-string argument.
pub fn arg_to_vec_u8(arg: &[u8]) -> (r: Result<Vec<u8>, CKBFSError>)
    ensures
        arg_bytes(arg@) is Some ==> r is Ok && r->Ok_0@ == arg_bytes(arg@)->Some_0,
        arg_bytes(arg@) is None ==> r == Err::<Vec<u8>, CKBFSError>(CKBFSError::Encoding),
{
    if !(arg.len() >= 2 && arg[0] == 0x30u8 && arg[1] == 0x78u8) {
        return Err(CKBFSError::Encoding);
    }
    let digits = slice_from(arg, 2);
    match hex_decode_bytes(digits.as_slice(), digits.len() / 2) {
        Some(bytes) => Ok(bytes),
        None => Err(CKBFSError::Encoding),
    }
}

/// The lower-case hex digit of `n`, for `n < 16`.
pub open spec fn lower_hex_digit(n: int) -> u8 {
    if n < 10 {
        (0x30 + n) as u8
    } else {
        (0x57 + n) as u8
    }
}

/// The lower-case hex digits of `data`, two for each byte.
pub open spec fn lower_hex(data: Seq<u8>) -> Seq<u8>
    decreases data.len(),
{
    if data.len() == 0 {
        Seq::empty()
    } else {
        lower_hex(data.drop_last()) + seq![
            lower_hex_digit(data.last() as int / 16),
            lower_hex_digit(data.last() as int % 16),
        ]
    }
}

fn hex_digit(n: u8) -> (r: u8)
    requires
        n < 16,
    ensures
        r == lower_hex_digit(n as int),
{
    if n < 10 {
        0x30 + n
    } else {
        0x57 + n
    }
}

/// `0x` followed by the lower-case hex digits of `data`, as the bytes of a C string
/// without its terminator.
pub fn encode_hex_0x(data: &[u8]) -> (r: Vec<u8>)
    ensures
        r@ == seq![0x30u8, 0x78u8] + lower_hex(data@),
{
    let mut s: Vec<u8> = Vec::new();
    s.push(0x30u8);
    s.push(0x78u8);
    let mut i: usize = 0;
    while i < data.len()
        invariant
            i <= data@.len(),
            s@ == seq![0x30u8, 0x78u8] + lower_hex(data@.subrange(0, i as int)),
        decreases data@.len() - i,
    {
        let b = data[i];
        s.push(hex_digit(b / 16));
        s.push(hex_digit(b % 16));
        i = i + 1;
        proof {
            let pre = data@.subrange(0, i as int);
            assert(pre.drop_last() =~= data@.subrange(0, i - 1));
            assert(s@ =~= seq![0x30u8, 0x78u8] + lower_hex(pre));
        }
    }
    assert(data@.subrange(0, data@.len() as int) =~= data@);
    s
}

/// The argument text of a one-byte number: `0x` and its two hex digits.
pub fn u8_to_cstring(number: u8) -> (r: Vec<u8>)
    ensures
        r@ == seq![0x30u8, 0x78u8] + lower_hex(seq![number]),
{
    let one = [number];
    let r = encode_hex_0x(&one);
    assert(one@ =~= seq![number]);
    r
}

proof fn lemma_lower_hex_digit(n: int)
    requires
        0 <= n < 16,
    ensures
        is_hex_digit(lower_hex_digit(n)),
        hex_value(lower_hex_digit(n)) == n,
{
}

proof fn lemma_lower_hex_shape(b: Seq<u8>)
    ensures
        lower_hex(b).len() == 2 * b.len(),
        forall|i: int|
            0 <= i < b.len() ==> lower_hex(b)[2 * i] == lower_hex_digit(b[i] as int / 16)
                && lower_hex(b)[2 * i + 1] == lower_hex_digit(b[i] as int % 16),
    decreases b.len(),
{
    if b.len() > 0 {
        let p = b.drop_last();
        lemma_lower_hex_shape(p);
        assert forall|i: int| 0 <= i < b.len() implies lower_hex(b)[2 * i] == lower_hex_digit(
            b[i] as int / 16,
        ) && lower_hex(b)[2 * i + 1] == lower_hex_digit(b[i] as int % 16) by {
            if i < p.len() {
                assert(b[i] == p[i]);
            }
        }
    }
}

/// Decoding the lower-case hex digits of `b` gives `b` back.
pub proof fn lemma_hex_round_trip(b: Seq<u8>)
    ensures
        hex_decodable(lower_hex(b), b.len() as int),
        hex_decoded(lower_hex(b), b.len()) == b,
{
    lemma_lower_hex_shape(b);
    let h = lower_hex(b);
    assert forall|k: int| 0 <= k < h.len() implies is_hex_digit(#[trigger] h[k]) by {
        let i = k / 2;
        lemma_lower_hex_digit(b[i] as int / 16);
        lemma_lower_hex_digit(b[i] as int % 16);
        if k % 2 == 0 {
            assert(k == 2 * i);
        } else {
            assert(k == 2 * i + 1);
        }
    }
    assert forall|i: int| 0 <= i < b.len() implies #[trigger] hex_decoded(h, b.len())[i] == b[i] by {
        lemma_lower_hex_digit(b[i] as int / 16);
        lemma_lower_hex_digit(b[i] as int % 16);
    }
    assert(hex_decoded(h, b.len()) =~= b);
}

/// `0x` and the lower-case hex digits of `width` bytes decode as their little-endian
/// value.
pub proof fn lemma_hex_arg_number(b: Seq<u8>, width: nat)
    requires
        b.len() == width,
    ensures
        arg_number(seq![0x30u8, 0x78u8] + lower_hex(b), width) == Some(le_value(b)),
{
    let a = seq![0x30u8, 0x78u8] + lower_hex(b);
    assert(a.subrange(2, a.len() as int) =~= lower_hex(b));
    lemma_hex_round_trip(b);
}

} // verus!
