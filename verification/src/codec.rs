//! Reversible percent-style escaping of free-form text.
//!
//! `encode` keeps the unreserved bytes of a string's UTF-8 form and writes
//! every other byte as `%` followed by two uppercase hexadecimal digits,
//! so that arbitrary display names and URLs can be embedded as stored
//! text. `decode` reverses it; the pair round-trips on every string.

use vstd::prelude::*;
use vstd::string::StrSliceExecFns;
use vstd::utf8::decode_utf8;
use vstd::utf8::encode_utf8;
use vstd::utf8::encode_utf8_decode_utf8;
use vstd::utf8::encode_utf8_valid_utf8;
use vstd::utf8::decode_utf8_encode_utf8;
use vstd::utf8::is_leading_byte_width_1;
use vstd::utf8::length_of_first_scalar;
use vstd::utf8::pop_first_scalar;
use vstd::utf8::valid_first_scalar;
use vstd::utf8::valid_utf8;

verus! {

/// The ASCII code of `0`.
pub const D0: u8 = 48;

/// The ASCII code of `9`.
pub const D9: u8 = 57;

/// The ASCII code of `A`.
pub const UA: u8 = 65;

/// The ASCII code of `F`.
pub const UF: u8 = 70;

/// The ASCII code of `Z`.
pub const UZ: u8 = 90;

/// The ASCII code of `a`.
pub const LA: u8 = 97;

/// The ASCII code of `f`.
pub const LF: u8 = 102;

/// The ASCII code of `z`.
pub const LZ: u8 = 122;

/// The ASCII code of `%`.
pub const PERCENT: u8 = 37;

/// The ASCII code of `-`.
pub const HYPHEN: u8 = 45;

/// The ASCII code of `.`.
pub const DOT: u8 = 46;

/// The ASCII code of `_`.
pub const UNDERSCORE: u8 = 95;

/// The ASCII code of `~`.
pub const TILDE: u8 = 126;

/// A byte that is stored as itself: an ASCII letter or digit, `-`, `.`,
/// `_` or `~`.
pub open spec fn is_unreserved(b: u8) -> bool {
    ||| D0 <= b <= D9
    ||| UA <= b <= UZ
    ||| LA <= b <= LZ
    ||| b == HYPHEN
    ||| b == DOT
    ||| b == UNDERSCORE
    ||| b == TILDE
}

/// The uppercase hexadecimal digit for a value below 16.
pub open spec fn hex_digit(n: u8) -> u8
    recommends
        n < 16,
{
    if n < 10 {
        (D0 + n) as u8
    } else {
        (UA + (n - 10)) as u8
    }
}

/// A hexadecimal digit of either case.
pub open spec fn is_hex(b: u8) -> bool {
    ||| D0 <= b <= D9
    ||| UA <= b <= UF
    ||| LA <= b <= LF
}

/// The value of a hexadecimal digit of either case.
pub open spec fn hex_val(b: u8) -> u8
    recommends
        is_hex(b),
{
    if D0 <= b <= D9 {
        (b - D0) as u8
    } else if UA <= b <= UF {
        (b - UA + 10) as u8
    } else {
        (b - LA + 10) as u8
    }
}

/// How a single byte is stored: itself when unreserved, else an escape of
/// `%` and two uppercase hexadecimal digits.
pub open spec fn enc_byte(b: u8) -> Seq<u8> {
    if is_unreserved(b) {
        seq![b]
    } else {
        seq![PERCENT, hex_digit((b / 16) as u8), hex_digit((b % 16) as u8)]
    }
}

/// The escaped form of a whole byte sequence.
pub open spec fn enc_bytes(s: Seq<u8>) -> Seq<u8>
    decreases s.len(),
{
    if s.len() == 0 {
        seq![]
    } else {
        enc_byte(s[0]) + enc_bytes(s.drop_first())
    }
}

/// The unescaped form of a byte sequence, or nothing when a `%` is not
/// followed by two hexadecimal digits.
pub open spec fn dec_bytes(s: Seq<u8>) -> Option<Seq<u8>>
    decreases s.len(),
{
    if s.len() == 0 {
        Some(seq![])
    } else if s[0] == PERCENT {
        if s.len() >= 3 && is_hex(s[1]) && is_hex(s[2]) {
            match dec_bytes(s.skip(3)) {
                None => None,
                Some(r) => Some(seq![(16 * hex_val(s[1]) + hex_val(s[2])) as u8] + r),
            }
        } else {
            None
        }
    } else {
        match dec_bytes(s.skip(1)) {
            None => None,
            Some(r) => Some(seq![s[0]] + r),
        }
    }
}

/// What `encode` returns: the escaped form of the string's UTF-8 bytes,
/// read back as characters.
pub open spec fn encoded(s: Seq<char>) -> Seq<char> {
    decode_utf8(enc_bytes(encode_utf8(s)))
}

/// What `decode` returns: the unescaped form of the string's UTF-8 bytes,
/// read back as characters, or nothing when an escape is malformed or the
/// unescaped bytes are not UTF-8.
pub open spec fn decoded(s: Seq<char>) -> Option<Seq<char>> {
    match dec_bytes(encode_utf8(s)) {
        None => None,
        Some(b) => if valid_utf8(b) {
            Some(decode_utf8(b))
        } else {
            None
        },
    }
}

/// Escaping distributes over concatenation.
proof fn lemma_enc_app(a: Seq<u8>, b: Seq<u8>)
    ensures
        enc_bytes(a + b) == enc_bytes(a) + enc_bytes(b),
    decreases a.len(),
{
    if a.len() == 0 {
        assert(a + b =~= b);
        assert(enc_bytes(a) + enc_bytes(b) =~= enc_bytes(b));
    } else {
        assert((a + b).drop_first() =~= a.drop_first() + b);
        lemma_enc_app(a.drop_first(), b);
        assert(enc_byte((a + b)[0]) + (enc_bytes(a.drop_first()) + enc_bytes(b)) =~= (enc_byte(
            a[0],
        ) + enc_bytes(a.drop_first())) + enc_bytes(b));
    }
}

/// Escaping a sequence one byte longer appends that byte's escape.
proof fn lemma_enc_snoc(s: Seq<u8>, i: int)
    requires
        0 <= i < s.len(),
    ensures
        enc_bytes(s.take(i + 1)) == enc_bytes(s.take(i)) + enc_byte(s[i]),
{
    assert(s.take(i + 1) =~= s.take(i) + seq![s[i]]);
    lemma_enc_app(s.take(i), seq![s[i]]);
    assert(seq![s[i]].drop_first() =~= Seq::<u8>::empty());
    assert(enc_bytes(Seq::<u8>::empty()) == Seq::<u8>::empty());
    assert(enc_bytes(seq![s[i]]) =~= enc_byte(s[i]));
}

/// Every escaped byte is ASCII.
proof fn lemma_enc_ascii(s: Seq<u8>)
    ensures
        forall|i: int| 0 <= i < enc_bytes(s).len() ==> enc_bytes(s)[i] < 0x80,
    decreases s.len(),
{
    if s.len() != 0 {
        lemma_enc_ascii(s.drop_first());
        assert forall|i: int| 0 <= i < enc_bytes(s).len() implies enc_bytes(s)[i] < 0x80 by {
            let eb = enc_byte(s[0]);
            if i < eb.len() {
                assert(enc_bytes(s)[i] == eb[i]);
            } else {
                assert(enc_bytes(s)[i] == enc_bytes(s.drop_first())[i - eb.len()]);
            }
        }
    }
}

/// A sequence of ASCII bytes is valid UTF-8.
proof fn lemma_ascii_valid_utf8(s: Seq<u8>)
    requires
        forall|i: int| 0 <= i < s.len() ==> s[i] < 0x80,
    ensures
        valid_utf8(s),
    decreases s.len(),
{
    if s.len() != 0 {
        let b = s[0];
        assert(b & 0x7f < 0xD800 && !(b & 0x7f >= 0x80)) by (bit_vector);
        assert(is_leading_byte_width_1(b));
        assert(valid_first_scalar(s));
        assert(length_of_first_scalar(s) == 1);
        assert(pop_first_scalar(s) =~= s.skip(1));
        lemma_ascii_valid_utf8(s.skip(1));
    }
}

/// The two hexadecimal digits of a byte's escape spell that byte.
proof fn lemma_hex_digit(b: u8)
    ensures
        is_hex(hex_digit((b / 16) as u8)),
        is_hex(hex_digit((b % 16) as u8)),
        hex_digit((b / 16) as u8) != PERCENT,
        16 * hex_val(hex_digit((b / 16) as u8)) + hex_val(hex_digit((b % 16) as u8)) == b,
{
    assert(b / 16 < 16);
    assert(b % 16 < 16);
    assert(16 * (b / 16) + (b % 16) == b) by (nonlinear_arith);
}

/// Unescaping undoes escaping on every byte sequence.
pub proof fn lemma_dec_enc_bytes(s: Seq<u8>)
    ensures
        dec_bytes(enc_bytes(s)) == Some(s),
    decreases s.len(),
{
    if s.len() == 0 {
        assert(dec_bytes(enc_bytes(s)) == Some(Seq::<u8>::empty()));
        assert(s =~= Seq::<u8>::empty());
    } else {
        let b = s[0];
        let e = enc_bytes(s);
        lemma_dec_enc_bytes(s.drop_first());
        if is_unreserved(b) {
            assert(e[0] == b && b != PERCENT);
            assert(e.skip(1) =~= enc_bytes(s.drop_first()));
            assert(seq![b] + s.drop_first() =~= s);
        } else {
            lemma_hex_digit(b);
            assert(e[0] == PERCENT && e[1] == hex_digit((b / 16) as u8) && e[2] == hex_digit(
                (b % 16) as u8,
            ));
            assert(e.len() >= 3);
            assert(e.skip(3) =~= enc_bytes(s.drop_first()));
            assert(seq![(16 * hex_val(e[1]) + hex_val(e[2])) as u8] + s.drop_first() =~= s);
        }
    }
}

/// Decides `is_unreserved` on a single byte.
fn unreserved_byte(b: u8) -> (r: bool)
    ensures
        r == is_unreserved(b),
{
    (D0 <= b && b <= D9) || (UA <= b && b <= UZ) || (LA <= b && b <= LZ) || b == HYPHEN
        || b == DOT || b == UNDERSCORE || b == TILDE
}

/// Computes `hex_digit` on a value below 16.
fn hex_digit_byte(n: u8) -> (r: u8)
    requires
        n < 16,
    ensures
        r == hex_digit(n),
{
    if n < 10 {
        D0 + n
    } else {
        UA + (n - 10)
    }
}

/// Decides `is_hex` on a single byte.
fn hex_byte(b: u8) -> (r: bool)
    ensures
        r == is_hex(b),
{
    (D0 <= b && b <= D9) || (UA <= b && b <= UF) || (LA <= b && b <= LF)
}

/// Computes `hex_val` on a hexadecimal digit.
fn hex_val_byte(b: u8) -> (r: u8)
    requires
        is_hex(b),
    ensures
        r == hex_val(b),
        r < 16,
{
    if D0 <= b && b <= D9 {
        b - D0
    } else if UA <= b && b <= UF {
        b - UA + 10
    } else {
        b - LA + 10
    }
}

/// Escapes a byte sequence.
fn encode_bytes(v: &Vec<u8>) -> (r: Vec<u8>)
    ensures
        r@ == enc_bytes(v@),
{
    let mut out: Vec<u8> = Vec::new();
    let mut i: usize = 0;
    while i < v.len()
        invariant
            i <= v@.len(),
            out@ == enc_bytes(v@.take(i as int)),
        decreases v@.len() - i,
    {
        let b = v[i];
        if unreserved_byte(b) {
            out.push(b);
            proof {
                assert(enc_byte(b) =~= seq![b]);
            }
        } else {
            out.push(PERCENT);
            out.push(hex_digit_byte(b / 16));
            out.push(hex_digit_byte(b % 16));
        }
        proof {
            lemma_enc_snoc(v@, i as int);
            assert(out@ =~= enc_bytes(v@.take(i as int)) + enc_byte(v@[i as int]));
        }
        i = i + 1;
    }
    proof {
        assert(v@.take(v@.len() as int) =~= v@);
    }
    out
}

/// Unescapes a byte sequence, or fails on a malformed escape.
fn decode_bytes(v: &Vec<u8>) -> (r: Option<Vec<u8>>)
    ensures
        r is Some <==> dec_bytes(v@) is Some,
        r matches Some(out) ==> dec_bytes(v@) == Some(out@),
{
    let mut out: Vec<u8> = Vec::new();
    let mut i: usize = 0;
    proof {
        assert(v@.skip(0) =~= v@);
        match dec_bytes(v@) {
            Some(rest) => {
                assert(Seq::<u8>::empty() + rest =~= rest);
            },
            None => {},
        }
    }
    while i < v.len()
        invariant
            i <= v@.len(),
            dec_bytes(v@) == (match dec_bytes(v@.skip(i as int)) {
                None => None::<Seq<u8>>,
                Some(rest) => Some(out@ + rest),
            }),
        decreases v@.len() - i,
    {
        let ghost pre = v@.skip(i as int);
        let ghost out0 = out@;
        proof {
            assert(pre[0] == v@[i as int]);
        }
        let b = v[i];
        if b == PERCENT {
            if v.len() - i < 3 {
                proof {
                    assert(pre.len() < 3);
                }
                return None;
            }
            let b1 = v[i + 1];
            let b2 = v[i + 2];
            proof {
                assert(pre[1] == v@[i + 1] && pre[2] == v@[i + 2]);
            }
            if !hex_byte(b1) || !hex_byte(b2) {
                return None;
            }
            let h = hex_val_byte(b1);
            let l = hex_val_byte(b2);
            out.push(16 * h + l);
            proof {
                assert(pre.skip(3) =~= v@.skip(i + 3));
                match dec_bytes(v@.skip(i + 3)) {
                    Some(rest) => {
                        assert(out@ + rest =~= out0 + (seq![
                            (16 * hex_val(pre[1]) + hex_val(pre[2])) as u8,
                        ] + rest));
                    },
                    None => {},
                }
            }
            i = i + 3;
        } else {
            out.push(b);
            proof {
                assert(pre.skip(1) =~= v@.skip(i + 1));
                match dec_bytes(v@.skip(i + 1)) {
                    Some(rest) => {
                        assert(out@ + rest =~= out0 + (seq![pre[0]] + rest));
                    },
                    None => {},
                }
            }
            i = i + 1;
        }
    }
    proof {
        assert(v@.skip(v@.len() as int) =~= Seq::<u8>::empty());
        assert(out@ + Seq::<u8>::empty() =~= out@);
    }
    Some(out)
}

/// Relies on `String::from_utf8`: it accepts exactly the valid UTF-8 byte
/// sequences, and the string it returns holds those very bytes.
#[verifier::external_body]
fn string_from_utf8(v: Vec<u8>) -> (r: Option<String>)
    ensures
        r is Some <==> valid_utf8(v@),
        r matches Some(t) ==> encode_utf8(t@) == v@,
{
    match String::from_utf8(v) {
        Ok(t) => Some(t),
        Err(_) => None,
    }
}

/// Escapes a string so that it is safe to embed as stored text.
pub fn encode(s: &str) -> (r: String)
    ensures
        r@ == encoded(s@),
{
    let bv = s.as_bytes_vec();
    let eb = encode_bytes(&bv);
    proof {
        lemma_enc_ascii(bv@);
        lemma_ascii_valid_utf8(eb@);
    }
    match string_from_utf8(eb) {
        Some(t) => {
            proof {
                encode_utf8_decode_utf8(t@);
            }
            t
        },
        None => {
            proof {
                assert(false);
            }
            String::new()
        },
    }
}

/// Unescapes a string produced by `encode`, recovering the original text;
/// fails on a malformed escape or when the unescaped bytes spell no text.
pub fn decode(s: &str) -> (r: Option<String>)
    ensures
        (r is Some) == (decoded(s@) is Some),
        r matches Some(t) ==> decoded(s@) == Some(t@),
{
    let bv = s.as_bytes_vec();
    match decode_bytes(&bv) {
        None => None,
        Some(db) => {
            match string_from_utf8(db) {
                None => None,
                Some(t) => {
                    proof {
                        encode_utf8_decode_utf8(t@);
                    }
                    Some(t)
                },
            }
        },
    }
}

/// Decoding inverts encoding: for every text, `decode` applied to the
/// `encode` of that text gives the text back.
pub proof fn lemma_decode_encode(t: Seq<char>)
    ensures
        decoded(encoded(t)) == Some(t),
{
    broadcast use encode_utf8_valid_utf8;

    let u = encode_utf8(t);
    let e = enc_bytes(u);
    lemma_enc_ascii(u);
    lemma_ascii_valid_utf8(e);
    decode_utf8_encode_utf8(e);
    lemma_dec_enc_bytes(u);
    encode_utf8_decode_utf8(t);
}

} // verus!
