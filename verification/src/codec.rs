//! Base64 transport encoding (through the outside engine) and the decimal
//! timestamp parser used by request authentication.

use vstd::prelude::*;

use base64::Engine;

verus! {

use vstd::string::*;

/// What base64's STANDARD engine decodes a string to, `None` when the input
/// is not valid standard base64.
pub uninterp spec fn b64_decode_of(s: Seq<char>) -> Option<Seq<u8>>;

/// What base64's STANDARD engine encodes a byte string to.
pub uninterp spec fn b64_encode_of(b: Seq<u8>) -> Seq<char>;

/// Relies on base64's `Engine::decode` with the STANDARD engine: the result
/// is a function of the input characters alone, and decoding never panics.
#[verifier::external_body]
pub(crate) fn b64_decode(s: &str) -> (r: Option<Vec<u8>>)
    ensures
        match r {
            Some(v) => b64_decode_of(s@) == Some(v@),
            None => b64_decode_of(s@) is None,
        },
{
    base64::engine::general_purpose::STANDARD.decode(s).ok()
}

/// Relies on base64's `Engine::encode` with the STANDARD engine: the result
/// is a function of the input bytes alone. `encode` panics only when the
/// encoded length overflows `usize`; the precondition keeps it far from that.
#[verifier::external_body]
pub(crate) fn b64_encode(b: &[u8]) -> (r: String)
    requires
        b@.len() <= usize::MAX as int / 4,
    ensures
        r@ == b64_encode_of(b@),
{
    base64::engine::general_purpose::STANDARD.encode(b)
}

/// Relies on `str`'s `PartialEq`: two string slices are equal exactly when
/// they hold the same characters.
#[verifier::external_body]
pub(crate) fn str_eq(a: &str, b: &str) -> (r: bool)
    ensures
        r == (a@ == b@),
{
    a == b
}

// ---------------------------------------------------------------------------
// Decimal parsing
// ---------------------------------------------------------------------------

/// ASCII decimal digit.
pub open spec fn is_digit_byte(b: u8) -> bool {
    48 <= b <= 57
}

pub open spec fn all_digit_bytes(s: Seq<u8>) -> bool {
    forall|i: int| 0 <= i < s.len() ==> is_digit_byte(#[trigger] s[i])
}

/// Value of a digit-only byte string read as decimal.
pub open spec fn dec_value(s: Seq<u8>) -> int
    decreases s.len(),
{
    if s.len() == 0 {
        0
    } else {
        dec_value(s.drop_last()) * 10 + (s.last() - 48)
    }
}

/// What `str::parse::<i64>` accepts: an optional sign, then one or more
/// digits, value within range.
pub open spec fn parse_i64_spec(s: Seq<u8>) -> Option<i64> {
    let digits = if s.len() > 0 && (s[0] == 43 || s[0] == 45) {
        s.subrange(1, s.len() as int)
    } else {
        s
    };
    let neg = s.len() > 0 && s[0] == 45;
    if digits.len() == 0 || !all_digit_bytes(digits) {
        None
    } else if neg {
        if -dec_value(digits) >= i64::MIN {
            Some((-dec_value(digits)) as i64)
        } else {
            None
        }
    } else {
        if dec_value(digits) <= i64::MAX {
            Some(dec_value(digits) as i64)
        } else {
            None
        }
    }
}

proof fn lemma_dec_value_nonneg(s: Seq<u8>)
    requires
        all_digit_bytes(s),
    ensures
        dec_value(s) >= 0,
    decreases s.len(),
{
    if s.len() > 0 {
        assert(all_digit_bytes(s.drop_last()));
        lemma_dec_value_nonneg(s.drop_last());
    }
}

/// Appending digits never shrinks the value.
proof fn lemma_dec_value_prefix(s: Seq<u8>, i: int)
    requires
        all_digit_bytes(s),
        0 <= i <= s.len(),
    ensures
        dec_value(s.subrange(0, i)) <= dec_value(s),
    decreases s.len() - i,
{
    if i < s.len() {
        let t = s.subrange(0, i + 1);
        assert(t.drop_last() =~= s.subrange(0, i));
        assert(all_digit_bytes(t.drop_last()));
        lemma_dec_value_nonneg(t.drop_last());
        assert(dec_value(t) == dec_value(s.subrange(0, i)) * 10 + (s[i] - 48));
        lemma_dec_value_prefix(s, i + 1);
        assert(s.subrange(0, s.len() as int) =~= s);
    } else {
        assert(s.subrange(0, i) =~= s);
    }
}

/// Extending a digit run keeps every byte a digit.
proof fn lemma_digits_extend(whole: Seq<u8>, start: int, i: int)
    requires
        0 <= start <= i < whole.len(),
        all_digit_bytes(whole.subrange(start, i)),
        is_digit_byte(whole[i]),
    ensures
        all_digit_bytes(whole.subrange(start, i + 1)),
{
    let pre = whole.subrange(start, i);
    let ext = whole.subrange(start, i + 1);
    assert forall|k: int| 0 <= k < ext.len() implies is_digit_byte(#[trigger] ext[k]) by {
        if k < i - start {
            assert(ext[k] == pre[k]);
        } else {
            assert(ext[k] == whole[i]);
        }
    }
}

/// Parse a decimal `i64` from the byte form of a string, exactly as
/// `str::parse::<i64>` classifies it.
pub fn parse_i64(s: &str) -> (r: Option<i64>)
    ensures
        r == parse_i64_spec(s.spec_bytes()),
{
    let bytes: &[u8] = s.as_bytes();
    let n: usize = bytes.len();
    let ghost whole: Seq<u8> = s.spec_bytes();
    let mut start: usize = 0;
    let mut neg: bool = false;
    if n > 0 && (bytes[0] == 43 || bytes[0] == 45) {
        start = 1;
        neg = bytes[0] == 45;
    }
    let ghost digits: Seq<u8> = whole.subrange(start as int, n as int);
    if start >= n {
        assert(digits.len() == 0);
        return None;
    }
    let mut acc: i64 = 0;
    let mut i: usize = start;
    while i < n
        invariant
            start <= i <= n,
            start < n,
            n == whole.len(),
            whole == s.spec_bytes(),
            bytes@ == whole,
            start == 0 || start == 1,
            start == 0 ==> !(n > 0 && (whole[0] == 43 || whole[0] == 45)),
            start == 1 ==> n > 0 && (whole[0] == 43 || whole[0] == 45),
            neg ==> (start == 1 && whole[0] == 45),
            !neg ==> (start == 0 || (start == 1 && whole[0] == 43)),
            digits == whole.subrange(start as int, n as int),
            all_digit_bytes(whole.subrange(start as int, i as int)),
            !neg ==> acc == dec_value(whole.subrange(start as int, i as int)),
            neg ==> acc == -dec_value(whole.subrange(start as int, i as int)),
            !neg ==> acc >= 0,
            neg ==> acc <= 0,
        decreases n - i,
    {
        let b = bytes[i];
        if b < 48 || b > 57 {
            proof {
                assert(digits[i as int - start as int] == whole[i as int]);
                assert(!all_digit_bytes(digits));
            }
            return None;
        }
        let d: i64 = (b - 48) as i64;
        let ghost pre: Seq<u8> = whole.subrange(start as int, i as int);
        let ghost ext: Seq<u8> = whole.subrange(start as int, i as int + 1);
        proof {
            lemma_digits_extend(whole, start as int, i as int);
            assert(ext.drop_last() =~= pre);
            assert(dec_value(ext) == dec_value(pre) * 10 + (b - 48));
        }
        if neg {
            if acc < i64::MIN / 10 || (acc == i64::MIN / 10 && d > 8) {
                proof {
                    if all_digit_bytes(digits) {
                        lemma_dec_value_prefix(digits, i as int + 1 - start as int);
                        assert(ext =~= digits.subrange(0, i as int + 1 - start as int));
                        assert(dec_value(digits) >= dec_value(ext));
                        assert(-dec_value(digits) < i64::MIN);
                    }
                }
                return None;
            }
            acc = acc * 10 - d;
        } else {
            if acc > i64::MAX / 10 || (acc == i64::MAX / 10 && d > 7) {
                proof {
                    assert(acc * 10 + d > i64::MAX);
                    if all_digit_bytes(digits) {
                        lemma_dec_value_prefix(digits, i as int + 1 - start as int);
                        assert(ext =~= digits.subrange(0, i as int + 1 - start as int));
                        assert(dec_value(digits) > i64::MAX);
                    }
                    assert((if whole.len() > 0 && (whole[0] == 43 || whole[0] == 45) {
                        whole.subrange(1, whole.len() as int)
                    } else {
                        whole
                    }) == digits);
                    assert(parse_i64_spec(whole) is None);
                }
                return None;
            }
            acc = acc * 10 + d;
        }
        i += 1;
    }
    proof {
        assert(whole.subrange(start as int, i as int) =~= digits);
        let sdigits = if whole.len() > 0 && (whole[0] == 43 || whole[0] == 45) {
            whole.subrange(1, whole.len() as int)
        } else {
            whole
        };
        assert(sdigits == digits);
        assert(all_digit_bytes(digits));
        if neg {
            assert(acc == -dec_value(digits));
            assert(parse_i64_spec(whole) == Some(acc));
        } else {
            assert(acc == dec_value(digits));
            assert(parse_i64_spec(whole) == Some(acc));
        }
    }
    Some(acc)
}

} // verus!
