use vstd::prelude::*;
use vstd::string::StrSliceExecFns;

use num_bigint::BigUint;

use crate::error::{ErrorKind, ZkvcError};
use crate::field::{field_modulus, le_nat, FieldValue};

verus! {

/// The path under which the server accepts proofs.
pub const VERIFY_PATH: &'static str = "/verify";

pub open spec fn is_digit(c: char) -> bool {
    '0' <= c && c <= '9'
}

pub open spec fn digit_value(c: char) -> nat {
    (c as int - '0' as int) as nat
}

pub open spec fn digit_char(d: nat) -> char {
    if d == 0 { '0' }
    else if d == 1 { '1' }
    else if d == 2 { '2' }
    else if d == 3 { '3' }
    else if d == 4 { '4' }
    else if d == 5 { '5' }
    else if d == 6 { '6' }
    else if d == 7 { '7' }
    else if d == 8 { '8' }
    else { '9' }
}

/// The number that a string of decimal digits denotes, most significant first.
pub open spec fn dec_value(s: Seq<char>) -> nat
    decreases s.len(),
{
    if s.len() == 0 {
        0
    } else {
        10 * dec_value(s.drop_last()) + digit_value(s.last())
    }
}

/// The decimal digits of `n`, without leading zeros; `"0"` for zero.
pub open spec fn decimal_of(n: nat) -> Seq<char>
    decreases n,
{
    if n < 10 {
        seq![digit_char(n)]
    } else {
        decimal_of(n / 10).push(digit_char(n % 10))
    }
}

/// A non-empty string of decimal digits without a leading zero, or `"0"`.
pub open spec fn is_canonical_decimal(s: Seq<char>) -> bool {
    &&& s.len() > 0
    &&& forall|i: int| 0 <= i < s.len() ==> is_digit(#[trigger] s[i])
    &&& (s[0] == '0' ==> s.len() == 1)
}

/// The field element that a transported string stands for, if any.
pub open spec fn decoded_value(s: Seq<char>) -> Option<nat> {
    if is_canonical_decimal(s) && dec_value(s) < field_modulus() {
        Some(dec_value(s))
    } else {
        None
    }
}

/// The message of the error that decoding `s` gives, when it gives one.
pub open spec fn input_error(s: Seq<char>) -> Seq<char> {
    if is_canonical_decimal(s) {
        "Failed to parse field element"@
    } else {
        "Failed to parse decimal string"@
    }
}

/// Relies on `BigUint::from_bytes_le` and `BigUint`'s `Display` in num-bigint:
/// the little-endian number, written in decimal without leading zeros.
#[verifier::external_body]
fn decimal_of_le_bytes(b: &[u8]) -> (r: String)
    ensures
        r@ == decimal_of(le_nat(b@)),
{
    BigUint::from_bytes_le(b).to_string()
}

/// Relies on `BigUint::parse_bytes` with radix 10 and `BigUint::to_bytes_le` in
/// num-bigint: a non-empty run of decimal digits parses to its number.
#[verifier::external_body]
fn le_bytes_of_decimal(s: &str) -> (r: Option<Vec<u8>>)
    requires
        s@.len() > 0,
        forall|i: int| 0 <= i < s@.len() ==> is_digit(#[trigger] s@[i]),
    ensures
        r is Some,
        le_nat(r->0@) == dec_value(s@),
{
    BigUint::parse_bytes(s.as_bytes(), 10).map(|n| n.to_bytes_le())
}

/// Whether `s` is the canonical decimal form of some number.
pub fn is_canonical_decimal_str(s: &str) -> (r: bool)
    ensures
        r == is_canonical_decimal(s@),
{
    let n = s.unicode_len();
    if n == 0 {
        return false;
    }
    let mut i: usize = 0;
    while i < n
        invariant
            n == s@.len(),
            i <= n,
            forall|k: int| 0 <= k < i ==> is_digit(#[trigger] s@[k]),
        decreases n - i,
    {
        let c = s.get_char(i);
        if !('0' <= c && c <= '9') {
            return false;
        }
        i = i + 1;
    }
    !(s.get_char(0) == '0' && n > 1)
}

/// Writes a field element as the decimal digits of its canonical integer.
pub fn field_to_string(f: &FieldValue) -> (r: String)
    ensures
        r@ == decimal_of(f.value()),
{
    let b = f.to_le_bytes();
    decimal_of_le_bytes(b.as_slice())
}

/// Reads a field element from the canonical decimal form of an integer below
/// the modulus; any other string is an encoding error.
pub fn field_from_string(s: &str) -> (r: Result<FieldValue, ZkvcError>)
    ensures
        r is Ok <==> decoded_value(s@) is Some,
        r matches Ok(v) ==> v.wf() && decoded_value(s@) == Some(v.value()),
        r matches Err(e) ==> e.kind == ErrorKind::EncodingError && e.message@ == input_error(s@),
{
    proof {
        reveal_strlit("Failed to parse field element");
        reveal_strlit("Failed to parse decimal string");
    }
    if !is_canonical_decimal_str(s) {
        return Err(ZkvcError::new(ErrorKind::EncodingError, "Failed to parse decimal string"));
    }
    let parsed = le_bytes_of_decimal(s);
    let bytes = match parsed {
        Some(b) => b,
        None => {
            return Err(ZkvcError::new(ErrorKind::EncodingError, "Failed to parse decimal string"));
        }
    };
    match FieldValue::from_le_bytes(&bytes) {
        Some(v) => Ok(v),
        None => Err(ZkvcError::new(ErrorKind::EncodingError, "Failed to parse field element")),
    }
}

proof fn lemma_digit_char(d: nat)
    requires
        d < 10,
    ensures
        is_digit(digit_char(d)),
        digit_value(digit_char(d)) == d,
        digit_char(d) == '0' <==> d == 0,
{
}

proof fn lemma_digit_value(c: char)
    requires
        is_digit(c),
    ensures
        digit_value(c) < 10,
        digit_char(digit_value(c)) == c,
{
}

/// `decimal_of(n)` is canonical and denotes `n`.
pub proof fn lemma_decimal_of(n: nat)
    ensures
        is_canonical_decimal(decimal_of(n)),
        dec_value(decimal_of(n)) == n,
    decreases n,
{
    let s = decimal_of(n);
    if n < 10 {
        lemma_digit_char(n);
        assert(s.drop_last() =~= Seq::<char>::empty());
        assert(dec_value(Seq::<char>::empty()) == 0);
    } else {
        let q = n / 10;
        let m = n % 10;
        lemma_decimal_of(q);
        lemma_digit_char(m);
        let t = decimal_of(q);
        assert(s == t.push(digit_char(m)));
        assert(s.drop_last() =~= t);
        assert forall|i: int| 0 <= i < s.len() implies is_digit(#[trigger] s[i]) by {
            if i < t.len() {
                assert(s[i] == t[i]);
            }
        }
        if t[0] == '0' {
            assert(t.len() == 1);
            assert(t.drop_last() =~= Seq::<char>::empty());
            assert(dec_value(Seq::<char>::empty()) == 0);
            assert(dec_value(t) == digit_value(t[0]));
        }
        assert(s[0] == t[0]);
    }
}

proof fn lemma_dec_value_zero(s: Seq<char>)
    requires
        s.len() > 0,
        forall|i: int| 0 <= i < s.len() ==> is_digit(#[trigger] s[i]),
        dec_value(s) == 0,
    ensures
        s[0] == '0',
    decreases s.len(),
{
    if s.len() > 1 {
        let t = s.drop_last();
        assert forall|i: int| 0 <= i < t.len() implies is_digit(#[trigger] t[i]) by {
            assert(t[i] == s[i]);
        }
        lemma_dec_value_zero(t);
        assert(t[0] == s[0]);
    } else {
        assert(s.drop_last() =~= Seq::<char>::empty());
        assert(dec_value(Seq::<char>::empty()) == 0);
    }
}

/// A canonical decimal string is the one that `decimal_of` writes for its number.
pub proof fn lemma_canonical_unique(s: Seq<char>)
    requires
        is_canonical_decimal(s),
    ensures
        decimal_of(dec_value(s)) == s,
    decreases s.len(),
{
    let t = s.drop_last();
    let c = s.last();
    assert(is_digit(s[s.len() - 1]));
    lemma_digit_value(c);
    if s.len() == 1 {
        assert(t =~= Seq::<char>::empty());
        assert(dec_value(Seq::<char>::empty()) == 0);
        assert(decimal_of(dec_value(s)) =~= s);
    } else {
        assert forall|i: int| 0 <= i < t.len() implies is_digit(#[trigger] t[i]) by {
            assert(t[i] == s[i]);
        }
        assert(t[0] == s[0]);
        lemma_canonical_unique(t);
        if dec_value(t) == 0 {
            lemma_dec_value_zero(t);
        }
        let a = dec_value(t);
        let d = digit_value(c);
        let n = dec_value(s);
        assert(n == 10 * a + d);
        assert(n / 10 == a && n % 10 == d) by (nonlinear_arith)
            requires n == 10 * a + d, d < 10;
        assert(decimal_of(n) == decimal_of(a).push(digit_char(d)));
        assert(s =~= t.push(c));
    }
}

/// Decoding the encoding of a field element gives that element back.
pub proof fn lemma_codec_round_trip(v: &FieldValue)
    requires
        v.wf(),
    ensures
        decoded_value(decimal_of(v.value())) == Some(v.value()),
{
    lemma_codec_round_trip_value(v.value());
}

/// The same law, stated of any number below the modulus.
pub proof fn lemma_codec_round_trip_value(n: nat)
    requires
        n < field_modulus(),
    ensures
        decoded_value(decimal_of(n)) == Some(n),
{
    lemma_decimal_of(n);
}

/// The encoding is collision-free: a string that decodes to `n` is the
/// encoding of `n`.
pub proof fn lemma_codec_canonical(s: Seq<char>)
    ensures
        decoded_value(s) matches Some(n) ==> decimal_of(n) == s,
{
    if decoded_value(s) is Some {
        lemma_canonical_unique(s);
    }
}

} // verus!
