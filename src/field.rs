use vstd::prelude::*;

use ark_bls12_381::Fr;
use ark_ff::bytes::FromBytes;
use ark_ff::{BigInteger, PrimeField};

verus! {

#[verifier::external_type_specification]
#[verifier::external_body]
#[verifier::reject_recursive_types(P)]
pub struct ExFp256<P>(ark_ff::Fp256<P>);

#[verifier::external_type_specification]
#[verifier::external_body]
pub struct ExFrParameters(ark_bls12_381::FrParameters);

/// The number that a little-endian byte string denotes.
pub open spec fn le_nat(s: Seq<u8>) -> nat
    decreases s.len(),
{
    if s.len() == 0 {
        0
    } else {
        s[0] as nat + 256 * le_nat(s.skip(1))
    }
}

/// The order of the BLS12-381 scalar field,
/// 0x73eda753299d7d483339d80809a1d80553bda402fffe5bfeffffffff00000001.
pub open spec fn field_modulus() -> nat {
    (0x73eda753299d7d483339d80809a1d805 as nat) * two_pow_64() * two_pow_64()
        + 0x53bda402fffe5bfeffffffff00000001 as nat
}

pub open spec fn two_pow_64() -> nat {
    0x1_0000_0000_0000_0000
}

/// Number of bytes in the canonical little-endian form of a field element.
pub const FIELD_BYTES: usize = 32;

/// Relies on `FromBytes::read` of ark-ff's `Fp256`: it reads four little-endian
/// 64-bit limbs and accepts them exactly when they lie below the modulus.
#[verifier::external_body]
fn fr_from_le_bytes(b: &[u8]) -> (r: Option<Fr>)
    requires
        b@.len() == FIELD_BYTES,
    ensures
        r is Some <==> le_nat(b@) < field_modulus(),
{
    <Fr as FromBytes>::read(b).ok()
}

/// Relies on `PrimeField::into_repr` and `BigInteger::to_bytes_le` of ark-ff:
/// the canonical representative, below the modulus, as 32 little-endian bytes.
#[verifier::external_body]
fn fr_to_le_bytes(f: &Fr) -> (r: Vec<u8>)
    ensures
        r@.len() == FIELD_BYTES,
        le_nat(r@) < field_modulus(),
{
    f.into_repr().to_bytes_le()
}

/// An element of the scalar field, held both as its canonical little-endian
/// bytes and as the backend's element that those bytes denote.
#[derive(Debug)]
pub struct FieldValue {
    bytes: Vec<u8>,
    elem: Fr,
}

impl FieldValue {
    /// The canonical little-endian bytes of this element.
    pub closed spec fn le_bytes(&self) -> Seq<u8> {
        self.bytes@
    }

    /// The integer in `[0, modulus)` that this element stands for.
    pub open spec fn value(&self) -> nat {
        le_nat(self.le_bytes())
    }

    pub open spec fn wf(&self) -> bool {
        &&& self.le_bytes().len() == FIELD_BYTES
        &&& self.value() < field_modulus()
    }

    /// The element whose canonical bytes are `b`, of any length; `None` when
    /// the number that `b` denotes is not below the modulus.
    pub fn from_le_bytes(b: &Vec<u8>) -> (r: Option<FieldValue>)
        ensures
            r is Some <==> le_nat(b@) < field_modulus(),
            r matches Some(v) ==> v.wf() && v.value() == le_nat(b@),
    {
        let mut fixed: Vec<u8> = Vec::new();
        let mut i: usize = 0;
        while i < FIELD_BYTES
            invariant
                i <= FIELD_BYTES,
                fixed@ == prefix_padded(b@, i as nat),
            decreases FIELD_BYTES - i,
        {
            if i < b.len() {
                fixed.push(b[i]);
            } else {
                fixed.push(0u8);
            }
            i = i + 1;
            assert(fixed@ =~= prefix_padded(b@, i as nat));
        }
        let mut tail_zero = true;
        if b.len() > FIELD_BYTES {
            let mut j: usize = FIELD_BYTES;
            while j < b.len()
                invariant
                    FIELD_BYTES <= j <= b@.len(),
                    tail_zero <==> all_zero(b@.subrange(FIELD_BYTES as int, j as int)),
                decreases b.len() - j,
            {
                proof {
                    let s = b@.subrange(FIELD_BYTES as int, j as int);
                    assert(b@.subrange(FIELD_BYTES as int, j + 1) =~= s.push(b@[j as int]));
                    lemma_all_zero_push(s, b@[j as int]);
                }
                if b[j] != 0 {
                    tail_zero = false;
                }
                j = j + 1;
            }
        }
        proof {
            lemma_le_nat_fit(b@);
        }
        if !tail_zero {
            return None;
        }
        let elem = fr_from_le_bytes(fixed.as_slice());
        match elem {
            Some(e) => Some(FieldValue { bytes: fixed, elem: e }),
            None => None,
        }
    }

    /// The element `n`, which is below the modulus for every `u64`.
    pub fn from_u64(n: u64) -> (r: FieldValue)
        ensures
            r.wf(),
            r.value() == n as nat,
    {
        let mut bytes: Vec<u8> = Vec::new();
        let mut rest: u64 = n;
        let mut i: usize = 0;
        assert(le_nat(bytes@) == 0);
        assert(pow256(0) == 1);
        while i < FIELD_BYTES
            invariant
                i <= FIELD_BYTES,
                bytes@.len() == i,
                le_nat(bytes@) + pow256(i as nat) * (rest as nat) == n as nat,
            decreases FIELD_BYTES - i,
        {
            let d: u8 = (rest % 256) as u8;
            proof {
                lemma_le_nat_push(bytes@, d);
                let p = pow256(i as nat);
                let q = (rest / 256) as nat;
                let m = (rest % 256) as nat;
                assert(rest as nat == 256 * q + m);
                assert(p * (rest as nat) == p * m + (256 * p) * q) by (nonlinear_arith)
                    requires rest as nat == 256 * q + m;
            }
            bytes.push(d);
            rest = rest / 256;
            i = i + 1;
        }
        proof {
            lemma_pow256_32();
            assert(rest == 0) by (nonlinear_arith)
                requires
                    le_nat(bytes@) + pow256(32) * (rest as nat) == n as nat,
                    (n as nat) < pow256(32),
            ;
        }
        let elem = fr_from_le_bytes(bytes.as_slice());
        proof {
            assert((n as nat) < field_modulus());
        }
        FieldValue { bytes, elem: elem.unwrap() }
    }

    #[verifier::type_invariant]
    pub closed spec fn inv(&self) -> bool {
        self.wf()
    }

    /// The element as a `u64`, when it is below `2^64`.
    pub fn to_u64(&self) -> (r: Option<u64>)
        ensures
            r is Some <==> self.value() < 0x1_0000_0000_0000_0000,
            r matches Some(n) ==> n as nat == self.value(),
    {
        proof {
            use_type_invariant(self);
        }
        let mut high_zero = true;
        let mut j: usize = 8;
        while j < FIELD_BYTES
            invariant
                8 <= j <= FIELD_BYTES,
                self.bytes@.len() == FIELD_BYTES,
                high_zero <==> all_zero(self.bytes@.subrange(8, j as int)),
            decreases FIELD_BYTES - j,
        {
            proof {
                let s = self.bytes@.subrange(8, j as int);
                assert(self.bytes@.subrange(8, j + 1) =~= s.push(self.bytes@[j as int]));
                lemma_all_zero_push(s, self.bytes@[j as int]);
            }
            if self.bytes[j] != 0 {
                high_zero = false;
            }
            j = j + 1;
        }
        let ghost lo = self.bytes@.subrange(0, 8);
        let ghost hi = self.bytes@.subrange(8, 32);
        proof {
            assert(self.bytes@ =~= lo + hi);
            lemma_le_nat_concat(lo, hi);
            lemma_le_nat_zero(hi);
            lemma_le_nat_bound(lo);
            reveal_with_fuel(pow256, 9);
            if !high_zero {
                assert(pow256(8) * le_nat(hi) >= pow256(8)) by (nonlinear_arith)
                    requires le_nat(hi) >= 1;
            }
        }
        if !high_zero {
            return None;
        }
        let mut acc: u64 = 0;
        let mut i: usize = 8;
        while i > 0
            invariant
                i <= 8,
                self.bytes@.len() == FIELD_BYTES,
                lo == self.bytes@.subrange(0, 8),
                acc as nat == le_nat(self.bytes@.subrange(i as int, 8)),
            decreases i,
        {
            let ghost t = self.bytes@.subrange(i - 1, 8);
            proof {
                assert(t.skip(1) =~= self.bytes@.subrange(i as int, 8));
                lemma_le_nat_bound(self.bytes@.subrange(i as int, 8));
                lemma_pow256_le8((8 - i) as nat);
                assert(acc as nat * 256 + 255 < 0x1_0000_0000_0000_0000) by (nonlinear_arith)
                    requires
                        (acc as nat) < pow256((8 - i) as nat),
                        pow256((8 - i) as nat) <= pow256(7),
                        pow256(7) == 0x100_0000_0000_0000,
                ;
            }
            acc = acc * 256 + self.bytes[i - 1] as u64;
            i = i - 1;
        }
        proof {
            assert(self.bytes@.subrange(0, 8) =~= lo);
        }
        Some(acc)
    }

    /// The backend's element that this value denotes.
    pub closed spec fn fr(&self) -> Fr {
        self.elem
    }

    /// The backend's element.
    pub fn to_fr(&self) -> (r: Fr)
        ensures
            r == self.fr(),
    {
        self.elem
    }

    /// A copy of the canonical little-endian bytes.
    pub fn to_le_bytes(&self) -> (r: Vec<u8>)
        ensures
            r@ == self.le_bytes(),
    {
        self.bytes.clone()
    }

    /// The same element, as a fresh value.
    pub fn duplicate(&self) -> (r: FieldValue)
        ensures
            r.le_bytes() == self.le_bytes(),
            r.fr() == self.fr(),
    {
        proof {
            use_type_invariant(self);
        }
        FieldValue { bytes: self.bytes.clone(), elem: self.elem }
    }

    /// The element that the backend's `f` stands for.
    pub fn from_fr(f: Fr) -> (r: FieldValue)
        ensures
            r.wf(),
    {
        FieldValue { bytes: fr_to_le_bytes(&f), elem: f }
    }
}

/// `256^k`.
pub open spec fn pow256(k: nat) -> nat
    decreases k,
{
    if k == 0 {
        1
    } else {
        256 * pow256((k - 1) as nat)
    }
}

pub open spec fn all_zero(s: Seq<u8>) -> bool {
    forall|i: int| 0 <= i < s.len() ==> s[i] == 0
}

/// The first `k` bytes of `b`, padded with zeros where `b` is shorter.
pub open spec fn prefix_padded(b: Seq<u8>, k: nat) -> Seq<u8> {
    Seq::new(k, |i: int| if i < b.len() { b[i] } else { 0u8 })
}

proof fn lemma_all_zero_push(s: Seq<u8>, x: u8)
    ensures
        all_zero(s.push(x)) <==> all_zero(s) && x == 0,
{
    if all_zero(s.push(x)) {
        assert(s.push(x)[s.len() as int] == x);
        assert forall|i: int| 0 <= i < s.len() implies s[i] == 0 by {
            assert(s.push(x)[i] == s[i]);
        }
    }
}

/// Bytes appended at the high end weigh `256^len` of what precedes them.
pub proof fn lemma_le_nat_concat(a: Seq<u8>, b: Seq<u8>)
    ensures
        le_nat(a + b) == le_nat(a) + pow256(a.len()) * le_nat(b),
    decreases a.len(),
{
    if a.len() == 0 {
        assert(a + b =~= b);
        assert(le_nat(a) == 0);
        assert(pow256(0) == 1);
    } else {
        assert((a + b).skip(1) =~= a.skip(1) + b);
        lemma_le_nat_concat(a.skip(1), b);
        assert((a + b)[0] == a[0]);
        let p = pow256(a.skip(1).len());
        assert(pow256(a.len()) == 256 * p);
        assert(256 * (le_nat(a.skip(1)) + p * le_nat(b)) == 256 * le_nat(a.skip(1)) + (256 * p)
            * le_nat(b)) by (nonlinear_arith);
        assert(le_nat(a + b) == a[0] as nat + 256 * le_nat(a.skip(1) + b));
        assert(le_nat(a) == a[0] as nat + 256 * le_nat(a.skip(1)));
    }
}

pub proof fn lemma_le_nat_push(a: Seq<u8>, x: u8)
    ensures
        le_nat(a.push(x)) == le_nat(a) + pow256(a.len()) * (x as nat),
{
    let one = seq![x];
    assert(a.push(x) =~= a + one);
    lemma_le_nat_concat(a, one);
    assert(one.skip(1) =~= Seq::<u8>::empty());
    assert(le_nat(Seq::<u8>::empty()) == 0);
    assert(le_nat(one) == one[0] as nat + 256 * le_nat(one.skip(1)));
}

pub proof fn lemma_le_nat_zero(s: Seq<u8>)
    ensures
        all_zero(s) <==> le_nat(s) == 0,
    decreases s.len(),
{
    if s.len() > 0 {
        lemma_le_nat_zero(s.skip(1));
        if all_zero(s) {
            assert(all_zero(s.skip(1)));
        }
        if le_nat(s) == 0 {
            assert forall|i: int| 0 <= i < s.len() implies s[i] == 0 by {
                if i > 0 {
                    assert(s.skip(1)[i - 1] == s[i]);
                }
            }
        }
    }
}

pub proof fn lemma_pow256_32()
    ensures
        pow256(32) == two_pow_64() * two_pow_64() * two_pow_64() * two_pow_64(),
        field_modulus() < pow256(32),
        two_pow_64() < field_modulus(),
{
    reveal_with_fuel(pow256, 33);
}

/// A byte string of length `n` denotes a number below `256^n`.
pub proof fn lemma_le_nat_bound(s: Seq<u8>)
    ensures
        le_nat(s) < pow256(s.len()),
    decreases s.len(),
{
    if s.len() > 0 {
        lemma_le_nat_bound(s.skip(1));
        let p = pow256(s.skip(1).len());
        assert(s[0] as nat + 256 * le_nat(s.skip(1)) < 256 * p) by (nonlinear_arith)
            requires le_nat(s.skip(1)) < p, s[0] < 256;
    }
}

proof fn lemma_pow256_le8(k: nat)
    requires
        k <= 7,
    ensures
        pow256(k) <= pow256(7),
        pow256(7) == 0x100_0000_0000_0000,
{
    reveal_with_fuel(pow256, 8);
}

/// What `from_le_bytes` relies on: the 32-byte padded prefix denotes the whole
/// number when the rest is zero, and the number is at least `256^32` otherwise.
proof fn lemma_le_nat_fit(b: Seq<u8>)
    ensures
        b.len() <= FIELD_BYTES ==> le_nat(prefix_padded(b, FIELD_BYTES as nat)) == le_nat(b),
        b.len() > FIELD_BYTES ==> (all_zero(b.subrange(FIELD_BYTES as int, b.len() as int))
            ==> le_nat(prefix_padded(b, FIELD_BYTES as nat)) == le_nat(b)),
        b.len() > FIELD_BYTES ==> (!all_zero(b.subrange(FIELD_BYTES as int, b.len() as int))
            ==> le_nat(b) >= field_modulus()),
{
    lemma_pow256_32();
    let k = FIELD_BYTES as int;
    if b.len() <= FIELD_BYTES {
        let z = Seq::new((FIELD_BYTES - b.len()) as nat, |i: int| 0u8);
        assert(prefix_padded(b, FIELD_BYTES as nat) =~= b + z);
        lemma_le_nat_concat(b, z);
        lemma_le_nat_zero(z);
    } else {
        let lo = b.subrange(0, k);
        let hi = b.subrange(k, b.len() as int);
        assert(b =~= lo + hi);
        assert(prefix_padded(b, FIELD_BYTES as nat) =~= lo);
        lemma_le_nat_concat(lo, hi);
        lemma_le_nat_zero(hi);
        if !all_zero(hi) {
            assert(pow256(32) * le_nat(hi) >= pow256(32)) by (nonlinear_arith)
                requires le_nat(hi) >= 1;
        }
    }
}

} // verus!
