use vstd::prelude::*;
use halo2_proofs::pasta::group::ff::PrimeField;
use halo2_proofs::pasta::Fp;

verus! {

/// The order of the Pallas base field.
pub open spec fn modulus() -> int {
    0x40000000000000000000000000000000224698fc094cf91b992d30ed00000001int
}

/// The number that a little-endian byte string stands for.
pub open spec fn le_nat(s: Seq<u8>) -> nat
    decreases s.len(),
{
    if s.len() == 0 {
        0
    } else {
        s[0] as nat + 256 * le_nat(s.drop_first())
    }
}

/// Two byte strings of one length that stand for the same number are equal.
pub proof fn lemma_le_nat_injective(s: Seq<u8>, t: Seq<u8>)
    requires
        s.len() == t.len(),
        le_nat(s) == le_nat(t),
    ensures
        s == t,
    decreases s.len(),
{
    if s.len() > 0 {
        let a = le_nat(s.drop_first());
        let b = le_nat(t.drop_first());
        let x = s[0] as int;
        let y = t[0] as int;
        assert(x == y && a == b) by (nonlinear_arith)
            requires
                0 <= x < 256,
                0 <= y < 256,
                a >= 0,
                b >= 0,
                x + 256 * a == y + 256 * b,
        ;
        lemma_le_nat_injective(s.drop_first(), t.drop_first());
        assert(s =~= seq![s[0]] + s.drop_first());
        assert(t =~= seq![t[0]] + t.drop_first());
    }
}

/// A number already below the field order is its own residue.
pub proof fn lemma_mod_small(x: int)
    requires
        0 <= x < modulus(),
    ensures
        x % modulus() == x,
{
    vstd::arithmetic::div_mod::lemma_small_mod(x as nat, modulus() as nat);
}

/// Adding or taking away the field order keeps the residue.
pub proof fn lemma_mod_shift(x: int)
    ensures
        (x + modulus()) % modulus() == x % modulus(),
        (x - modulus()) % modulus() == x % modulus(),
{
    vstd::arithmetic::div_mod::lemma_mod_add_multiples_vanish(x, modulus());
    vstd::arithmetic::div_mod::lemma_mod_sub_multiples_vanish(x, modulus());
}

/// Two multiples of the field order that lie less than it apart are equal.
pub proof fn lemma_residue_unique(x: int, y: int)
    requires
        x % modulus() == 0,
        y % modulus() == 0,
        -modulus() < x - y < modulus(),
    ensures
        x == y,
{
    let p = modulus();
    vstd::arithmetic::div_mod::lemma_fundamental_div_mod(x, p);
    vstd::arithmetic::div_mod::lemma_fundamental_div_mod(y, p);
    let k = x / p;
    let l = y / p;
    assert(k == l) by (nonlinear_arith)
        requires
            p > 0,
            x == p * k,
            y == p * l,
            -p < x - y < p,
    ;
}

/// Relies on `Fp: From<u64>` and `PrimeField::to_repr` (pasta_curves): the
/// element `n`, written as its canonical little-endian bytes.
#[verifier::external_body]
fn repr_from_u64(n: u64) -> (r: [u8; 32])
    ensures
        le_nat(r@) == n as int,
{
    Fp::from(n).to_repr()
}

/// Relies on `PrimeField::from_repr`, `Fp + Fp` and `PrimeField::to_repr`
/// (pasta_curves): addition modulo the field order on canonical encodings.
#[verifier::external_body]
fn repr_add(a: &[u8; 32], b: &[u8; 32]) -> (r: [u8; 32])
    requires
        le_nat(a@) < modulus(),
        le_nat(b@) < modulus(),
    ensures
        le_nat(r@) == (le_nat(a@) as int + le_nat(b@) as int) % modulus(),
{
    (Fp::from_repr(*a).unwrap() + Fp::from_repr(*b).unwrap()).to_repr()
}

/// Relies on `PrimeField::from_repr`, `Fp - Fp` and `PrimeField::to_repr`
/// (pasta_curves): subtraction modulo the field order on canonical encodings.
#[verifier::external_body]
fn repr_sub(a: &[u8; 32], b: &[u8; 32]) -> (r: [u8; 32])
    requires
        le_nat(a@) < modulus(),
        le_nat(b@) < modulus(),
    ensures
        le_nat(r@) == (le_nat(a@) as int - le_nat(b@) as int) % modulus(),
{
    (Fp::from_repr(*a).unwrap() - Fp::from_repr(*b).unwrap()).to_repr()
}

/// An element of the Pallas base field, held as its canonical
/// little-endian encoding.
#[derive(Clone, Copy, Debug, PartialEq, Eq)]
pub struct Fe {
    repr: [u8; 32],
}

impl Fe {
    /// The number in `0 .. modulus()` that this element stands for.
    pub closed spec fn val(self) -> int {
        le_nat(self.repr@) as int
    }

    /// The encoding is canonical: the number is below the field order.
    pub open spec fn wf(self) -> bool {
        0 <= self.val() < modulus()
    }

    /// Elements that stand for the same number are the same element.
    pub proof fn lemma_val_injective(self, other: Fe)
        requires
            self.val() == other.val(),
        ensures
            self == other,
    {
        lemma_le_nat_injective(self.repr@, other.repr@);
        assert(self.repr =~= other.repr);
    }

    pub fn from_u64(n: u64) -> (r: Fe)
        ensures
            r.wf(),
            r.val() == n as int,
    {
        Fe { repr: repr_from_u64(n) }
    }

    /// The canonical little-endian encoding.
    pub fn to_bytes(&self) -> (r: [u8; 32])
        ensures
            le_nat(r@) == self.val(),
    {
        self.repr
    }

    pub fn zero() -> (r: Fe)
        ensures
            r.wf(),
            r.val() == 0,
    {
        Fe::from_u64(0)
    }

    pub fn one() -> (r: Fe)
        ensures
            r.wf(),
            r.val() == 1,
    {
        Fe::from_u64(1)
    }

    /// Field addition.
    pub fn add(self, other: Fe) -> (r: Fe)
        requires
            self.wf(),
            other.wf(),
        ensures
            r.wf(),
            r.val() == (self.val() + other.val()) % modulus(),
    {
        Fe { repr: repr_add(&self.repr, &other.repr) }
    }

    /// Field subtraction.
    pub fn sub(self, other: Fe) -> (r: Fe)
        requires
            self.wf(),
            other.wf(),
        ensures
            r.wf(),
            r.val() == (self.val() - other.val()) % modulus(),
    {
        Fe { repr: repr_sub(&self.repr, &other.repr) }
    }

    /// Whether two elements are the same field element.
    pub fn equals(&self, other: &Fe) -> (r: bool)
        ensures
            r == (self.val() == other.val()),
    {
        let mut i: usize = 0;
        while i < 32
            invariant
                i <= 32,
                forall|j: int| 0 <= j < i ==> self.repr@[j] == other.repr@[j],
            decreases 32 - i,
        {
            if self.repr[i] != other.repr[i] {
                proof {
                    if self.val() == other.val() {
                        lemma_le_nat_injective(self.repr@, other.repr@);
                    }
                }
                return false;
            }
            i = i + 1;
        }
        assert(self.repr@ =~= other.repr@);
        true
    }

    /// Whether this is the additive identity.
    pub fn is_zero(&self) -> (r: bool)
        requires
            self.wf(),
        ensures
            r == (self.val() == 0),
    {
        self.equals(&Fe::zero())
    }
}

} // verus!
