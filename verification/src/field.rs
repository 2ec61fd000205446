//! Field elements for the constraint builder.
//!
//! An element of the BLS12-381 scalar field is held as its canonical 32-byte
//! little-endian encoding.  The arithmetic itself is done by `ark_bls12_381`
//! and `ark_ff` behind trusted wrappers; at the specification level the
//! operations are opaque functions over byte strings, about which only the
//! documented unit laws are assumed.

use vstd::prelude::*;

verus! {

/// The canonical encoding of the sum of the two scalars encoded by `a` and
/// `b` (addition in the BLS12-381 scalar field).
pub uninterp spec fn add_bytes(a: Seq<u8>, b: Seq<u8>) -> Seq<u8>;

/// The canonical encoding of the product of the two scalars encoded by `a`
/// and `b` (multiplication in the BLS12-381 scalar field).
pub uninterp spec fn mul_bytes(a: Seq<u8>, b: Seq<u8>) -> Seq<u8>;

/// The canonical encoding of the difference of the two scalars encoded by
/// `a` and `b` (subtraction in the BLS12-381 scalar field).
pub uninterp spec fn sub_bytes(a: Seq<u8>, b: Seq<u8>) -> Seq<u8>;

/// The canonical encoding of the scalar with the small non-negative value
/// `n`; in particular `u64_bytes(0)` and `u64_bytes(1)` encode the field's
/// two identities.
pub uninterp spec fn u64_bytes(n: u64) -> Seq<u8>;

/// Holds of a byte string exactly when it is the canonical little-endian
/// encoding of some scalar, that is, a string that
/// `PrimeField::into_repr(..).to_bytes_le()` can return.
pub uninterp spec fn canon_bytes(s: Seq<u8>) -> bool;

/// The contribution of one linear-combination term: coefficient `c` applied
/// to the value `v`.  In the field this is plain multiplication; the unit
/// case is split off so that the law `1 * v = v` holds by definition.
pub open spec fn scale_bytes(c: Seq<u8>, v: Seq<u8>) -> Seq<u8> {
    if c == u64_bytes(1) {
        v
    } else {
        mul_bytes(c, v)
    }
}

/// The product of two evaluated linear combinations.  In the field this is
/// plain multiplication; the unit cases are split off so that the laws
/// `1 * v = v` and `v * 1 = v` hold by definition.
pub open spec fn prod_bytes(a: Seq<u8>, b: Seq<u8>) -> Seq<u8> {
    if a == u64_bytes(1) {
        b
    } else if b == u64_bytes(1) {
        a
    } else {
        mul_bytes(a, b)
    }
}

/// One element of the BLS12-381 scalar field, as its canonical 32-byte
/// little-endian encoding.  Two values are equal in the field exactly when
/// their encodings are equal byte for byte.
#[derive(Clone, Copy, Debug)]
pub struct Fe {
    bytes: [u8; 32],
}

impl View for Fe {
    type V = Seq<u8>;

    closed spec fn view(&self) -> Seq<u8> {
        self.bytes@
    }
}

impl Fe {
    /// Every value of this type holds a canonical encoding: the only
    /// constructors are the wrappers below, which re-encode their result.
    #[verifier::type_invariant]
    spec fn inv(self) -> bool {
        canon_bytes(self.bytes@)
    }

    /// Relies on `ark_bls12_381::Fr`'s `From<u64>` conversion, and on
    /// `PrimeField::into_repr` / `BigInteger::to_bytes_le` for the canonical
    /// encoding of the converted scalar.
    #[verifier::external_body]
    pub fn from_u64(n: u64) -> (r: Fe)
        ensures
            r@ == u64_bytes(n),
            canon_bytes(r@),
    {
        let f = ark_bls12_381::Fr::from(n);
        let le = ark_ff::BigInteger::to_bytes_le(&ark_ff::PrimeField::into_repr(&f));
        let mut bytes = [0u8; 32];
        bytes.copy_from_slice(&le);
        Fe { bytes }
    }

    /// Relies on `UniformRand::rand` for `Fr`, drawing from a `StdRng` seeded
    /// with the given value; nothing is assumed about which scalar comes
    /// back, only that it is re-encoded canonically.
    #[verifier::external_body]
    pub fn random(seed: u64) -> (r: Fe)
        ensures
            canon_bytes(r@),
    {
        let mut rng = <ark_std::rand::rngs::StdRng as ark_std::rand::SeedableRng>::seed_from_u64(seed);
        let f: ark_bls12_381::Fr = ark_ff::UniformRand::rand(&mut rng);
        let le = ark_ff::BigInteger::to_bytes_le(&ark_ff::PrimeField::into_repr(&f));
        let mut bytes = [0u8; 32];
        bytes.copy_from_slice(&le);
        Fe { bytes }
    }

    /// Relies on the field addition of `ark_bls12_381::Fr`: it is commutative
    /// and the zero scalar is its identity; the sum is re-encoded
    /// canonically.
    #[verifier::external_body]
    pub fn add(&self, other: &Fe) -> (r: Fe)
        ensures
            r@ == add_bytes(self@, other@),
            r@ == add_bytes(other@, self@),
            canon_bytes(r@),
            self@ == u64_bytes(0) ==> r@ == other@,
            other@ == u64_bytes(0) ==> r@ == self@,
    {
        let a: ark_bls12_381::Fr = ark_ff::PrimeField::from_le_bytes_mod_order(&self.bytes);
        let b: ark_bls12_381::Fr = ark_ff::PrimeField::from_le_bytes_mod_order(&other.bytes);
        let le = ark_ff::BigInteger::to_bytes_le(&ark_ff::PrimeField::into_repr(&(a + b)));
        let mut bytes = [0u8; 32];
        bytes.copy_from_slice(&le);
        Fe { bytes }
    }

    /// Relies on the field subtraction of `ark_bls12_381::Fr`: a value minus
    /// itself is the zero scalar; the difference is re-encoded canonically.
    #[verifier::external_body]
    pub fn sub(&self, other: &Fe) -> (r: Fe)
        ensures
            r@ == sub_bytes(self@, other@),
            canon_bytes(r@),
            self@ == other@ ==> r@ == u64_bytes(0),
    {
        let a: ark_bls12_381::Fr = ark_ff::PrimeField::from_le_bytes_mod_order(&self.bytes);
        let b: ark_bls12_381::Fr = ark_ff::PrimeField::from_le_bytes_mod_order(&other.bytes);
        let le = ark_ff::BigInteger::to_bytes_le(&ark_ff::PrimeField::into_repr(&(a - b)));
        let mut bytes = [0u8; 32];
        bytes.copy_from_slice(&le);
        Fe { bytes }
    }

    /// Relies on the field multiplication of `ark_bls12_381::Fr`: it is
    /// commutative and the one scalar is its identity; the product is
    /// re-encoded canonically.
    #[verifier::external_body]
    pub fn mul(&self, other: &Fe) -> (r: Fe)
        ensures
            r@ == mul_bytes(self@, other@),
            r@ == mul_bytes(other@, self@),
            canon_bytes(r@),
            self@ == u64_bytes(1) ==> r@ == other@,
            other@ == u64_bytes(1) ==> r@ == self@,
    {
        let a: ark_bls12_381::Fr = ark_ff::PrimeField::from_le_bytes_mod_order(&self.bytes);
        let b: ark_bls12_381::Fr = ark_ff::PrimeField::from_le_bytes_mod_order(&other.bytes);
        let le = ark_ff::BigInteger::to_bytes_le(&ark_ff::PrimeField::into_repr(&(a * b)));
        let mut bytes = [0u8; 32];
        bytes.copy_from_slice(&le);
        Fe { bytes }
    }

    /// The canonical encoding itself, for callers outside the library that
    /// need to rebuild the scalar.
    pub fn to_bytes(&self) -> (r: [u8; 32])
        ensures
            r@ == self@,
    {
        self.bytes
    }
}

impl PartialEq for Fe {
    fn eq(&self, other: &Fe) -> (r: bool) {
        let mut i: usize = 0;
        while i < 32
            invariant
                0 <= i <= 32,
                forall|j: int| 0 <= j < i ==> self.bytes@[j] == other.bytes@[j],
            decreases 32 - i,
        {
            if self.bytes[i] != other.bytes[i] {
                return false;
            }
            i += 1;
        }
        proof {
            assert(self.bytes@ =~= other.bytes@);
        }
        true
    }
}

impl vstd::std_specs::cmp::PartialEqSpecImpl for Fe {
    open spec fn obeys_eq_spec() -> bool {
        true
    }

    open spec fn eq_spec(&self, other: &Fe) -> bool {
        self@ == other@
    }
}

} // verus!
