//! Fixed-width values of the storage model: 20-byte addresses and 256-bit words.
//!
//! Both are kept as big-endian byte arrays, the form in which the persistent
//! store, the hash function and the calldata encoding see them. A word also has
//! a numeric value, which the arithmetic of the handlers is stated over.

use vstd::prelude::*;

verus! {

/// The number of values a 256-bit word can take, `2^256`.
pub open spec fn word_modulus() -> nat {
    0x1_0000_0000_0000_0000_0000_0000_0000_0000_0000_0000_0000_0000_0000_0000_0000_0000_0000nat
}

/// The value of the eight bytes of `s` that start at `at`, read big-endian.
pub open spec fn be_u64(s: Seq<u8>, at: int) -> nat {
    (s[at] as nat) * 0x100_0000_0000_0000 + (s[at + 1] as nat) * 0x1_0000_0000_0000 + (s[at
        + 2] as nat) * 0x100_0000_0000 + (s[at + 3] as nat) * 0x1_0000_0000 + (s[at + 4] as nat)
        * 0x100_0000 + (s[at + 5] as nat) * 0x1_0000 + (s[at + 6] as nat) * 0x100 + (s[at
        + 7] as nat)
}

/// The value of a 32-byte sequence read as one big-endian number.
pub open spec fn word_value(s: Seq<u8>) -> nat
    recommends
        s.len() == 32,
{
    be_u64(s, 0) * 0x1_0000_0000_0000_0000_0000_0000_0000_0000_0000_0000_0000_0000
        + be_u64(s, 8) * 0x1_0000_0000_0000_0000_0000_0000_0000_0000
        + be_u64(s, 16) * 0x1_0000_0000_0000_0000
        + be_u64(s, 24)
}

/// The 32-byte word that holds `bytes` in its low-order end, zero above.
pub open spec fn left_padded(bytes: Seq<u8>) -> Seq<u8>
    recommends
        bytes.len() <= 32,
{
    Seq::new((32 - bytes.len()) as nat, |i: int| 0u8) + bytes
}

/// The `count` low-order base-256 digits of `n`, the highest of them first.
pub open spec fn low_bytes(n: nat, count: nat) -> Seq<u8>
    decreases count,
{
    if count == 0 {
        Seq::empty()
    } else {
        low_bytes(n / 256, (count - 1) as nat).push((n % 256) as u8)
    }
}

/// The 32-byte word that stands for the number `n`, for `n` below `2^128`.
pub open spec fn uint_word(n: nat) -> Seq<u8> {
    Seq::new(16, |i: int| 0u8) + low_bytes(n, 16)
}

/// The number that a word stands for, where it is below `2^64`.
pub open spec fn word_to_u64(w: Seq<u8>) -> Option<u64>
    recommends
        w.len() == 32,
{
    if forall|j: int| 0 <= j < 24 ==> w[j] == 0u8 {
        Some(be_u64(w, 24) as u64)
    } else {
        None
    }
}

/// The digits of a number have the length asked for.
pub proof fn lemma_low_bytes_len(n: nat, count: nat)
    ensures
        low_bytes(n, count).len() == count,
    decreases count,
{
    if count > 0 {
        lemma_low_bytes_len(n / 256, (count - 1) as nat);
    }
}

/// Zero has only zero digits.
pub proof fn lemma_low_bytes_zero(count: nat, i: int)
    requires
        0 <= i < count,
    ensures
        low_bytes(0, count).len() == count,
        low_bytes(0, count)[i] == 0u8,
    decreases count,
{
    lemma_low_bytes_len(0, count);
    if i < count - 1 {
        lemma_low_bytes_zero((count - 1) as nat, i);
    }
}

/// The bytes of the word of a number below `2^64`: its eight base-256 digits
/// in the low-order end, zero above.
pub proof fn lemma_uint_word_bytes(n: u64)
    ensures
        uint_word(n as nat).len() == 32,
        forall|j: int| 0 <= j < 24 ==> uint_word(n as nat)[j] == 0u8,
        uint_word(n as nat)[31] == n % 256,
        uint_word(n as nat)[30] == (n / 256) % 256,
        uint_word(n as nat)[29] == (n / 256 / 256) % 256,
        uint_word(n as nat)[28] == (n / 256 / 256 / 256) % 256,
        uint_word(n as nat)[27] == (n / 256 / 256 / 256 / 256) % 256,
        uint_word(n as nat)[26] == (n / 256 / 256 / 256 / 256 / 256) % 256,
        uint_word(n as nat)[25] == (n / 256 / 256 / 256 / 256 / 256 / 256) % 256,
        uint_word(n as nat)[24] == (n / 256 / 256 / 256 / 256 / 256 / 256 / 256) % 256,
{
    let w = uint_word(n as nat);
    let m = n as nat;
    lemma_low_bytes_len(m, 16);
    let x1 = m / 256;
    let x2 = x1 / 256;
    let x3 = x2 / 256;
    let x4 = x3 / 256;
    let x5 = x4 / 256;
    let x6 = x5 / 256;
    let x7 = x6 / 256;
    let x8 = x7 / 256;
    assert(x8 == 0);
    lemma_low_bytes_len(x8, 8);
    lemma_low_bytes_len(x7, 9);
    lemma_low_bytes_len(x6, 10);
    lemma_low_bytes_len(x5, 11);
    lemma_low_bytes_len(x4, 12);
    lemma_low_bytes_len(x3, 13);
    lemma_low_bytes_len(x2, 14);
    lemma_low_bytes_len(x1, 15);
    let d8 = low_bytes(x8, 8);
    let d7 = low_bytes(x7, 9);
    let d6 = low_bytes(x6, 10);
    let d5 = low_bytes(x5, 11);
    let d4 = low_bytes(x4, 12);
    let d3 = low_bytes(x3, 13);
    let d2 = low_bytes(x2, 14);
    let d1 = low_bytes(x1, 15);
    let d0 = low_bytes(m, 16);
    assert(d7 == d8.push((x7 % 256) as u8));
    assert(d6 == d7.push((x6 % 256) as u8));
    assert(d5 == d6.push((x5 % 256) as u8));
    assert(d4 == d5.push((x4 % 256) as u8));
    assert(d3 == d4.push((x3 % 256) as u8));
    assert(d2 == d3.push((x2 % 256) as u8));
    assert(d1 == d2.push((x1 % 256) as u8));
    assert(d0 == d1.push((m % 256) as u8));
    assert forall|j: int| 0 <= j < 8 implies d0[j] == 0u8 by {
        lemma_low_bytes_zero(8, j);
        assert(d0[j] == d8[j]);
    }
    assert(w[24] == (x7 % 256) as u8);
    assert(w[25] == (x6 % 256) as u8);
    assert(w[26] == (x5 % 256) as u8);
    assert(w[27] == (x4 % 256) as u8);
    assert(w[28] == (x3 % 256) as u8);
    assert(w[29] == (x2 % 256) as u8);
    assert(w[30] == (x1 % 256) as u8);
    assert(w[31] == (m % 256) as u8);
    assert forall|j: int| 0 <= j < 24 implies w[j] == 0u8 by {
        if j >= 16 {
            assert(w[j] == d0[j - 16]);
        }
    }
}

/// The word of a number below `2^64` reads back as that number.
pub proof fn lemma_uint_word_u64(n: u64)
    ensures
        uint_word(n as nat).len() == 32,
        word_to_u64(uint_word(n as nat)) == Some(n),
        word_value(uint_word(n as nat)) == n,
{
    lemma_uint_word_bytes(n);
    let w = uint_word(n as nat);
    assert(be_u64(w, 24) == n);
    assert(be_u64(w, 0) == 0);
    assert(be_u64(w, 8) == 0);
    assert(be_u64(w, 16) == 0);
}

/// The word of the number that the last eight bytes of a word stand for is the
/// word cut down to those bytes.
pub proof fn lemma_word_of_low_bytes(w: Seq<u8>)
    requires
        w.len() == 32,
    ensures
        be_u64(w, 24) <= u64::MAX,
        uint_word(be_u64(w, 24)) == Seq::new(24, |i: int| 0u8) + w.subrange(24, 32),
{
    let q7 = w[24] as int;
    let q6 = q7 * 256 + w[25];
    let q5 = q6 * 256 + w[26];
    let q4 = q5 * 256 + w[27];
    let q3 = q4 * 256 + w[28];
    let q2 = q3 * 256 + w[29];
    let q1 = q2 * 256 + w[30];
    let q0 = q1 * 256 + w[31];
    assert(q0 == be_u64(w, 24));
    assert(q0 / 256 == q1 && q0 % 256 == w[31]);
    assert(q1 / 256 == q2 && q1 % 256 == w[30]);
    assert(q2 / 256 == q3 && q2 % 256 == w[29]);
    assert(q3 / 256 == q4 && q3 % 256 == w[28]);
    assert(q4 / 256 == q5 && q4 % 256 == w[27]);
    assert(q5 / 256 == q6 && q5 % 256 == w[26]);
    assert(q6 / 256 == q7 && q6 % 256 == w[25]);
    assert(q7 % 256 == w[24]);
    let n = q0 as u64;
    lemma_uint_word_bytes(n);
    let u = uint_word(n as nat);
    assert(u[31] == w[31]);
    assert(u[30] == w[30]);
    assert(u[29] == w[29]);
    assert(u[28] == w[28]);
    assert(u[27] == w[27]);
    assert(u[26] == w[26]);
    assert(u[25] == w[25]);
    assert(u[24] == w[24]);
    assert(u =~= Seq::new(24, |i: int| 0u8) + w.subrange(24, 32));
}

/// Twenty zero bytes.
pub fn zero_bytes20() -> (r: [u8; 20])
    ensures
        forall|j: int| 0 <= j < 20 ==> r@[j] == 0u8,
{
    [0, 0, 0, 0, 0, 0, 0, 0, 0, 0, 0, 0, 0, 0, 0, 0, 0, 0, 0, 0]
}

/// Thirty-two zero bytes.
pub fn zero_bytes32() -> (r: [u8; 32])
    ensures
        forall|j: int| 0 <= j < 32 ==> r@[j] == 0u8,
{
    [
        0, 0, 0, 0, 0, 0, 0, 0, 0, 0, 0, 0, 0, 0, 0, 0,
        0, 0, 0, 0, 0, 0, 0, 0, 0, 0, 0, 0, 0, 0, 0, 0,
    ]
}

/// A 20-byte account address.
#[derive(Clone, Copy, Debug)]
pub struct Address {
    pub bytes: [u8; 20],
}

impl View for Address {
    type V = Seq<u8>;

    open spec fn view(&self) -> Seq<u8> {
        self.bytes@
    }
}

impl Address {
    /// The address with the given bytes.
    pub fn new(bytes: [u8; 20]) -> (r: Address)
        ensures
            r@ == bytes@,
    {
        Address { bytes }
    }

    /// The address whose bytes are all zero.
    pub fn zero() -> (r: Address)
        ensures
            r@ == Seq::new(20, |i: int| 0u8),
    {
        let r = Address { bytes: zero_bytes20() };
        assert(r@ =~= Seq::new(20, |i: int| 0u8));
        r
    }

    /// The address as a storage word: its bytes in the low-order end.
    pub fn to_word(&self) -> (r: U256)
        ensures
            r@ == left_padded(self@),
    {
        let mut bytes = zero_bytes32();
        let mut i: usize = 0;
        while i < 20
            invariant
                i <= 20,
                forall|j: int| 0 <= j < 12 ==> bytes@[j] == 0u8,
                forall|j: int| 0 <= j < i ==> bytes@[12 + j] == self.bytes@[j],
            decreases 20 - i,
        {
            bytes[12 + i] = self.bytes[i];
            i = i + 1;
        }
        let r = U256 { bytes };
        assert(r@ =~= left_padded(self@));
        r
    }
}

impl PartialEq for Address {
    fn eq(&self, other: &Address) -> (r: bool) {
        let mut i: usize = 0;
        while i < 20
            invariant
                i <= 20,
                forall|j: int| 0 <= j < i ==> self.bytes@[j] == other.bytes@[j],
            decreases 20 - i,
        {
            if self.bytes[i] != other.bytes[i] {
                return false;
            }
            i = i + 1;
        }
        assert(self.bytes@ =~= other.bytes@);
        true
    }
}

impl Eq for Address {

}

impl vstd::std_specs::cmp::PartialEqSpecImpl for Address {
    open spec fn obeys_eq_spec() -> bool {
        true
    }

    open spec fn eq_spec(&self, other: &Address) -> bool {
        self@ == other@
    }
}

/// A 256-bit storage word, used for slot numbers and for stored values.
#[derive(Clone, Copy, Debug)]
pub struct U256 {
    pub bytes: [u8; 32],
}

impl View for U256 {
    type V = Seq<u8>;

    open spec fn view(&self) -> Seq<u8> {
        self.bytes@
    }
}

impl U256 {
    /// The number this word stands for.
    pub open spec fn value(&self) -> nat {
        word_value(self@)
    }

    /// The word with the given big-endian bytes.
    pub fn from_be_bytes(bytes: [u8; 32]) -> (r: U256)
        ensures
            r@ == bytes@,
    {
        U256 { bytes }
    }

    /// The big-endian bytes of the word.
    pub fn to_be_bytes(&self) -> (r: [u8; 32])
        ensures
            r@ == self@,
    {
        self.bytes
    }

    /// The word zero.
    pub fn zero() -> (r: U256)
        ensures
            r@ == Seq::new(32, |i: int| 0u8),
            r.value() == 0,
    {
        let r = U256 { bytes: zero_bytes32() };
        assert(r@ =~= Seq::new(32, |i: int| 0u8));
        r
    }

    /// The word one.
    pub fn one() -> (r: U256)
        ensures
            r@ == uint_word(1),
            r.value() == 1,
    {
        U256::from_u64(1)
    }

    /// The word whose value is `n`.
    pub fn from_u64(n: u64) -> (r: U256)
        ensures
            r@ == uint_word(n as nat),
            r.value() == n,
            forall|j: int| 0 <= j < 24 ==> r@[j] == 0u8,
    {
        proof {
            lemma_uint_word_bytes(n);
            lemma_uint_word_u64(n);
        }
        U256::from_uint(n as u128)
    }

    /// The word that stands for the number `n`.
    pub fn from_uint(n: u128) -> (r: U256)
        ensures
            r@ == uint_word(n as nat),
    {
        let mut bytes = zero_bytes32();
        let mut x: u128 = n;
        let mut i: usize = 0;
        while i < 16
            invariant
                i <= 16,
                forall|j: int| 0 <= j < 16 ==> bytes@[j] == 0u8,
                low_bytes(n as nat, 16) == low_bytes(x as nat, (16 - i) as nat) + bytes@.subrange(
                    32 - i,
                    32,
                ),
            decreases 16 - i,
        {
            let ghost before = bytes@;
            bytes[31 - i] = (x % 256) as u8;
            proof {
                assert(bytes@.subrange(32 - i - 1, 32) =~= seq![(x % 256) as u8] + before.subrange(
                    32 - i,
                    32,
                ));
                assert(low_bytes(x as nat, (16 - i) as nat) == low_bytes(
                    (x / 256) as nat,
                    (16 - i - 1) as nat,
                ).push((x % 256) as u8));
                assert(low_bytes((x / 256) as nat, (16 - i - 1) as nat).push((x % 256) as u8)
                    + before.subrange(32 - i, 32) =~= low_bytes(
                    (x / 256) as nat,
                    (16 - i - 1) as nat,
                ) + (seq![(x % 256) as u8] + before.subrange(32 - i, 32)));
            }
            x = x / 256;
            i = i + 1;
        }
        let r = U256 { bytes };
        proof {
            assert(low_bytes(x as nat, 0) =~= Seq::<u8>::empty());
            assert(low_bytes(n as nat, 16) =~= bytes@.subrange(16, 32));
            assert(r@ =~= uint_word(n as nat));
        }
        r
    }

    /// The value of the word as a `u64`, where it is small enough.
    pub fn to_u64(&self) -> (r: Option<u64>)
        ensures
            r is Some <==> self.value() <= u64::MAX,
            r is Some ==> r->0 == self.value(),
            r == word_to_u64(self@),
    {
        let mut i: usize = 0;
        while i < 24
            invariant
                i <= 24,
                forall|j: int| 0 <= j < i ==> self.bytes@[j] == 0u8,
            decreases 24 - i,
        {
            if self.bytes[i] != 0 {
                return None;
            }
            i = i + 1;
        }
        let b = &self.bytes;
        let n: u64 = (b[24] as u64) * 0x100_0000_0000_0000 + (b[25] as u64) * 0x1_0000_0000_0000
            + (b[26] as u64) * 0x100_0000_0000 + (b[27] as u64) * 0x1_0000_0000 + (b[28] as u64)
            * 0x100_0000 + (b[29] as u64) * 0x1_0000 + (b[30] as u64) * 0x100 + (b[31] as u64);
        Some(n)
    }

    /// The low-order 20 bytes of the word, as an address.
    pub fn to_address(&self) -> (r: Address)
        ensures
            r@ == self@.subrange(12, 32),
    {
        let mut bytes = zero_bytes20();
        let mut i: usize = 0;
        while i < 20
            invariant
                i <= 20,
                forall|j: int| 0 <= j < i ==> bytes@[j] == self.bytes@[12 + j],
            decreases 20 - i,
        {
            bytes[i] = self.bytes[12 + i];
            i = i + 1;
        }
        let r = Address { bytes };
        assert(r@ =~= self@.subrange(12, 32));
        r
    }

    /// Whether the word is zero.
    pub fn is_zero(&self) -> (r: bool)
        ensures
            r == (self.value() == 0),
            r == (self@ == Seq::new(32, |i: int| 0u8)),
    {
        let mut i: usize = 0;
        while i < 32
            invariant
                i <= 32,
                forall|j: int| 0 <= j < i ==> self.bytes@[j] == 0u8,
            decreases 32 - i,
        {
            if self.bytes[i] != 0 {
                return false;
            }
            i = i + 1;
        }
        assert(self@ =~= Seq::new(32, |i: int| 0u8));
        true
    }
}

impl PartialEq for U256 {
    fn eq(&self, other: &U256) -> (r: bool) {
        let mut i: usize = 0;
        while i < 32
            invariant
                i <= 32,
                forall|j: int| 0 <= j < i ==> self.bytes@[j] == other.bytes@[j],
            decreases 32 - i,
        {
            if self.bytes[i] != other.bytes[i] {
                return false;
            }
            i = i + 1;
        }
        assert(self.bytes@ =~= other.bytes@);
        true
    }
}

impl Eq for U256 {

}

impl vstd::std_specs::cmp::PartialEqSpecImpl for U256 {
    open spec fn obeys_eq_spec() -> bool {
        true
    }

    open spec fn eq_spec(&self, other: &U256) -> bool {
        self@ == other@
    }
}

/// Adds two words with `Uint::wrapping_add` of the `ruint` crate, reached as
/// `alloy::primitives::U256`. Claimed of it: the result is the sum of the two
/// values, reduced modulo `2^256`.
#[verifier::external_body]
pub(crate) fn wrapping_add(a: &U256, b: &U256) -> (r: U256)
    ensures
        r.value() == (a.value() + b.value()) % word_modulus(),
{
    let x = alloy::primitives::U256::from_be_bytes(a.bytes);
    let y = alloy::primitives::U256::from_be_bytes(b.bytes);
    U256 { bytes: x.wrapping_add(y).to_be_bytes() }
}

/// Subtracts with `Uint::checked_sub` of the `ruint` crate. Claimed of it: the
/// result is `None` exactly when the second value is the larger one, and else
/// holds the difference.
#[verifier::external_body]
pub(crate) fn checked_sub(a: &U256, b: &U256) -> (r: Option<U256>)
    ensures
        r is None <==> a.value() < b.value(),
        r is Some ==> r->0.value() == a.value() - b.value(),
{
    let x = alloy::primitives::U256::from_be_bytes(a.bytes);
    let y = alloy::primitives::U256::from_be_bytes(b.bytes);
    match x.checked_sub(y) {
        Some(d) => Some(U256 { bytes: d.to_be_bytes() }),
        None => None,
    }
}

/// Divides with `Uint::checked_div` of the `ruint` crate. Claimed of it: the
/// result is `None` exactly when the divisor is zero, and else holds the
/// quotient rounded down.
#[verifier::external_body]
pub(crate) fn checked_div(a: &U256, b: &U256) -> (r: Option<U256>)
    ensures
        r is None <==> b.value() == 0,
        r is Some ==> r->0.value() == a.value() / b.value(),
{
    let x = alloy::primitives::U256::from_be_bytes(a.bytes);
    let y = alloy::primitives::U256::from_be_bytes(b.bytes);
    match x.checked_div(y) {
        Some(q) => Some(U256 { bytes: q.to_be_bytes() }),
        None => None,
    }
}

} // verus!
