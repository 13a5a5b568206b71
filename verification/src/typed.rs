//! Handlers that read and write values of one type: the width of the field is
//! the width of the type, and what is read is a value of the type.

use vstd::prelude::*;
use core::marker::PhantomData;
use crate::context::Context;
use crate::error::{PrecompileError, Result};
use crate::handlers::{extract_field, fits_in_word, lemma_write_then_read, truncated, Slot};
use crate::hash::{derive_mapping_slot, mapping_slot};
use crate::primitives::{
    left_padded, lemma_uint_word_bytes, lemma_word_of_low_bytes, uint_word, Address, U256,
};
use crate::storage::Storage;

verus! {

/// A value that a field of a slot can hold.
pub trait StorageValue: Sized {
    /// The number of bytes that a value of the type takes.
    spec fn width() -> nat;

    /// The word that stands for the value: the value in its low-order bytes,
    /// zero above.
    spec fn word(&self) -> Seq<u8>;

    /// The width is that of a field.
    proof fn lemma_width()
        ensures
            1 <= Self::width() <= 32,
    ;

    /// The word is a word, and the value does not reach above its width.
    proof fn lemma_word(&self)
        ensures
            self.word().len() == 32,
            truncated(self.word(), Self::width()) == self.word(),
    ;

    /// The number of bytes that a value of the type takes.
    fn size() -> (r: u8)
        ensures
            r == Self::width(),
    ;

    /// The word that stands for the value.
    fn to_word(&self) -> (r: U256)
        ensures
            r@ == self.word(),
    ;

    /// The value that the low-order bytes of `w` stand for. What lies above the
    /// width of the type is not looked at.
    fn from_word(w: &U256) -> (r: Self)
        ensures
            r.word() == truncated(w@, Self::width()),
    ;
}

impl StorageValue for U256 {
    open spec fn width() -> nat {
        32
    }

    open spec fn word(&self) -> Seq<u8> {
        self@
    }

    proof fn lemma_width() {
    }

    proof fn lemma_word(&self) {
        assert(truncated(self@, 32) =~= self@);
    }

    fn size() -> (r: u8) {
        32
    }

    fn to_word(&self) -> (r: U256) {
        *self
    }

    fn from_word(w: &U256) -> (r: Self) {
        proof {
            assert(truncated(w@, 32) =~= w@);
        }
        *w
    }
}

impl StorageValue for Address {
    open spec fn width() -> nat {
        20
    }

    open spec fn word(&self) -> Seq<u8> {
        left_padded(self@)
    }

    proof fn lemma_width() {
    }

    proof fn lemma_word(&self) {
        assert(left_padded(self@).subrange(12, 32) =~= self@);
    }

    fn size() -> (r: u8) {
        20
    }

    fn to_word(&self) -> (r: U256) {
        Address::to_word(self)
    }

    fn from_word(w: &U256) -> (r: Self) {
        w.to_address()
    }
}

/// The word of a number below `256` does not reach above its last byte.
proof fn lemma_byte_word(n: u8)
    ensures
        uint_word(n as nat).len() == 32,
        uint_word(n as nat)[31] == n,
        truncated(uint_word(n as nat), 1) == uint_word(n as nat),
{
    lemma_uint_word_bytes(n as u64);
    assert(truncated(uint_word(n as nat), 1) =~= uint_word(n as nat));
}

/// The word of a number below `2^64` does not reach above its last eight bytes.
proof fn lemma_u64_word(n: u64)
    ensures
        uint_word(n as nat).len() == 32,
        truncated(uint_word(n as nat), 8) == uint_word(n as nat),
{
    lemma_uint_word_bytes(n);
    assert(truncated(uint_word(n as nat), 8) =~= uint_word(n as nat));
}

impl StorageValue for u64 {
    open spec fn width() -> nat {
        8
    }

    open spec fn word(&self) -> Seq<u8> {
        uint_word(*self as nat)
    }

    proof fn lemma_width() {
    }

    proof fn lemma_word(&self) {
        lemma_u64_word(*self);
    }

    fn size() -> (r: u8) {
        8
    }

    fn to_word(&self) -> (r: U256) {
        U256::from_uint(*self as u128)
    }

    fn from_word(w: &U256) -> (r: Self) {
        let b = &w.bytes;
        let n: u64 = (b[24] as u64) * 0x100_0000_0000_0000 + (b[25] as u64) * 0x1_0000_0000_0000
            + (b[26] as u64) * 0x100_0000_0000 + (b[27] as u64) * 0x1_0000_0000 + (b[28] as u64)
            * 0x100_0000 + (b[29] as u64) * 0x1_0000 + (b[30] as u64) * 0x100 + (b[31] as u64);
        proof {
            lemma_word_of_low_bytes(w@);
            assert(truncated(w@, 8) =~= Seq::new(24, |i: int| 0u8) + w@.subrange(24, 32));
        }
        n
    }
}

impl StorageValue for u8 {
    open spec fn width() -> nat {
        1
    }

    open spec fn word(&self) -> Seq<u8> {
        uint_word(*self as nat)
    }

    proof fn lemma_width() {
    }

    proof fn lemma_word(&self) {
        lemma_byte_word(*self);
    }

    fn size() -> (r: u8) {
        1
    }

    fn to_word(&self) -> (r: U256) {
        U256::from_uint(*self as u128)
    }

    fn from_word(w: &U256) -> (r: Self) {
        let n = w.bytes[31];
        proof {
            lemma_byte_word(n);
            assert(uint_word(n as nat) =~= truncated(w@, 1)) by {
                lemma_uint_word_bytes(n as u64);
            }
        }
        n
    }
}

/// A field that was cut out of a word does not reach above its width.
pub proof fn lemma_extracted_is_truncated(word: Seq<u8>, offset: nat, width: nat)
    requires
        word.len() == 32,
        fits_in_word(offset, width),
    ensures
        extract_field(word, offset, width).len() == 32,
        truncated(extract_field(word, offset, width), width) == extract_field(word, offset, width),
{
    let field = extract_field(word, offset, width);
    assert(field.subrange(32 - width, 32) =~= word.subrange(32 - offset - width, 32 - offset));
}

/// The handler of a field that holds a value of type `T`.
pub struct TypedSlot<T: StorageValue> {
    field: Slot,
    _value: PhantomData<T>,
}

impl<T: StorageValue> TypedSlot<T> {
    #[verifier::type_invariant]
    spec fn as_wide_as_its_type(self) -> bool {
        self.field.width_spec() == T::width() && fits_in_word(
            self.field.offset_spec(),
            self.field.width_spec(),
        )
    }

    /// The handler of the field as a field of bytes.
    pub closed spec fn field(&self) -> Slot {
        self.field
    }

    /// The handler of a value at the low-order end of the word at `slot`.
    pub fn new(slot: U256) -> (r: Self)
        ensures
            r.field().slot_spec() == slot@,
            r.field().offset_spec() == 0,
            r.field().width_spec() == T::width(),
    {
        proof {
            T::lemma_width();
        }
        TypedSlot { field: Slot::fitted(slot, 0, T::size()), _value: PhantomData }
    }

    /// The handler of a value at `offset` of the word at `slot`. There is none
    /// where the value does not lie inside the word.
    pub fn packed(slot: U256, offset: u8) -> (r: Option<Self>)
        ensures
            r is Some <==> offset + T::width() <= 32,
            r is Some ==> r->0.field().slot_spec() == slot@ && r->0.field().offset_spec()
                == offset && r->0.field().width_spec() == T::width(),
    {
        proof {
            T::lemma_width();
        }
        match Slot::packed(slot, offset, T::size()) {
            Some(field) => Some(TypedSlot { field, _value: PhantomData }),
            None => None,
        }
    }

    /// Reads the value under `address`.
    pub fn read(&self, storage: &Storage, address: &Address) -> (r: T)
        ensures
            r.word() == self.field().read_spec(storage, address@),
    {
        proof {
            use_type_invariant(self);
            storage.lemma_word_len(address@, self.field.slot_spec());
            lemma_extracted_is_truncated(
                storage.word_at(address@, self.field.slot_spec()),
                self.field.offset_spec(),
                self.field.width_spec(),
            );
        }
        let word = self.field.read(storage, address);
        T::from_word(&word)
    }

    /// Writes the value under `address`. Only the word of the slot changes, and
    /// in it only the bytes of the field.
    pub fn write(&self, storage: &mut Storage, address: &Address, value: &T)
        ensures
            final(storage)@ == old(storage)@.insert(
                (address@, self.field().slot_spec()),
                self.field().written_word(old(storage), address@, value.word()),
            ),
    {
        let word = value.to_word();
        self.field.write(storage, address, &word);
    }

    /// Reads the value under the address of the active frame.
    pub fn read_tl(&self, ctx: &Context) -> (r: Result<T>)
        ensures
            r is Ok <==> ctx.active(),
            r is Ok ==> r->Ok_0.word() == self.field().read_spec(
                &ctx.storage.get(),
                ctx.address(),
            ),
            r is Err ==> r->Err_0 == PrecompileError::NoActiveContext,
    {
        match ctx.current_address() {
            Ok(address) => Ok(self.read(ctx.storage.as_ref(), &address)),
            Err(e) => Err(e),
        }
    }

    /// Writes the value under the address of the active frame. Without an
    /// active frame and in a static call it fails, and nothing is written.
    pub fn write_tl(&self, ctx: &mut Context, value: &T) -> (r: Result<()>)
        ensures
            match r {
                Ok(_) => old(ctx).refusal() is None
                    && final(ctx).storage@ == old(ctx).storage@.insert(
                    (old(ctx).address(), self.field().slot_spec()),
                    self.field().written_word(
                        &old(ctx).storage.get(),
                        old(ctx).address(),
                        value.word(),
                    ),
                ),
                Err(e) => old(ctx).refusal() == Some(e)
                    && final(ctx).storage == old(ctx).storage,
            },
            final(ctx).is_static() == old(ctx).is_static(),
            final(ctx).stack@ == old(ctx).stack@,
            final(ctx).logs@ == old(ctx).logs@,
    {
        let word = value.to_word();
        self.field.write_tl(ctx, &word)
    }
}

/// A value that was written to its field is what the field reads as
/// afterwards.
pub proof fn lemma_typed_write_then_read<T: StorageValue>(
    before: Storage,
    after: Storage,
    field: Slot,
    address: Seq<u8>,
    value: T,
)
    requires
        field.width_spec() == T::width(),
        fits_in_word(field.offset_spec(), field.width_spec()),
        after@ == before@.insert(
            (address, field.slot_spec()),
            field.written_word(&before, address, value.word()),
        ),
    ensures
        field.read_spec(&after, address) == value.word(),
{
    value.lemma_word();
    lemma_write_then_read(before, after, field, address, value.word());
}

/// The handler of a mapping from keys of type `K` to values of type `V`.
pub struct TypedMapping<K: StorageValue, V: StorageValue> {
    base: U256,
    _key: PhantomData<K>,
    _value: PhantomData<V>,
}

impl<K: StorageValue, V: StorageValue> TypedMapping<K, V> {
    /// The bytes of the base slot.
    pub closed spec fn base_spec(&self) -> Seq<u8> {
        self.base@
    }

    /// The handler of the mapping at `base`.
    pub fn new(base: U256) -> (r: Self)
        ensures
            r.base_spec() == base@,
    {
        TypedMapping { base, _key: PhantomData, _value: PhantomData }
    }

    /// The handler of the entry `key`: a value at the low-order end of the
    /// slot that is the hash of the word of the key and the base slot.
    pub fn at(&self, key: &K) -> (r: TypedSlot<V>)
        ensures
            r.field().slot_spec() == mapping_slot(key.word(), self.base_spec()),
            r.field().offset_spec() == 0,
            r.field().width_spec() == V::width(),
    {
        let word = key.to_word();
        TypedSlot::new(derive_mapping_slot(&word, &self.base))
    }
}

/// The handler of a mapping from pairs of keys to values of type `V`.
pub struct TypedNestedMapping<K1: StorageValue, K2: StorageValue, V: StorageValue> {
    base: U256,
    _key1: PhantomData<K1>,
    _key2: PhantomData<K2>,
    _value: PhantomData<V>,
}

impl<K1: StorageValue, K2: StorageValue, V: StorageValue> TypedNestedMapping<K1, K2, V> {
    /// The bytes of the base slot.
    pub closed spec fn base_spec(&self) -> Seq<u8> {
        self.base@
    }

    /// The handler of the nested mapping at `base`.
    pub fn new(base: U256) -> (r: Self)
        ensures
            r.base_spec() == base@,
    {
        TypedNestedMapping { base, _key1: PhantomData, _key2: PhantomData, _value: PhantomData }
    }

    /// The inner mapping that belongs to the first key.
    pub fn at(&self, key1: &K1) -> (r: TypedMapping<K2, V>)
        ensures
            r.base_spec() == mapping_slot(key1.word(), self.base_spec()),
    {
        let word = key1.to_word();
        TypedMapping::new(derive_mapping_slot(&word, &self.base))
    }
}

} // verus!
