//! Accessors over the store: a slot that holds one field, possibly packed with
//! others into one word, and mappings whose entries live at hashed slots.
//!
//! A field of `width` bytes at `offset` occupies the bytes of the word that
//! start `offset` bytes from its low-order end. With big-endian words these are
//! the bytes from place `32 - offset - width` up to place `32 - offset`.

use vstd::prelude::*;
use crate::context::Context;
use crate::error::{PrecompileError, Result};
use crate::hash::{derive_mapping_slot, mapping_slot, nested_mapping_slot};
use crate::primitives::{left_padded, Address, U256};
use crate::storage::Storage;

verus! {

/// Whether a field of `width` bytes at `offset` lies inside one word.
pub open spec fn fits_in_word(offset: nat, width: nat) -> bool {
    1 <= width && offset + width <= 32
}

/// The field of `width` bytes at `offset` of `word`, as a word of its own.
pub open spec fn extract_field(word: Seq<u8>, offset: nat, width: nat) -> Seq<u8>
    recommends
        word.len() == 32,
        fits_in_word(offset, width),
{
    left_padded(word.subrange(32 - offset - width, 32 - offset))
}

/// `word` with the field of `width` bytes at `offset` replaced by the low-order
/// `width` bytes of `value`.
pub open spec fn insert_field(word: Seq<u8>, offset: nat, width: nat, value: Seq<u8>) -> Seq<u8>
    recommends
        word.len() == 32,
        value.len() == 32,
        fits_in_word(offset, width),
{
    word.subrange(0, 32 - offset - width) + value.subrange(32 - width, 32) + word.subrange(
        32 - offset,
        32,
    )
}

/// `value` cut down to its low-order `width` bytes.
pub open spec fn truncated(value: Seq<u8>, width: nat) -> Seq<u8>
    recommends
        value.len() == 32,
        1 <= width <= 32,
{
    left_padded(value.subrange(32 - width, 32))
}

/// Whether two fields of one word share no byte.
pub open spec fn fields_disjoint(offset_a: nat, width_a: nat, offset_b: nat, width_b: nat) -> bool {
    offset_a + width_a <= offset_b || offset_b + width_b <= offset_a
}

/// A field that was written reads back as the value written, cut down to the
/// width of the field.
pub proof fn lemma_field_round_trip(word: Seq<u8>, offset: nat, width: nat, value: Seq<u8>)
    requires
        word.len() == 32,
        value.len() == 32,
        fits_in_word(offset, width),
    ensures
        insert_field(word, offset, width, value).len() == 32,
        extract_field(insert_field(word, offset, width, value), offset, width) == truncated(
            value,
            width,
        ),
        width == 32 ==> truncated(value, width) == value,
        width == 32 ==> insert_field(word, offset, width, value) == value,
{
    let written = insert_field(word, offset, width, value);
    assert(written.subrange(32 - offset - width, 32 - offset) =~= value.subrange(32 - width, 32));
    if width == 32 {
        assert(truncated(value, width) =~= value);
        assert(written =~= value);
    }
}

/// Writing one field leaves every field that shares no byte with it as it was.
pub proof fn lemma_field_write_keeps_others(
    word: Seq<u8>,
    offset: nat,
    width: nat,
    value: Seq<u8>,
    other_offset: nat,
    other_width: nat,
)
    requires
        word.len() == 32,
        value.len() == 32,
        fits_in_word(offset, width),
        fits_in_word(other_offset, other_width),
        fields_disjoint(offset, width, other_offset, other_width),
    ensures
        extract_field(insert_field(word, offset, width, value), other_offset, other_width)
            == extract_field(word, other_offset, other_width),
{
    let written = insert_field(word, offset, width, value);
    assert(written.subrange(32 - other_offset - other_width, 32 - other_offset) =~= word.subrange(
        32 - other_offset - other_width,
        32 - other_offset,
    ));
}

/// A field that fills its word is the word.
pub proof fn lemma_whole_word(word: Seq<u8>, value: Seq<u8>)
    requires
        word.len() == 32,
        value.len() == 32,
    ensures
        extract_field(word, 0, 32) == word,
        insert_field(word, 0, 32, value) == value,
{
    assert(word.subrange(0, 32) =~= word);
    assert(extract_field(word, 0, 32) =~= word);
    assert(insert_field(word, 0, 32, value) =~= value);
}

/// Takes the field of `width` bytes at `offset` out of `word`.
pub fn extract(word: &U256, offset: u8, width: u8) -> (r: U256)
    requires
        fits_in_word(offset as nat, width as nat),
    ensures
        r@ == extract_field(word@, offset as nat, width as nat),
{
    let mut bytes = crate::primitives::zero_bytes32();
    let start: usize = 32 - offset as usize - width as usize;
    let shift: usize = 32 - width as usize;
    let mut i: usize = 0;
    while i < width as usize
        invariant
            i <= width,
            fits_in_word(offset as nat, width as nat),
            start == 32 - offset - width,
            shift == 32 - width,
            forall|j: int| 0 <= j < shift ==> bytes@[j] == 0u8,
            forall|j: int| shift <= j < shift + i ==> bytes@[j] == word@[j - shift + start],
        decreases width - i,
    {
        bytes[shift + i] = word.bytes[start + i];
        i = i + 1;
    }
    let r = U256 { bytes };
    assert(r@ =~= extract_field(word@, offset as nat, width as nat));
    r
}

/// Puts the low-order `width` bytes of `value` into `word` at `offset`.
pub fn insert(word: &U256, offset: u8, width: u8, value: &U256) -> (r: U256)
    requires
        fits_in_word(offset as nat, width as nat),
    ensures
        r@ == insert_field(word@, offset as nat, width as nat, value@),
{
    let mut bytes = word.bytes;
    let start: usize = 32 - offset as usize - width as usize;
    let shift: usize = 32 - width as usize;
    let mut i: usize = 0;
    while i < width as usize
        invariant
            i <= width,
            fits_in_word(offset as nat, width as nat),
            start == 32 - offset - width,
            shift == 32 - width,
            forall|j: int| 0 <= j < start ==> bytes@[j] == word@[j],
            forall|j: int| start + width <= j < 32 ==> bytes@[j] == word@[j],
            forall|j: int| start <= j < start + i ==> bytes@[j] == value@[j - start + shift],
        decreases width - i,
    {
        bytes[start + i] = value.bytes[shift + i];
        i = i + 1;
    }
    let r = U256 { bytes };
    assert(r@ =~= insert_field(word@, offset as nat, width as nat, value@));
    r
}

/// The handler of one field: the slot that holds it, and where in the word of
/// that slot it lies.
#[derive(Clone, Copy, Debug)]
pub struct Slot {
    slot: U256,
    offset: u8,
    width: u8,
}

impl Slot {
    #[verifier::type_invariant]
    spec fn inside_word(self) -> bool {
        fits_in_word(self.offset as nat, self.width as nat)
    }

    /// The bytes of the slot number.
    pub closed spec fn slot_spec(&self) -> Seq<u8> {
        self.slot@
    }

    /// The offset of the field in its word.
    pub closed spec fn offset_spec(&self) -> nat {
        self.offset as nat
    }

    /// The width of the field in bytes.
    pub closed spec fn width_spec(&self) -> nat {
        self.width as nat
    }

    /// The handler of a field that fills the whole word at `slot`.
    pub fn new(slot: U256) -> (r: Slot)
        ensures
            r.slot_spec() == slot@,
            r.offset_spec() == 0,
            r.width_spec() == 32,
    {
        Slot { slot, offset: 0, width: 32 }
    }

    /// The handler of a field of `width` bytes at `offset` of the word at
    /// `slot`. There is none for a field that does not lie inside the word.
    pub fn packed(slot: U256, offset: u8, width: u8) -> (r: Option<Slot>)
        ensures
            r is Some <==> fits_in_word(offset as nat, width as nat),
            r is Some ==> r->0.slot_spec() == slot@ && r->0.offset_spec() == offset
                && r->0.width_spec() == width,
    {
        if width >= 1 && offset <= 32 && width <= 32 - offset {
            Some(Slot { slot, offset, width })
        } else {
            None
        }
    }

    /// The handler of a field that lies inside the word at `slot`.
    pub(crate) fn fitted(slot: U256, offset: u8, width: u8) -> (r: Slot)
        requires
            fits_in_word(offset as nat, width as nat),
        ensures
            r.slot_spec() == slot@,
            r.offset_spec() == offset,
            r.width_spec() == width,
    {
        Slot { slot, offset, width }
    }

    /// The slot number.
    pub fn slot(&self) -> (r: U256)
        ensures
            r@ == self.slot_spec(),
    {
        self.slot
    }

    /// The offset of the field in its word.
    pub fn offset(&self) -> (r: u8)
        ensures
            r == self.offset_spec(),
            fits_in_word(self.offset_spec(), self.width_spec()),
    {
        proof {
            use_type_invariant(self);
        }
        self.offset
    }

    /// The width of the field in bytes.
    pub fn width(&self) -> (r: u8)
        ensures
            r == self.width_spec(),
            fits_in_word(self.offset_spec(), self.width_spec()),
    {
        proof {
            use_type_invariant(self);
        }
        self.width
    }

    /// What the field reads as in a store, under `address`.
    pub open spec fn read_spec(&self, storage: &Storage, address: Seq<u8>) -> Seq<u8> {
        extract_field(
            storage.word_at(address, self.slot_spec()),
            self.offset_spec(),
            self.width_spec(),
        )
    }

    /// The word that the slot holds once `value` was written to the field.
    pub open spec fn written_word(&self, storage: &Storage, address: Seq<u8>, value: Seq<u8>) -> Seq<
        u8,
    > {
        insert_field(
            storage.word_at(address, self.slot_spec()),
            self.offset_spec(),
            self.width_spec(),
            value,
        )
    }

    /// Reads the field under `address`.
    pub fn read(&self, storage: &Storage, address: &Address) -> (r: U256)
        ensures
            r@ == self.read_spec(storage, address@),
    {
        proof {
            use_type_invariant(self);
        }
        let word = storage.sload(address, &self.slot);
        if self.width == 32 {
            proof {
                assert(extract_field(word@, 0, 32) =~= word@);
            }
            word
        } else {
            extract(&word, self.offset, self.width)
        }
    }

    /// Writes the low-order bytes of `value` to the field under `address`. Only
    /// the word of the slot changes, and in it only the bytes of the field.
    pub fn write(&self, storage: &mut Storage, address: &Address, value: &U256)
        ensures
            final(storage)@ == old(storage)@.insert(
                (address@, self.slot_spec()),
                self.written_word(old(storage), address@, value@),
            ),
    {
        proof {
            use_type_invariant(self);
        }
        if self.width == 32 {
            proof {
                storage.lemma_word_len(address@, self.slot@);
                lemma_field_round_trip(
                    storage.word_at(address@, self.slot@),
                    0,
                    32,
                    value@,
                );
            }
            storage.sstore(address, &self.slot, value);
        } else {
            let word = storage.sload(address, &self.slot);
            let updated = insert(&word, self.offset, self.width, value);
            storage.sstore(address, &self.slot, &updated);
        }
    }

    /// Reads the field under the address of the active frame.
    pub fn read_tl(&self, ctx: &Context) -> (r: Result<U256>)
        ensures
            r is Ok <==> ctx.active(),
            r is Ok ==> r->Ok_0@ == self.read_spec(&ctx.storage.get(), ctx.address()),
            r is Err ==> r->Err_0 == PrecompileError::NoActiveContext,
    {
        match ctx.current_address() {
            Ok(address) => Ok(self.read(ctx.storage.as_ref(), &address)),
            Err(e) => Err(e),
        }
    }

    /// Writes the field under the address of the active frame. Without an
    /// active frame and in a static call it fails, and nothing is written.
    pub fn write_tl(&self, ctx: &mut Context, value: &U256) -> (r: Result<()>)
        ensures
            match r {
                Ok(_) => old(ctx).refusal() is None
                    && final(ctx).storage@ == old(ctx).storage@.insert(
                    (old(ctx).address(), self.slot_spec()),
                    self.written_word(&old(ctx).storage.get(), old(ctx).address(), value@),
                ),
                Err(e) => old(ctx).refusal() == Some(e)
                    && final(ctx).storage == old(ctx).storage,
            },
            final(ctx).is_static() == old(ctx).is_static(),
            final(ctx).stack@ == old(ctx).stack@,
            final(ctx).logs@ == old(ctx).logs@,
    {
        proof {
            use_type_invariant(self);
        }
        match ctx.check_writable() {
            Err(e) => {
                return Err(e);
            },
            Ok(_) => {},
        }
        if self.width == 32 {
            proof {
                ctx.storage.lemma_word_len(ctx.address(), self.slot@);
                lemma_field_round_trip(
                    ctx.storage.word_at(ctx.address(), self.slot@),
                    0,
                    32,
                    value@,
                );
            }
            ctx.sstore(&self.slot, value)
        } else {
            match ctx.sload(&self.slot) {
                Ok(word) => {
                    let updated = insert(&word, self.offset, self.width, value);
                    ctx.sstore(&self.slot, &updated)
                },
                Err(e) => Err(e),
            }
        }
    }
}

/// What was written to a field is what the field reads as afterwards, cut down
/// to the width of the field; a field that fills its word reads as the value
/// itself.
pub proof fn lemma_write_then_read(
    before: Storage,
    after: Storage,
    field: Slot,
    address: Seq<u8>,
    value: Seq<u8>,
)
    requires
        value.len() == 32,
        fits_in_word(field.offset_spec(), field.width_spec()),
        after@ == before@.insert(
            (address, field.slot_spec()),
            field.written_word(&before, address, value),
        ),
    ensures
        field.read_spec(&after, address) == truncated(value, field.width_spec()),
        field.width_spec() == 32 ==> field.read_spec(&after, address) == value,
{
    before.lemma_word_len(address, field.slot_spec());
    lemma_field_round_trip(
        before.word_at(address, field.slot_spec()),
        field.offset_spec(),
        field.width_spec(),
        value,
    );
}

/// What was written to one field leaves every other field as it was: a field
/// of another slot or under another address, and a field of the same word that
/// shares no byte with the written one.
pub proof fn lemma_write_keeps_other_field(
    before: Storage,
    after: Storage,
    written: Slot,
    address: Seq<u8>,
    value: Seq<u8>,
    other: Slot,
    other_address: Seq<u8>,
)
    requires
        value.len() == 32,
        fits_in_word(written.offset_spec(), written.width_spec()),
        fits_in_word(other.offset_spec(), other.width_spec()),
        after@ == before@.insert(
            (address, written.slot_spec()),
            written.written_word(&before, address, value),
        ),
        other_address != address || other.slot_spec() != written.slot_spec() || fields_disjoint(
            written.offset_spec(),
            written.width_spec(),
            other.offset_spec(),
            other.width_spec(),
        ),
    ensures
        other.read_spec(&after, other_address) == other.read_spec(&before, other_address),
{
    if other_address == address && other.slot_spec() == written.slot_spec() {
        before.lemma_word_len(address, written.slot_spec());
        lemma_field_write_keeps_others(
            before.word_at(address, written.slot_spec()),
            written.offset_spec(),
            written.width_spec(),
            value,
            other.offset_spec(),
            other.width_spec(),
        );
    } else {
        assert((other_address, other.slot_spec()) != (address, written.slot_spec()));
    }
}

/// The handler of a mapping: entries live at the hash of key and base slot.
#[derive(Clone, Copy, Debug)]
pub struct Mapping {
    base: U256,
}

impl Mapping {
    /// The bytes of the base slot.
    pub closed spec fn base_spec(&self) -> Seq<u8> {
        self.base@
    }

    /// The handler of the mapping at `base`.
    pub fn new(base: U256) -> (r: Mapping)
        ensures
            r.base_spec() == base@,
    {
        Mapping { base }
    }

    /// The base slot.
    pub fn base_slot(&self) -> (r: U256)
        ensures
            r@ == self.base_spec(),
    {
        self.base
    }

    /// The handler of the entry `key`: a whole word at the derived slot. It is
    /// derived from key and base slot alone; the store is not touched.
    pub fn at(&self, key: &U256) -> (r: Slot)
        ensures
            r.slot_spec() == mapping_slot(key@, self.base_spec()),
            r.offset_spec() == 0,
            r.width_spec() == 32,
    {
        Slot::new(derive_mapping_slot(key, &self.base))
    }

    /// The handler of the entry whose key is an address.
    pub fn at_address(&self, key: &Address) -> (r: Slot)
        ensures
            r.slot_spec() == mapping_slot(left_padded(key@), self.base_spec()),
            r.offset_spec() == 0,
            r.width_spec() == 32,
    {
        let word = key.to_word();
        self.at(&word)
    }
}

/// The handler of a mapping of mappings.
#[derive(Clone, Copy, Debug)]
pub struct NestedMapping {
    base: U256,
}

impl NestedMapping {
    /// The bytes of the base slot.
    pub closed spec fn base_spec(&self) -> Seq<u8> {
        self.base@
    }

    /// The handler of the nested mapping at `base`.
    pub fn new(base: U256) -> (r: NestedMapping)
        ensures
            r.base_spec() == base@,
    {
        NestedMapping { base }
    }

    /// The base slot.
    pub fn base_slot(&self) -> (r: U256)
        ensures
            r@ == self.base_spec(),
    {
        self.base
    }

    /// The inner mapping that belongs to the first key.
    pub fn at(&self, key1: &U256) -> (r: Mapping)
        ensures
            r.base_spec() == mapping_slot(key1@, self.base_spec()),
    {
        Mapping::new(derive_mapping_slot(key1, &self.base))
    }

    /// The handler of the entry `(key1, key2)`.
    pub fn at2(&self, key1: &U256, key2: &U256) -> (r: Slot)
        ensures
            r.slot_spec() == nested_mapping_slot(key1@, key2@, self.base_spec()),
            r.offset_spec() == 0,
            r.width_spec() == 32,
    {
        self.at(key1).at(key2)
    }
}

/// Two mappings with one base slot resolve every key to one slot, whatever was
/// resolved before.
pub proof fn lemma_mapping_deterministic(map1: Mapping, map2: Mapping, key: Seq<u8>)
    requires
        map1.base_spec() == map2.base_spec(),
    ensures
        mapping_slot(key, map1.base_spec()) == mapping_slot(key, map2.base_spec()),
{
}

} // verus!
