//! A contract instance: the handlers of the planned fields, bound to the one
//! address that the instance runs at.

use vstd::prelude::*;
use crate::handlers::{
    fields_disjoint, fits_in_word, lemma_write_keeps_other_field, Mapping, NestedMapping, Slot,
};
use crate::layout::{fields_collide, no_collisions, FieldKind, LayoutField};
use crate::storage::Storage;
use crate::primitives::{word_value, Address, U256};

verus! {

/// The handler of one field of a contract.
#[derive(Clone, Copy, Debug)]
pub enum Handler {
    Slot(Slot),
    Mapping(Mapping),
    NestedMapping(NestedMapping),
}

/// Whether `handler` is the handler that belongs to the planned field `field`:
/// of the shape of the field, at the slot whose number is that of the field,
/// and for a value at its offset and of its width.
pub open spec fn handler_matches(handler: Handler, field: LayoutField) -> bool {
    match field.kind {
        FieldKind::Slot(_) => handler is Slot && word_value(handler->Slot_0.slot_spec())
            == field.slot && handler->Slot_0.offset_spec() == field.offset
            && handler->Slot_0.width_spec() == field.size_bytes,
        FieldKind::Mapping { .. } => handler is Mapping && word_value(
            handler->Mapping_0.base_spec(),
        ) == field.slot,
        FieldKind::NestedMapping { .. } => handler is NestedMapping && word_value(
            handler->NestedMapping_0.base_spec(),
        ) == field.slot,
    }
}

/// Whether every field of the layout lies inside its word.
pub open spec fn layout_inside_words(layout: Seq<LayoutField>) -> bool {
    forall|k: int| 0 <= k < layout.len() ==> (#[trigger] layout[k]).inside_word()
}

/// Makes the handler of a planned field.
pub fn handler_for(field: &LayoutField) -> (r: Handler)
    requires
        field.inside_word(),
    ensures
        handler_matches(r, *field),
{
    let slot = U256::from_u64(field.slot);
    match field.kind {
        FieldKind::Slot(_) => Handler::Slot(Slot::fitted(slot, field.offset, field.size_bytes)),
        FieldKind::Mapping { .. } => Handler::Mapping(Mapping::new(slot)),
        FieldKind::NestedMapping { .. } => Handler::NestedMapping(NestedMapping::new(slot)),
    }
}

/// The slot and the offset of one field, the constants that the code of a
/// contract names its storage by.
#[derive(Clone, Copy, Debug)]
pub struct FieldConstants {
    pub name: &'static str,
    pub slot: U256,
    pub offset: u8,
}

/// The constants of every field of a layout, in the order of the fields.
pub fn gen_slots_module(layout: &Vec<LayoutField>) -> (r: Vec<FieldConstants>)
    ensures
        r@.len() == layout@.len(),
        forall|k: int|
            0 <= k < layout@.len() ==> (#[trigger] r@[k]).name == layout@[k].name
                && r@[k].slot.value() == layout@[k].slot && r@[k].offset == layout@[k].offset,
{
    let mut out: Vec<FieldConstants> = Vec::new();
    let mut i: usize = 0;
    while i < layout.len()
        invariant
            i <= layout@.len(),
            out@.len() == i,
            forall|k: int|
                0 <= k < i ==> (#[trigger] out@[k]).name == layout@[k].name
                    && out@[k].slot.value() == layout@[k].slot && out@[k].offset
                    == layout@[k].offset,
        decreases layout@.len() - i,
    {
        let field = &layout[i];
        out.push(
            FieldConstants {
                name: field.name,
                slot: U256::from_u64(field.slot),
                offset: field.offset,
            },
        );
        i = i + 1;
    }
    out
}

/// A contract instance: one handler for each planned field, and the address
/// that all of them read and write under.
pub struct Contract {
    address: Address,
    handlers: Vec<Handler>,
}

impl Contract {
    /// The bytes of the address of the instance.
    pub closed spec fn address_spec(&self) -> Seq<u8> {
        self.address@
    }

    /// The handlers of the instance, in the order of the fields.
    pub closed spec fn handlers_spec(&self) -> Seq<Handler> {
        self.handlers@
    }

    /// Whether the instance is the one that belongs to `layout` at `address`.
    pub open spec fn built_from(&self, address: Seq<u8>, layout: Seq<LayoutField>) -> bool {
        self.address_spec() == address && self.handlers_spec().len() == layout.len() && forall|
            k: int,
        |
            0 <= k < layout.len() ==> handler_matches(
                #[trigger] self.handlers_spec()[k],
                layout[k],
            )
    }

    /// Builds the instance for a layout whose fields lie inside their words and
    /// share no byte.
    pub fn new(address: Address, layout: &Vec<LayoutField>) -> (r: Contract)
        requires
            layout_inside_words(layout@),
            no_collisions(layout@),
        ensures
            r.built_from(address@, layout@),
    {
        let mut handlers: Vec<Handler> = Vec::new();
        let mut i: usize = 0;
        while i < layout.len()
            invariant
                i <= layout@.len(),
                handlers@.len() == i,
                layout_inside_words(layout@),
                forall|k: int| 0 <= k < i ==> handler_matches(#[trigger] handlers@[k], layout@[k]),
            decreases layout@.len() - i,
        {
            handlers.push(handler_for(&layout[i]));
            i = i + 1;
        }
        Contract { address, handlers }
    }

    /// The address that the instance runs at.
    pub fn address(&self) -> (r: Address)
        ensures
            r@ == self.address_spec(),
    {
        self.address
    }

    /// The number of fields of the instance.
    pub fn len(&self) -> (r: usize)
        ensures
            r == self.handlers_spec().len(),
    {
        self.handlers.len()
    }

    /// The handler of the field at `idx`, if there is such a field.
    pub fn handler(&self, idx: usize) -> (r: Option<Handler>)
        ensures
            r is Some <==> idx < self.handlers_spec().len(),
            r is Some ==> r->0 == self.handlers_spec()[idx as int],
    {
        if idx < self.handlers.len() {
            Some(self.handlers[idx])
        } else {
            None
        }
    }

    /// Reads the field at `idx` under the address of the instance. There is
    /// nothing to read where there is no such field, or where it is a mapping.
    pub fn read_field(&self, storage: &Storage, idx: usize) -> (r: Option<U256>)
        ensures
            r is Some <==> idx < self.handlers_spec().len() && self.handlers_spec()[idx as int]
                is Slot,
            r is Some ==> r->0@ == self.handlers_spec()[idx as int]->Slot_0.read_spec(
                storage,
                self.address_spec(),
            ),
    {
        if idx < self.handlers.len() {
            match self.handlers[idx] {
                Handler::Slot(field) => Some(field.read(storage, &self.address)),
                _ => None,
            }
        } else {
            None
        }
    }

    /// Writes `value` to the field at `idx` under the address of the instance,
    /// and says whether there is such a field to write to. Where there is none,
    /// or where it is a mapping, nothing is written.
    pub fn write_field(&self, storage: &mut Storage, idx: usize, value: &U256) -> (r: bool)
        ensures
            r <==> idx < self.handlers_spec().len() && self.handlers_spec()[idx as int] is Slot,
            r ==> final(storage)@ == old(storage)@.insert(
                (self.address_spec(), self.handlers_spec()[idx as int]->Slot_0.slot_spec()),
                self.handlers_spec()[idx as int]->Slot_0.written_word(
                    old(storage),
                    self.address_spec(),
                    value@,
                ),
            ),
            !r ==> final(storage)@ == old(storage)@,
    {
        if idx < self.handlers.len() {
            match self.handlers[idx] {
                Handler::Slot(field) => {
                    field.write(storage, &self.address, value);
                    true
                },
                _ => false,
            }
        } else {
            false
        }
    }
}

/// In a contract of a layout whose fields share no byte, what is written to
/// one value leaves every other value as it was.
pub proof fn lemma_fields_independent(
    layout: Seq<LayoutField>,
    written: Slot,
    other: Slot,
    i: int,
    j: int,
    before: Storage,
    after: Storage,
    address: Seq<u8>,
    value: Seq<u8>,
)
    requires
        no_collisions(layout),
        layout_inside_words(layout),
        0 <= i < layout.len(),
        0 <= j < layout.len(),
        i != j,
        handler_matches(Handler::Slot(written), layout[i]),
        handler_matches(Handler::Slot(other), layout[j]),
        layout[i].kind is Slot,
        layout[j].kind is Slot,
        value.len() == 32,
        after@ == before@.insert(
            (address, written.slot_spec()),
            written.written_word(&before, address, value),
        ),
    ensures
        other.read_spec(&after, address) == other.read_spec(&before, address),
{
    assert(!fields_collide(layout[i], layout[j]));
    assert(layout[i].inside_word() && layout[j].inside_word());
    assert(fits_in_word(written.offset_spec(), written.width_spec()));
    assert(fits_in_word(other.offset_spec(), other.width_spec()));
    if other.slot_spec() == written.slot_spec() {
        assert(layout[i].slot == layout[j].slot);
        assert(fields_disjoint(
            written.offset_spec(),
            written.width_spec(),
            other.offset_spec(),
            other.width_spec(),
        ));
    }
    lemma_write_keeps_other_field(before, after, written, address, value, other, address);
}

} // verus!
