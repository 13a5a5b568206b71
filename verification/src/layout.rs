//! The layout planner: assigns every declared field of a contract its slot and,
//! for a value shorter than a word, its place inside the slot.
//!
//! Fields with a declared slot keep it. The other fields are laid down in
//! declaration order behind a cursor: a value shares the current slot while it
//! fits, a mapping takes a whole slot of its own, and a slot that holds a field
//! with a declared slot is passed over.

use vstd::prelude::*;

verus! {

/// The type of a stored value, as far as the layout depends on it.
#[derive(Clone, Copy, Debug, PartialEq, Eq, Structural)]
pub enum ValueType {
    Bool,
    U8,
    U16,
    U32,
    U64,
    U128,
    U256,
    Address,
    /// A value of the given number of bytes.
    FixedBytes(u8),
}

impl ValueType {
    /// The number of bytes that a value of the type takes.
    pub open spec fn size_spec(self) -> nat {
        match self {
            ValueType::Bool => 1,
            ValueType::U8 => 1,
            ValueType::U16 => 2,
            ValueType::U32 => 4,
            ValueType::U64 => 8,
            ValueType::U128 => 16,
            ValueType::U256 => 32,
            ValueType::Address => 20,
            ValueType::FixedBytes(n) => n as nat,
        }
    }

    /// Whether a value of the type can be held in one word.
    pub open spec fn storable(self) -> bool {
        1 <= self.size_spec() <= 32
    }

    /// The number of bytes that a value of the type takes.
    pub fn size_bytes(&self) -> (r: u8)
        ensures
            r == self.size_spec(),
    {
        match self {
            ValueType::Bool => 1,
            ValueType::U8 => 1,
            ValueType::U16 => 2,
            ValueType::U32 => 4,
            ValueType::U64 => 8,
            ValueType::U128 => 16,
            ValueType::U256 => 32,
            ValueType::Address => 20,
            ValueType::FixedBytes(n) => *n,
        }
    }

    /// Whether a value of the type can be held in one word.
    pub fn is_storable(&self) -> (r: bool)
        ensures
            r == self.storable(),
    {
        let n = self.size_bytes();
        1 <= n && n <= 32
    }
}

/// What a field is: one value, or a mapping whose entries live at hashed slots.
#[derive(Clone, Copy, Debug, PartialEq, Eq, Structural)]
pub enum FieldKind {
    Slot(ValueType),
    Mapping { key: ValueType, value: ValueType },
    NestedMapping { key1: ValueType, key2: ValueType, value: ValueType },
}

impl FieldKind {
    /// The number of bytes of its slot that the field is laid out with: the
    /// size of a value, the whole slot for a mapping.
    pub open spec fn span_spec(self) -> nat {
        match self {
            FieldKind::Slot(t) => t.size_spec(),
            _ => 32,
        }
    }

    /// Whether every type that the field names can be held in one word.
    pub open spec fn storable(self) -> bool {
        match self {
            FieldKind::Slot(t) => t.storable(),
            FieldKind::Mapping { key, value } => key.storable() && value.storable(),
            FieldKind::NestedMapping { key1, key2, value } => key1.storable() && key2.storable()
                && value.storable(),
        }
    }

    /// The number of bytes of its slot that the field is laid out with.
    pub fn span(&self) -> (r: u8)
        ensures
            r == self.span_spec(),
    {
        match self {
            FieldKind::Slot(t) => t.size_bytes(),
            _ => 32,
        }
    }

    /// Whether every type that the field names can be held in one word.
    pub fn is_storable(&self) -> (r: bool)
        ensures
            r == self.storable(),
    {
        match self {
            FieldKind::Slot(t) => t.is_storable(),
            FieldKind::Mapping { key, value } => key.is_storable() && value.is_storable(),
            FieldKind::NestedMapping { key1, key2, value } => key1.is_storable()
                && key2.is_storable() && value.is_storable(),
        }
    }
}

/// How a field comes to its slot.
#[derive(Clone, Copy, Debug, PartialEq, Eq, Structural)]
pub enum SlotAssignment {
    /// The planner picks the slot.
    Auto,
    /// The declaration names the slot.
    Manual(u64),
}

/// A field as it is declared.
#[derive(Clone, Copy, Debug)]
pub struct FieldDecl {
    pub name: &'static str,
    pub kind: FieldKind,
    pub assigned_slot: SlotAssignment,
    /// The declared offset inside a declared slot; zero where none is declared.
    pub manual_offset: Option<u8>,
}

impl FieldDecl {
    /// Whether the declaration names its slot.
    pub open spec fn is_manual(&self) -> bool {
        self.assigned_slot is Manual
    }

    /// The offset that a declared slot is used at.
    pub open spec fn declared_offset(&self) -> nat {
        match self.manual_offset {
            Some(o) => o as nat,
            None => 0,
        }
    }

    /// Whether the sizes of the declaration are in order.
    pub open spec fn size_ok(&self) -> bool {
        self.kind.storable()
    }

    /// Whether the declared offset is in order: there is none without a declared
    /// slot, and with it the field lies inside the word.
    pub open spec fn offset_ok(&self) -> bool {
        match self.manual_offset {
            None => true,
            Some(o) => self.is_manual() && o + self.kind.span_spec() <= 32,
        }
    }
}

/// A field with its place.
#[derive(Clone, Copy, Debug)]
pub struct LayoutField {
    pub name: &'static str,
    pub kind: FieldKind,
    /// The number of bytes of the slot that the field is laid out with.
    pub size_bytes: u8,
    /// How the field came to its slot.
    pub assigned_slot: SlotAssignment,
    /// The slot of a value, the base slot of a mapping.
    pub slot: u64,
    /// Where in the slot the field begins, counted from the low-order end.
    pub offset: u8,
}

impl LayoutField {
    /// Whether the field lies inside its slot.
    pub open spec fn inside_word(&self) -> bool {
        1 <= self.size_bytes && self.offset + self.size_bytes <= 32
    }
}

/// Whether two fields share a byte of one slot.
pub open spec fn fields_collide(a: LayoutField, b: LayoutField) -> bool {
    a.slot == b.slot && a.offset < b.offset + b.size_bytes && b.offset < a.offset + a.size_bytes
}

/// Whether no two fields of a layout share a byte.
pub open spec fn no_collisions(layout: Seq<LayoutField>) -> bool {
    forall|i: int, j: int|
        0 <= i < layout.len() && 0 <= j < layout.len() && i != j ==> !fields_collide(
            #[trigger] layout[i],
            #[trigger] layout[j],
        )
}

/// Whether the field at `idx` shares no byte with any other field.
pub open spec fn no_collision_at(layout: Seq<LayoutField>, idx: int) -> bool {
    forall|j: int| 0 <= j < layout.len() && j != idx ==> !fields_collide(layout[idx], #[trigger] layout[j])
}

/// Decides whether two fields share a byte of one slot.
pub fn collide(a: &LayoutField, b: &LayoutField) -> (r: bool)
    ensures
        r == fields_collide(*a, *b),
{
    a.slot == b.slot && (a.offset as u16) < b.offset as u16 + b.size_bytes as u16 && (
    b.offset as u16) < a.offset as u16 + a.size_bytes as u16
}

/// Checks the field at `idx` against every other field of the layout.
pub fn check_collision(idx: usize, layout: &Vec<LayoutField>) -> (r: bool)
    requires
        idx < layout@.len(),
    ensures
        r == no_collision_at(layout@, idx as int),
{
    let mut j: usize = 0;
    while j < layout.len()
        invariant
            j <= layout@.len(),
            idx < layout@.len(),
            forall|k: int| 0 <= k < j && k != idx ==> !fields_collide(layout@[idx as int], #[trigger] layout@[k]),
        decreases layout@.len() - j,
    {
        if j != idx && collide(&layout[idx], &layout[j]) {
            return false;
        }
        j = j + 1;
    }
    true
}

/// Checks every pair of fields of the layout.
pub fn check_all_collisions(layout: &Vec<LayoutField>) -> (r: bool)
    ensures
        r == no_collisions(layout@),
{
    let mut i: usize = 0;
    while i < layout.len()
        invariant
            i <= layout@.len(),
            forall|k: int| 0 <= k < i ==> no_collision_at(layout@, k),
        decreases layout@.len() - i,
    {
        if !check_collision(i, layout) {
            assert(!no_collisions(layout@)) by {
                let j = choose|j: int| 0 <= j < layout@.len() && j != i && fields_collide(layout@[i as int], #[trigger] layout@[j]);
                assert(fields_collide(layout@[i as int], layout@[j]));
            }
            return false;
        }
        i = i + 1;
    }
    assert(no_collisions(layout@)) by {
        assert forall|a: int, b: int|
            0 <= a < layout@.len() && 0 <= b < layout@.len() && a != b implies !fields_collide(
            #[trigger] layout@[a],
            #[trigger] layout@[b],
        ) by {
            assert(no_collision_at(layout@, a));
        }
    }
    true
}

/// Why a set of declarations has no layout.
#[derive(Clone, Copy, Debug, PartialEq, Eq, Structural)]
pub enum LayoutError {
    /// The field names a type of no bytes, or of more bytes than a word has.
    InvalidSize { index: usize },
    /// The field declares an offset without a slot, or one with which it does
    /// not lie inside the word.
    InvalidOffset { index: usize },
    /// The two fields declare places that share a byte.
    ManualCollision { first: usize, second: usize },
}

/// Whether the declaration `f` names `slot` as its slot.
pub open spec fn declares(f: FieldDecl, slot: int) -> bool {
    f.assigned_slot == SlotAssignment::Manual(slot as u64) && 0 <= slot <= u64::MAX
}

/// Whether some declaration names `slot` as its slot.
pub open spec fn slot_taken(fields: Seq<FieldDecl>, slot: int) -> bool {
    exists|i: int| 0 <= i < fields.len() && declares(#[trigger] fields[i], slot)
}

/// The largest declared slot; `-1` where no slot is declared.
pub open spec fn max_declared(fields: Seq<FieldDecl>) -> int
    decreases fields.len(),
{
    if fields.len() == 0 {
        -1
    } else {
        let rest = max_declared(fields.drop_last());
        match fields.last().assigned_slot {
            SlotAssignment::Manual(n) => if n > rest {
                n as int
            } else {
                rest
            },
            SlotAssignment::Auto => rest,
        }
    }
}

/// No declared slot is larger than the largest one.
pub proof fn lemma_taken_below_max(fields: Seq<FieldDecl>, slot: int)
    requires
        slot_taken(fields, slot),
    ensures
        slot <= max_declared(fields),
    decreases fields.len(),
{
    let i = choose|i: int| 0 <= i < fields.len() && declares(#[trigger] fields[i], slot);
    if i < fields.len() - 1 {
        assert(declares(fields.drop_last()[i], slot));
        lemma_taken_below_max(fields.drop_last(), slot);
    }
}

/// The first slot from `slot` on that no declaration names.
pub open spec fn first_free(fields: Seq<FieldDecl>, slot: int) -> int
    decreases max_declared(fields) + 1 - slot,
{
    if slot <= max_declared(fields) && slot_taken(fields, slot) {
        first_free(fields, slot + 1)
    } else {
        slot
    }
}

/// The first free slot is free, and no slot between is.
pub proof fn lemma_first_free(fields: Seq<FieldDecl>, slot: int)
    ensures
        first_free(fields, slot) >= slot,
        !slot_taken(fields, first_free(fields, slot)),
        forall|s: int| slot <= s < first_free(fields, slot) ==> slot_taken(fields, s),
    decreases max_declared(fields) + 1 - slot,
{
    if slot <= max_declared(fields) && slot_taken(fields, slot) {
        lemma_first_free(fields, slot + 1);
    } else if slot_taken(fields, slot) {
        lemma_taken_below_max(fields, slot);
    }
}

/// Where the planner stands: the slot that it fills, and how many bytes of it
/// are used.
pub struct Cursor {
    pub slot: int,
    pub offset: nat,
}

/// The first slot from the cursor on of which nothing is used.
pub open spec fn fresh_base(c: Cursor) -> int {
    if c.offset > 0 {
        c.slot + 1
    } else {
        c.slot
    }
}

/// Whether a value of `size` bytes goes into the slot that is being filled.
pub open spec fn shares_current(c: Cursor, kind: FieldKind) -> bool {
    kind is Slot && c.offset > 0 && c.offset + kind.span_spec() <= 32
}

/// The slot that a field without a declared slot gets at the cursor.
pub open spec fn auto_slot(fields: Seq<FieldDecl>, c: Cursor, kind: FieldKind) -> int {
    if shares_current(c, kind) {
        c.slot
    } else {
        first_free(fields, fresh_base(c))
    }
}

/// The offset that a field without a declared slot gets at the cursor.
pub open spec fn auto_offset(c: Cursor, kind: FieldKind) -> nat {
    if shares_current(c, kind) {
        c.offset
    } else {
        0
    }
}

/// The cursor behind a field that was placed at it.
pub open spec fn advance(fields: Seq<FieldDecl>, c: Cursor, kind: FieldKind) -> Cursor {
    if kind is Slot {
        Cursor {
            slot: auto_slot(fields, c, kind),
            offset: auto_offset(c, kind) + kind.span_spec(),
        }
    } else {
        Cursor { slot: auto_slot(fields, c, kind) + 1, offset: 0 }
    }
}

/// The cursor behind the first `n` fields.
pub open spec fn cursor_after(fields: Seq<FieldDecl>, n: nat) -> Cursor
    decreases n,
{
    if n == 0 {
        Cursor { slot: 0, offset: 0 }
    } else {
        let c = cursor_after(fields, (n - 1) as nat);
        let f = fields[n - 1];
        if f.is_manual() {
            c
        } else {
            advance(fields, c, f.kind)
        }
    }
}

/// The slot that the field at `i` is planned at.
pub open spec fn planned_slot(fields: Seq<FieldDecl>, i: int) -> int {
    match fields[i].assigned_slot {
        SlotAssignment::Manual(n) => n as int,
        SlotAssignment::Auto => auto_slot(fields, cursor_after(fields, i as nat), fields[i].kind),
    }
}

/// The offset that the field at `i` is planned at.
pub open spec fn planned_offset(fields: Seq<FieldDecl>, i: int) -> nat {
    match fields[i].assigned_slot {
        SlotAssignment::Manual(n) => fields[i].declared_offset(),
        SlotAssignment::Auto => auto_offset(cursor_after(fields, i as nat), fields[i].kind),
    }
}

/// The field at `i` with its planned place.
pub open spec fn planned_field(fields: Seq<FieldDecl>, i: int) -> LayoutField {
    LayoutField {
        name: fields[i].name,
        kind: fields[i].kind,
        size_bytes: fields[i].kind.span_spec() as u8,
        assigned_slot: fields[i].assigned_slot,
        slot: planned_slot(fields, i) as u64,
        offset: planned_offset(fields, i) as u8,
    }
}

/// The number of fields without a declared slot among the first `n` fields.
pub open spec fn autos_before(fields: Seq<FieldDecl>, n: nat) -> nat
    decreases n,
{
    if n == 0 {
        0
    } else if fields[n - 1].is_manual() {
        autos_before(fields, (n - 1) as nat)
    } else {
        autos_before(fields, (n - 1) as nat) + 1
    }
}

/// The number of fields that declare a slot from `a` up to, but not including,
/// `b`.
pub open spec fn declared_in(fields: Seq<FieldDecl>, a: int, b: int) -> nat
    decreases fields.len(),
{
    if fields.len() == 0 {
        0
    } else {
        let rest = declared_in(fields.drop_last(), a, b);
        match fields.last().assigned_slot {
            SlotAssignment::Manual(n) => if a <= n < b {
                rest + 1
            } else {
                rest
            },
            SlotAssignment::Auto => rest,
        }
    }
}

/// The fields that declare a slot of a range are those that declare a slot of
/// its first part and those that declare a slot of its second part.
pub proof fn lemma_declared_in_split(fields: Seq<FieldDecl>, a: int, b: int, c: int)
    requires
        a <= b <= c,
    ensures
        declared_in(fields, a, b) + declared_in(fields, b, c) == declared_in(fields, a, c),
    decreases fields.len(),
{
    if fields.len() > 0 {
        lemma_declared_in_split(fields.drop_last(), a, b, c);
    }
}

/// A slot that is taken is declared by a field.
pub proof fn lemma_taken_is_declared(fields: Seq<FieldDecl>, slot: int)
    requires
        slot_taken(fields, slot),
    ensures
        declared_in(fields, slot, slot + 1) >= 1,
    decreases fields.len(),
{
    let i = choose|i: int| 0 <= i < fields.len() && declares(#[trigger] fields[i], slot);
    if i < fields.len() - 1 {
        assert(declares(fields.drop_last()[i], slot));
        lemma_taken_is_declared(fields.drop_last(), slot);
    }
}

/// A run of taken slots is no longer than the number of fields that declare a
/// slot of the run.
pub proof fn lemma_taken_run(fields: Seq<FieldDecl>, a: int, b: int)
    requires
        a <= b,
        forall|s: int| a <= s < b ==> slot_taken(fields, s),
    ensures
        b - a <= declared_in(fields, a, b),
    decreases b - a,
{
    if a < b {
        lemma_taken_run(fields, a, b - 1);
        lemma_taken_is_declared(fields, b - 1);
        lemma_declared_in_split(fields, a, b - 1, b);
    }
}

/// Whether a field has a declared slot depends on the field alone.
pub proof fn lemma_autos_before_prefix(fields: Seq<FieldDecl>, n: nat)
    requires
        n < fields.len(),
    ensures
        autos_before(fields.drop_last(), n) == autos_before(fields, n),
    decreases n,
{
    if n > 0 {
        lemma_autos_before_prefix(fields, (n - 1) as nat);
        assert(fields.drop_last()[n - 1] == fields[n - 1]);
    }
}

/// Every field is counted once: with a declared slot or without.
pub proof fn lemma_fields_counted(fields: Seq<FieldDecl>, a: int, b: int)
    ensures
        declared_in(fields, a, b) + autos_before(fields, fields.len()) <= fields.len(),
    decreases fields.len(),
{
    if fields.len() > 0 {
        lemma_fields_counted(fields.drop_last(), a, b);
        lemma_autos_before_prefix(fields, (fields.len() - 1) as nat);
    }
}

/// The count of fields without a declared slot does not fall.
pub proof fn lemma_autos_before_grows(fields: Seq<FieldDecl>, m: nat, n: nat)
    requires
        m <= n,
    ensures
        autos_before(fields, m) <= autos_before(fields, n),
    decreases n - m,
{
    if m < n {
        lemma_autos_before_grows(fields, m, (n - 1) as nat);
    }
}

/// Whether the cursor is within what the fields before it can have used up:
/// the first slot of which nothing is used is no further than the number of
/// fields without a declared slot that were laid down, and the number of
/// fields that declare a slot before it.
pub open spec fn cursor_bounded(fields: Seq<FieldDecl>, n: nat) -> bool {
    let base = fresh_base(cursor_after(fields, n));
    0 <= cursor_after(fields, n).slot && base <= autos_before(fields, n) + declared_in(
        fields,
        0,
        base,
    )
}

/// The cursor stays within what the fields before it can have used up.
pub proof fn lemma_cursor_bounded(fields: Seq<FieldDecl>, n: nat)
    requires
        n <= fields.len(),
        declarations_ok(fields, fields.len() as int),
    ensures
        cursor_bounded(fields, n),
    decreases n,
{
    if n > 0 {
        let m = (n - 1) as nat;
        lemma_cursor_bounded(fields, m);
        let before = cursor_after(fields, m);
        let f = fields[n - 1];
        assert(f.size_ok());
        if !f.is_manual() && !shares_current(before, f.kind) {
            let base = fresh_base(before);
            let free = first_free(fields, base);
            lemma_first_free(fields, base);
            lemma_taken_run(fields, base, free);
            lemma_declared_in_split(fields, 0, base, free);
            lemma_declared_in_split(fields, 0, free, free + 1);
        }
    }
}

/// A field without a declared slot is planned at a slot whose number is below
/// the number of fields.
pub proof fn lemma_planned_slot_bounded(fields: Seq<FieldDecl>, i: int)
    requires
        0 <= i < fields.len(),
        !fields[i].is_manual(),
        declarations_ok(fields, fields.len() as int),
    ensures
        0 <= planned_slot(fields, i) < fields.len(),
{
    let n = i as nat;
    lemma_cursor_bounded(fields, n);
    let before = cursor_after(fields, n);
    let f = fields[i];
    lemma_autos_before_grows(fields, (n + 1) as nat, fields.len());
    if shares_current(before, f.kind) {
        lemma_fields_counted(fields, 0, fresh_base(before));
    } else {
        let base = fresh_base(before);
        let free = first_free(fields, base);
        lemma_first_free(fields, base);
        lemma_taken_run(fields, base, free);
        lemma_declared_in_split(fields, 0, base, free);
        lemma_fields_counted(fields, 0, free);
    }
}

/// Whether the sizes and the offset of every field before place `n` are in order.
pub open spec fn declarations_ok(fields: Seq<FieldDecl>, n: int) -> bool {
    forall|k: int| 0 <= k < n && k < fields.len() ==> (#[trigger] fields[k]).size_ok() && fields[k].offset_ok()
}

/// Whether two declarations name places that share a byte.
pub open spec fn declared_collide(a: FieldDecl, b: FieldDecl) -> bool {
    a.is_manual() && b.is_manual() && a.assigned_slot == b.assigned_slot && a.declared_offset()
        < b.declared_offset() + b.kind.span_spec() && b.declared_offset() < a.declared_offset()
        + a.kind.span_spec()
}

/// Whether the declared place of the field at `j` shares a byte with that of
/// one of the first `n` fields.
pub open spec fn collides_with_earlier(fields: Seq<FieldDecl>, j: int, n: int) -> bool {
    exists|i: int| 0 <= i < n && i < j && declared_collide(#[trigger] fields[i], fields[j])
}

/// Whether no declared place of the first `n` fields shares a byte with that
/// of an earlier field.
pub open spec fn declared_places_apart(fields: Seq<FieldDecl>, n: int) -> bool {
    forall|j: int| 0 <= j < n && j < fields.len() ==> !collides_with_earlier(fields, j, j)
}

/// Whether the layout is the planned one, field by field.
pub open spec fn is_planned(fields: Seq<FieldDecl>, layout: Seq<LayoutField>) -> bool {
    layout.len() == fields.len() && forall|k: int|
        0 <= k < fields.len() ==> #[trigger] layout[k] == planned_field(fields, k)
}

/// Decides whether some declaration names `slot` as its slot.
pub fn is_slot_taken(fields: &Vec<FieldDecl>, slot: u128) -> (r: bool)
    ensures
        r == slot_taken(fields@, slot as int),
{
    let mut i: usize = 0;
    while i < fields.len()
        invariant
            i <= fields@.len(),
            forall|k: int| 0 <= k < i ==> !declares(#[trigger] fields@[k], slot as int),
        decreases fields@.len() - i,
    {
        match fields[i].assigned_slot {
            SlotAssignment::Manual(n) => {
                if n as u128 == slot {
                    assert(declares(fields@[i as int], slot as int));
                    return true;
                }
            },
            SlotAssignment::Auto => {},
        }
        i = i + 1;
    }
    false
}

/// Finds the first slot from `start` on that no declaration names.
pub fn find_first_free(fields: &Vec<FieldDecl>, start: u128) -> (r: u128)
    requires
        start <= 0x1_0000_0000_0000_0001,
    ensures
        r == first_free(fields@, start as int),
        r <= 0x1_0000_0000_0000_0001,
{
    let mut slot = start;
    proof {
        lemma_first_free(fields@, start as int);
    }
    while is_slot_taken(fields, slot)
        invariant
            start <= slot <= 0x1_0000_0000_0000_0001,
            first_free(fields@, slot as int) == first_free(fields@, start as int),
        decreases max_declared(fields@) + 1 - slot,
    {
        proof {
            lemma_taken_below_max(fields@, slot as int);
            let i = choose|i: int| 0 <= i < fields@.len() && declares(#[trigger] fields@[i], slot as int);
        }
        slot = slot + 1;
    }
    proof {
        if slot_taken(fields@, slot as int) {
            lemma_taken_below_max(fields@, slot as int);
        }
    }
    slot
}

/// Looks for the first field whose sizes or offset are not in order.
fn check_declarations(fields: &Vec<FieldDecl>) -> (r: Option<LayoutError>)
    ensures
        match r {
            None => declarations_ok(fields@, fields@.len() as int),
            Some(LayoutError::InvalidSize { index }) => index < fields@.len() && declarations_ok(
                fields@,
                index as int,
            ) && !fields@[index as int].size_ok(),
            Some(LayoutError::InvalidOffset { index }) => index < fields@.len() && declarations_ok(
                fields@,
                index as int,
            ) && fields@[index as int].size_ok() && !fields@[index as int].offset_ok(),
            Some(_) => false,
        },
{
    let mut i: usize = 0;
    while i < fields.len()
        invariant
            i <= fields@.len(),
            declarations_ok(fields@, i as int),
        decreases fields@.len() - i,
    {
        let f = &fields[i];
        if !f.kind.is_storable() {
            return Some(LayoutError::InvalidSize { index: i });
        }
        match f.manual_offset {
            Some(o) => {
                let manual = match f.assigned_slot {
                    SlotAssignment::Manual(_) => true,
                    SlotAssignment::Auto => false,
                };
                if !manual || o as u16 + f.kind.span() as u16 > 32 {
                    return Some(LayoutError::InvalidOffset { index: i });
                }
            },
            None => {},
        }
        i = i + 1;
    }
    None
}

/// The offset that a declared slot is used at.
fn declared_offset_of(f: &FieldDecl) -> (r: u8)
    ensures
        r == f.declared_offset(),
{
    match f.manual_offset {
        Some(o) => o,
        None => 0,
    }
}

/// Decides whether two declarations name places that share a byte.
fn declared_places_collide(a: &FieldDecl, b: &FieldDecl) -> (r: bool)
    ensures
        r == declared_collide(*a, *b),
{
    match (a.assigned_slot, b.assigned_slot) {
        (SlotAssignment::Manual(x), SlotAssignment::Manual(y)) => {
            let oa = declared_offset_of(a) as u16;
            let ob = declared_offset_of(b) as u16;
            x == y && oa < ob + b.kind.span() as u16 && ob < oa + a.kind.span() as u16
        },
        _ => false,
    }
}

/// Looks for the first field whose declared place shares a byte with that of
/// an earlier field.
fn check_declared_places(fields: &Vec<FieldDecl>) -> (r: Option<LayoutError>)
    ensures
        match r {
            None => declared_places_apart(fields@, fields@.len() as int),
            Some(LayoutError::ManualCollision { first, second }) => first < second && second
                < fields@.len() && declared_places_apart(fields@, second as int)
                && declared_collide(fields@[first as int], fields@[second as int])
                && !collides_with_earlier(fields@, second as int, first as int),
            Some(_) => false,
        },
{
    let mut j: usize = 0;
    while j < fields.len()
        invariant
            j <= fields@.len(),
            declared_places_apart(fields@, j as int),
        decreases fields@.len() - j,
    {
        let mut i: usize = 0;
        while i < j
            invariant
                i <= j < fields@.len(),
                declared_places_apart(fields@, j as int),
                !collides_with_earlier(fields@, j as int, i as int),
            decreases j - i,
        {
            if declared_places_collide(&fields[i], &fields[j]) {
                return Some(LayoutError::ManualCollision { first: i, second: j });
            }
            i = i + 1;
        }
        j = j + 1;
    }
    None
}

/// Whether the field `placed` lies behind the cursor: in an earlier slot, or in
/// the used part of the slot that is being filled.
pub open spec fn behind_cursor(placed: LayoutField, slot: int, offset: nat) -> bool {
    placed.slot < slot || (placed.slot == slot && placed.offset + placed.size_bytes <= offset)
}

/// Lays the fields down, given that their declarations are in order.
fn place_fields(fields: &Vec<FieldDecl>) -> (layout: Vec<LayoutField>)
    requires
        declarations_ok(fields@, fields@.len() as int),
        declared_places_apart(fields@, fields@.len() as int),
    ensures
        is_planned(fields@, layout@),
        no_collisions(layout@),
        forall|k: int| 0 <= k < layout@.len() ==> (#[trigger] layout@[k]).inside_word(),
{
    let mut out: Vec<LayoutField> = Vec::new();
    let mut slot: u128 = 0;
    let mut offset: u8 = 0;
    let mut i: usize = 0;
    while i < fields.len()
        invariant
            i <= fields@.len(),
            out@.len() == i,
            declarations_ok(fields@, fields@.len() as int),
            declared_places_apart(fields@, fields@.len() as int),
            cursor_after(fields@, i as nat) == (Cursor { slot: slot as int, offset: offset as nat }),
            slot <= 0x1_0000_0000_0000_0000,
            offset <= 32,
            offset > 0 ==> !slot_taken(fields@, slot as int) && slot <= u64::MAX,
            forall|k: int| 0 <= k < i ==> #[trigger] out@[k] == planned_field(fields@, k),
            forall|k: int| 0 <= k < i ==> (#[trigger] out@[k]).inside_word(),
            forall|k: int|
                0 <= k < i && !fields@[k].is_manual() ==> !slot_taken(
                    fields@,
                    (#[trigger] out@[k]).slot as int,
                ) && behind_cursor(out@[k], slot as int, offset as nat),
            forall|a: int, b: int|
                0 <= a < i && 0 <= b < i && a != b ==> !fields_collide(
                    #[trigger] out@[a],
                    #[trigger] out@[b],
                ),
        decreases fields@.len() - i,
    {
        let f = fields[i];
        let span = f.kind.span();
        let ghost before = Cursor { slot: slot as int, offset: offset as nat };
        assert(f.size_ok() && f.offset_ok());
        let placed = match f.assigned_slot {
            SlotAssignment::Manual(n) => {
                let placed = LayoutField {
                    name: f.name,
                    kind: f.kind,
                    size_bytes: span,
                    assigned_slot: f.assigned_slot,
                    slot: n,
                    offset: declared_offset_of(&f),
                };
                proof {
                    assert(declares(fields@[i as int], n as int));
                    assert forall|k: int| 0 <= k < i implies !fields_collide(
                        #[trigger] out@[k],
                        placed,
                    ) by {
                        if fields@[k].is_manual() {
                            assert(!collides_with_earlier(fields@, i as int, i as int));
                            assert(!declared_collide(fields@[k], fields@[i as int]));
                        }
                    }
                }
                placed
            },
            SlotAssignment::Auto => {
                let scalar = match f.kind {
                    FieldKind::Slot(_) => true,
                    _ => false,
                };
                if scalar && offset > 0 && offset as u16 + span as u16 <= 32 {
                    let placed = LayoutField {
                        name: f.name,
                        kind: f.kind,
                        size_bytes: span,
                        assigned_slot: f.assigned_slot,
                        slot: slot as u64,
                        offset,
                    };
                    offset = offset + span;
                    placed
                } else {
                    let base: u128 = if offset > 0 {
                        slot + 1
                    } else {
                        slot
                    };
                    let free = find_first_free(fields, base);
                    proof {
                        lemma_first_free(fields@, base as int);
                        lemma_planned_slot_bounded(fields@, i as int);
                    }
                    let placed = LayoutField {
                        name: f.name,
                        kind: f.kind,
                        size_bytes: span,
                        assigned_slot: f.assigned_slot,
                        slot: free as u64,
                        offset: 0,
                    };
                    if scalar {
                        slot = free;
                        offset = span;
                    } else {
                        slot = free + 1;
                        offset = 0;
                    }
                    placed
                }
            },
        };
        proof {
            assert(placed == planned_field(fields@, i as int));
            if !f.is_manual() {
                assert(!slot_taken(fields@, placed.slot as int));
                assert forall|k: int| 0 <= k < i implies !fields_collide(
                    #[trigger] out@[k],
                    placed,
                ) by {
                    if fields@[k].is_manual() {
                        assert(declares(fields@[k], out@[k].slot as int));
                    } else {
                        assert(behind_cursor(out@[k], before.slot, before.offset));
                    }
                }
                assert forall|k: int| 0 <= k < i && !fields@[k].is_manual() implies behind_cursor(
                    #[trigger] out@[k],
                    slot as int,
                    offset as nat,
                ) by {
                    assert(behind_cursor(out@[k], before.slot, before.offset));
                    assert(out@[k].inside_word());
                }
            }
        }
        let ghost earlier = out@;
        out.push(placed);
        i = i + 1;
        proof {
            assert forall|a: int, b: int|
                0 <= a < i && 0 <= b < i && a != b implies !fields_collide(
                #[trigger] out@[a],
                #[trigger] out@[b],
            ) by {
                if a < i - 1 && b < i - 1 {
                    assert(!fields_collide(earlier[a], earlier[b]));
                } else if a == i - 1 {
                    assert(!fields_collide(earlier[b], placed));
                } else {
                    assert(!fields_collide(earlier[a], placed));
                }
            }
            assert forall|k: int| 0 <= k < i implies #[trigger] out@[k] == planned_field(
                fields@,
                k,
            ) by {
                if k < i - 1 {
                    assert(out@[k] == earlier[k]);
                }
            }
            assert forall|k: int| 0 <= k < i implies (#[trigger] out@[k]).inside_word() by {
                if k < i - 1 {
                    assert(out@[k] == earlier[k]);
                }
            }
            assert forall|k: int| 0 <= k < i && !fields@[k].is_manual() implies !slot_taken(
                fields@,
                (#[trigger] out@[k]).slot as int,
            ) && behind_cursor(out@[k], slot as int, offset as nat) by {
                if k < i - 1 {
                    assert(out@[k] == earlier[k]);
                }
            }
        }
    }
    out
}

/// Plans the layout of the declared fields.
///
/// The outcome depends on the declarations alone. A field whose sizes or offset
/// are not in order is reported first, the earliest such field; then two fields
/// whose declared places share a byte. Without any of these the planned layout
/// is returned: no two of its fields share a byte, and each lies inside its
/// word.
pub fn plan_layout(fields: &Vec<FieldDecl>) -> (r: Result<Vec<LayoutField>, LayoutError>)
    ensures
        match r {
            Ok(layout) => declarations_ok(fields@, fields@.len() as int) && declared_places_apart(
                fields@,
                fields@.len() as int,
            ) && is_planned(fields@, layout@) && no_collisions(layout@) && forall|k: int|
                0 <= k < layout@.len() ==> (#[trigger] layout@[k]).inside_word(),
            Err(LayoutError::InvalidSize { index }) => index < fields@.len() && declarations_ok(
                fields@,
                index as int,
            ) && !fields@[index as int].size_ok(),
            Err(LayoutError::InvalidOffset { index }) => index < fields@.len() && declarations_ok(
                fields@,
                index as int,
            ) && fields@[index as int].size_ok() && !fields@[index as int].offset_ok(),
            Err(LayoutError::ManualCollision { first, second }) => declarations_ok(
                fields@,
                fields@.len() as int,
            ) && first < second && second < fields@.len() && declared_places_apart(
                fields@,
                second as int,
            ) && declared_collide(fields@[first as int], fields@[second as int])
                && !collides_with_earlier(fields@, second as int, first as int),
        },
{
    match check_declarations(fields) {
        Some(e) => {
            return Err(e);
        },
        None => {},
    }
    match check_declared_places(fields) {
        Some(e) => {
            return Err(e);
        },
        None => {},
    }
    Ok(place_fields(fields))
}

} // verus!
