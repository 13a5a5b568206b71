use precompile_core::layout::{
    check_all_collisions, plan_layout, FieldDecl, FieldKind, LayoutError, SlotAssignment, ValueType,
};

fn auto(name: &'static str, kind: FieldKind) -> FieldDecl {
    FieldDecl { name, kind, assigned_slot: SlotAssignment::Auto, manual_offset: None }
}

#[test]
fn packed_layout_of_four_fields() {
    let fields = vec![
        auto("a", FieldKind::Slot(ValueType::U8)),
        auto("b", FieldKind::Slot(ValueType::U64)),
        auto("c", FieldKind::Slot(ValueType::Address)),
        auto("d", FieldKind::Mapping { key: ValueType::Address, value: ValueType::U256 }),
    ];
    let layout = plan_layout(&fields).unwrap();
    let places: Vec<(u64, u8, u8)> =
        layout.iter().map(|f| (f.slot, f.offset, f.size_bytes)).collect();
    assert_eq!(places, vec![(0, 0, 1), (0, 1, 8), (0, 9, 20), (1, 0, 32)]);
    assert!(check_all_collisions(&layout));
}

#[test]
fn size_zero_is_rejected() {
    let fields = vec![
        auto("a", FieldKind::Slot(ValueType::U8)),
        auto("b", FieldKind::Slot(ValueType::FixedBytes(0))),
    ];
    assert_eq!(plan_layout(&fields).unwrap_err(), LayoutError::InvalidSize { index: 1 });
}

fn manual(name: &'static str, kind: FieldKind, slot: u64, offset: Option<u8>) -> FieldDecl {
    FieldDecl { name, kind, assigned_slot: SlotAssignment::Manual(slot), manual_offset: offset }
}

fn places(fields: &[FieldDecl]) -> Vec<(u64, u8, u8)> {
    let layout = plan_layout(&fields.to_vec()).unwrap();
    assert!(check_all_collisions(&layout));
    layout.iter().map(|f| (f.slot, f.offset, f.size_bytes)).collect()
}

#[test]
fn value_that_does_not_fit_opens_the_next_slot() {
    let got = places(&[
        auto("a", FieldKind::Slot(ValueType::U128)),
        auto("b", FieldKind::Slot(ValueType::Address)),
        auto("c", FieldKind::Slot(ValueType::U64)),
        auto("d", FieldKind::Slot(ValueType::U256)),
        auto("e", FieldKind::Slot(ValueType::Bool)),
    ]);
    assert_eq!(got, vec![(0, 0, 16), (1, 0, 20), (1, 20, 8), (2, 0, 32), (3, 0, 1)]);
}

#[test]
fn mappings_take_whole_slots() {
    let m = FieldKind::Mapping { key: ValueType::Address, value: ValueType::U256 };
    let n = FieldKind::NestedMapping {
        key1: ValueType::Address,
        key2: ValueType::Address,
        value: ValueType::U256,
    };
    let got = places(&[
        auto("m", m),
        auto("n", n),
        auto("a", FieldKind::Slot(ValueType::U8)),
        auto("o", m),
        auto("b", FieldKind::Slot(ValueType::U8)),
    ]);
    assert_eq!(got, vec![(0, 0, 32), (1, 0, 32), (2, 0, 1), (3, 0, 32), (4, 0, 1)]);
}

#[test]
fn declared_slots_are_kept_and_passed_over() {
    let got = places(&[
        auto("a", FieldKind::Slot(ValueType::U64)),
        manual("m", FieldKind::Slot(ValueType::U64), 1, None),
        auto("b", FieldKind::Slot(ValueType::U256)),
        manual("n", FieldKind::Slot(ValueType::U8), 0, Some(8)),
        manual("o", FieldKind::Slot(ValueType::U8), 3, Some(31)),
        auto("c", FieldKind::Slot(ValueType::U256)),
    ]);
    // Slots 0, 1 and 3 are declared, so the fields without a declared slot go
    // to 2, 4 and 5.
    assert_eq!(got, vec![(2, 0, 8), (1, 0, 8), (4, 0, 32), (0, 8, 1), (3, 31, 1), (5, 0, 32)]);
}

#[test]
fn size_above_a_word_is_rejected() {
    let fields = vec![auto("a", FieldKind::Slot(ValueType::FixedBytes(33)))];
    assert_eq!(plan_layout(&fields).unwrap_err(), LayoutError::InvalidSize { index: 0 });
    let fields = vec![auto(
        "m",
        FieldKind::Mapping { key: ValueType::FixedBytes(0), value: ValueType::U8 },
    )];
    assert_eq!(plan_layout(&fields).unwrap_err(), LayoutError::InvalidSize { index: 0 });
    let fields = vec![auto("a", FieldKind::Slot(ValueType::FixedBytes(32)))];
    assert!(plan_layout(&fields).is_ok());
}

#[test]
fn offset_needs_a_declared_slot_and_room() {
    let mut f = auto("a", FieldKind::Slot(ValueType::U8));
    f.manual_offset = Some(3);
    assert_eq!(
        plan_layout(&vec![auto("x", FieldKind::Slot(ValueType::U8)), f]).unwrap_err(),
        LayoutError::InvalidOffset { index: 1 }
    );
    let fields = vec![manual("a", FieldKind::Slot(ValueType::U64), 0, Some(25))];
    assert_eq!(plan_layout(&fields).unwrap_err(), LayoutError::InvalidOffset { index: 0 });
    let fields = vec![manual("a", FieldKind::Slot(ValueType::U64), 0, Some(24))];
    assert!(plan_layout(&fields).is_ok());
    let m = FieldKind::Mapping { key: ValueType::Address, value: ValueType::U256 };
    assert_eq!(
        plan_layout(&vec![manual("m", m, 0, Some(1))]).unwrap_err(),
        LayoutError::InvalidOffset { index: 0 }
    );
}

#[test]
fn declared_places_that_overlap_are_rejected() {
    let fields = vec![
        manual("a", FieldKind::Slot(ValueType::U64), 7, None),
        auto("x", FieldKind::Slot(ValueType::U8)),
        manual("b", FieldKind::Slot(ValueType::U8), 7, Some(8)),
        manual("c", FieldKind::Slot(ValueType::U8), 7, Some(7)),
    ];
    assert_eq!(
        plan_layout(&fields).unwrap_err(),
        LayoutError::ManualCollision { first: 0, second: 3 }
    );
    let m = FieldKind::Mapping { key: ValueType::Address, value: ValueType::U256 };
    let fields = vec![manual("m", m, 2, None), manual("n", m, 2, None)];
    assert_eq!(
        plan_layout(&fields).unwrap_err(),
        LayoutError::ManualCollision { first: 0, second: 1 }
    );
}

#[test]
fn collision_check_finds_edited_layouts() {
    let fields = vec![
        auto("a", FieldKind::Slot(ValueType::U8)),
        auto("b", FieldKind::Slot(ValueType::U64)),
    ];
    let mut layout = plan_layout(&fields).unwrap();
    assert!(check_all_collisions(&layout));
    layout[1].offset = 0;
    assert!(!check_all_collisions(&layout));
    assert!(check_all_collisions(&Vec::new()));
}
