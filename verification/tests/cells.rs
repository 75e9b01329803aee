use battletris::cell::{Cell, Pip, VisibleColor, HAPPY_VALUE};

#[test]
fn pip_accepts_only_legacy_range() {
    assert!(Pip::new(0).is_none());
    assert_eq!(Pip::new(1).expect("valid pip").get(), 1);
    assert_eq!(Pip::new(6).expect("valid pip").get(), 6);
    assert!(Pip::new(7).is_none());
}

#[test]
fn cell_values_match_legacy_funds_behavior() {
    assert_eq!(Cell::visible().value(), 0);
    assert_eq!(Cell::Structure.value(), 0);
    assert_eq!(Cell::Happy.value(), HAPPY_VALUE);
    assert_eq!(Cell::Frown.value(), 0);
    assert_eq!(Cell::Gimp { value: 6 }.value(), 6);
    assert_eq!(Cell::die(Pip::new(4).expect("valid pip")).value(), 4);
    assert_eq!(Cell::Invisible.value(), 0);
    assert_eq!(Cell::Hidden { value: 5, removable: true }.value(), 5);
}

#[test]
fn removability_preserves_structure_exception() {
    assert!(Cell::visible().is_removable());
    assert!(!Cell::Structure.is_removable());
    assert!(Cell::Gimp { value: 0 }.is_removable());
    assert!(Cell::Hidden { value: 0, removable: true }.is_removable());
    assert!(!Cell::Hidden { value: 0, removable: false }.is_removable());
}

#[test]
fn legacy_ids_cover_typed_cell_view() {
    assert_eq!(Cell::visible().legacy_id(), 1);
    assert_eq!(Cell::Structure.legacy_id(), 20);
    assert_eq!(Cell::Happy.legacy_id(), 21);
    assert_eq!(Cell::Frown.legacy_id(), 22);
    assert_eq!(Cell::Gimp { value: 6 }.legacy_id(), 23);
    assert_eq!(Cell::die(Pip::new(1).expect("valid pip")).legacy_id(), 24);
    assert_eq!(Cell::die(Pip::new(6).expect("valid pip")).legacy_id(), 29);
    assert_eq!(Cell::Invisible.legacy_id(), 0);
    assert_eq!(Cell::Hidden { value: 0, removable: true }.legacy_id(), -1);
}

#[test]
fn legacy_id_recreation_is_lossy_where_legacy_is_lossy() {
    assert_eq!(Cell::from_legacy_id(0), None);
    assert_eq!(Cell::from_legacy_id(1), Some(Cell::visible()));
    assert_eq!(Cell::from_legacy_id(20), Some(Cell::Structure));
    assert_eq!(Cell::from_legacy_id(21), Some(Cell::Happy));
    assert_eq!(Cell::from_legacy_id(22), Some(Cell::Frown));
    assert_eq!(Cell::from_legacy_id(23), Some(Cell::Gimp { value: 0 }));
    assert_eq!(Cell::from_legacy_id(24), Some(Cell::die(Pip::new(1).unwrap())));
    assert_eq!(Cell::from_legacy_id(29), Some(Cell::die(Pip::new(6).unwrap())));
    assert_eq!(Cell::from_legacy_id(-1), None);
    assert_eq!(Cell::from_legacy_id(30), None);
}

#[test]
fn legacy_id_round_trips_for_faithful_cells() {
    for id in [1i16, 20, 21, 22, 24, 25, 26, 27, 28, 29] {
        let cell = Cell::from_legacy_id(id).expect("known legacy id");
        assert_eq!(cell.legacy_id(), id);
    }
    let colored = Cell::visible_with_color(VisibleColor::new(5).expect("valid color"));
    assert_eq!(colored.legacy_id(), 5);
    assert_eq!(Cell::from_legacy_id(5), Some(colored));
}
