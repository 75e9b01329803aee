use battletris::board::LineClearOutcome;
use battletris::score::{BazaarTracker, PlayerScore, BAZAAR_LINE_THRESHOLD};
use battletris::weapons::{
    weapon_catalog, weapon_spec, ActiveEffects, Arsenal, ArsenalError, Bazaar, BazaarError, WeaponToken,
};

#[test]
fn line_clear_updates_funds_and_line_count_without_display_score() {
    let mut score = PlayerScore::default();
    score.add_score(28);

    score.apply_line_clear(&LineClearOutcome { lines_cleared: 2, funds: 12, happy_missed: 1, cleared_rows: vec![26, 27] });

    assert_eq!(score.score(), 28);
    assert_eq!(score.funds(), 12);
    assert_eq!(score.lines(), 2);
}

#[test]
fn bazaar_tracker_uses_legacy_modulo_wrap_cases() {
    let mut tracker = BazaarTracker::new();
    assert_eq!(tracker.lines_until_bazaar(), BAZAAR_LINE_THRESHOLD);

    assert!(!tracker.observe(19, 0));
    assert_eq!(tracker.lines_until_bazaar(), 1);
    assert!(tracker.observe(19, 1));
    assert_eq!(tracker.lines_until_bazaar(), BAZAAR_LINE_THRESHOLD);

    let mut tracker = BazaarTracker::new();
    assert!(!tracker.observe(18, 0));
    assert!(tracker.observe(18, 2));

    let mut tracker = BazaarTracker::new();
    assert!(!tracker.observe(19, 0));
    assert!(tracker.observe(19, 4));
    assert_eq!(tracker.lines_until_bazaar(), 17);

    let mut tracker = BazaarTracker::new();
    assert!(!tracker.observe(39, 0));
    assert!(tracker.observe(39, 2));
    assert_eq!(tracker.lines_until_bazaar(), 19);
}

#[test]
fn spending_refuses_more_than_the_funds() {
    let mut score = PlayerScore::default();
    score.add_funds(100);
    assert!(!score.spend_funds(101));
    assert_eq!(score.funds(), 100);
    assert!(score.spend_funds(40));
    assert_eq!(score.funds(), 60);
}

#[test]
fn catalog_preserves_legacy_order_prices_and_durations() {
    let catalog = weapon_catalog();
    assert_eq!(catalog.len(), 34);
    for (index, spec) in catalog.iter().enumerate() {
        assert_eq!(spec.token.legacy_id(), index as u8);
        assert_eq!(WeaponToken::from_legacy_id(index as u8), Some(spec.token));
        assert!(!spec.name.is_empty());
        assert!(!spec.description.is_empty());
    }

    let rows = catalog
        .iter()
        .map(|spec| (spec.legacy_symbol, spec.name, spec.price, spec.line_duration))
        .collect::<Vec<_>>();
    assert_eq!(rows[0], ("BT_FEARED_WEIRD", "The Feared Weird", 400, 3));
    assert_eq!(rows[5], ("BT_SWAP", "Swap meet", 1200, 0));
    assert_eq!(rows[15], ("BT_CARTER", "Carter Years", 250, 20));
    assert_eq!(rows[28], ("BT_MIRROR", "Mirror Mirror", 500, 10));
    assert_eq!(rows[33], ("BT_GIMP", "The Gimp", 25, 0));
}

#[test]
fn weapon_spec_is_the_catalog_row_of_its_token() {
    for spec in weapon_catalog() {
        assert_eq!(weapon_spec(spec.token), spec);
    }
}

#[test]
fn arsenal_number_labels_and_launch_consumption_preserve_holes() {
    assert_eq!(Arsenal::slot_index_for_label(1), Some(0));
    assert_eq!(Arsenal::slot_index_for_label(9), Some(8));
    assert_eq!(Arsenal::slot_index_for_label(0), Some(9));
    assert_eq!(Arsenal::slot_index_for_label(10), None);

    let mut arsenal = Arsenal::new();
    arsenal.buy_weapon(WeaponToken::Gimp).unwrap();
    assert_eq!(arsenal.consume_slot_label(1), Ok(WeaponToken::Gimp));
    assert_eq!(arsenal.slots()[0], None);
    assert_eq!(arsenal.consume_slot_label(1), Err(ArsenalError::EmptySlot(0)));
    assert_eq!(arsenal.consume_slot_label(10), Err(ArsenalError::InvalidSlotLabel(10)));
}

#[test]
fn arsenal_stacks_only_before_the_first_hole_like_legacy() {
    let mut arsenal = Arsenal::new();
    assert_eq!(arsenal.buy_weapon(WeaponToken::Gimp), Ok(0));
    assert_eq!(arsenal.buy_weapon(WeaponToken::Force), Ok(1));
    assert_eq!(arsenal.buy_weapon(WeaponToken::Gimp), Ok(0));
    assert_eq!(arsenal.slots()[0].unwrap().quantity, 2);

    assert_eq!(arsenal.consume_slot_label(1), Ok(WeaponToken::Gimp));
    assert_eq!(arsenal.consume_slot_label(1), Ok(WeaponToken::Gimp));
    assert_eq!(arsenal.slots()[0], None);

    assert_eq!(arsenal.buy_weapon(WeaponToken::Force), Ok(0));
    assert_eq!(arsenal.slots()[0].unwrap().token, WeaponToken::Force);
    assert_eq!(arsenal.slots()[1].unwrap().token, WeaponToken::Force);
}

#[test]
fn arsenal_reports_full_when_no_slot_can_take_a_weapon() {
    let mut arsenal = Arsenal::new();
    for id in 0..10u8 {
        let token = WeaponToken::from_legacy_id(id).unwrap();
        assert_eq!(arsenal.buy_weapon(token), Ok(usize::from(id)));
    }
    let eleventh = WeaponToken::from_legacy_id(10).unwrap();
    assert_eq!(arsenal.buy_weapon(eleventh), Err(ArsenalError::Full));
    let first = WeaponToken::from_legacy_id(0).unwrap();
    assert_eq!(arsenal.buy_weapon(first), Ok(0));
    assert_eq!(arsenal.slots()[0].unwrap().quantity, 2);
}

#[test]
fn bazaar_stages_purchases_refunds_only_new_quantities_and_commits() {
    let mut arsenal = Arsenal::new();
    arsenal.buy_weapon(WeaponToken::Gimp).unwrap();
    let mut bazaar = Bazaar::new(arsenal, 100, false);

    assert_eq!(bazaar.buy(WeaponToken::Gimp), Ok(0));
    assert_eq!(bazaar.staged_funds(), 75);
    assert_eq!(bazaar.staged_arsenal().slots()[0].unwrap().quantity, 2);
    assert_eq!(bazaar.remove_staged(WeaponToken::Gimp), Ok(()));
    assert_eq!(bazaar.staged_funds(), 100);
    assert_eq!(bazaar.staged_arsenal().slots()[0].unwrap().quantity, 1);
    assert_eq!(bazaar.remove_staged(WeaponToken::Gimp), Err(BazaarError::NoStagedPurchase(WeaponToken::Gimp)));

    bazaar.buy(WeaponToken::FlipOut).unwrap();
    let commit = bazaar.commit();
    assert_eq!(commit.funds, 85);
    assert_eq!(commit.arsenal.slots()[1].unwrap().token, WeaponToken::FlipOut);
}

#[test]
fn bazaar_captures_carter_prices_at_entry() {
    let mut bazaar = Bazaar::new(Arsenal::new(), 100, true);

    assert!(bazaar.carter_prices());
    assert_eq!(bazaar.price(WeaponToken::Gimp), 50);
    assert_eq!(bazaar.buy(WeaponToken::Gimp), Ok(0));
    assert_eq!(bazaar.staged_funds(), 50);
}

#[test]
fn bazaar_refuses_purchases_beyond_staged_funds() {
    let mut bazaar = Bazaar::new(Arsenal::new(), 20, false);
    assert_eq!(bazaar.buy(WeaponToken::Gimp), Err(BazaarError::InsufficientFunds { available: 20, required: 25 }));
    assert_eq!(bazaar.staged_funds(), 20);
}

#[test]
fn buying_then_removing_restores_funds_and_arsenal() {
    let mut bazaar = Bazaar::new(Arsenal::new(), 1000, false);
    let before = *bazaar.staged_arsenal();
    bazaar.buy(WeaponToken::Mirror).unwrap();
    bazaar.remove_staged(WeaponToken::Mirror).unwrap();
    assert_eq!(bazaar.staged_funds(), 1000);
    assert_eq!(*bazaar.staged_arsenal(), before);
}

#[test]
fn timed_effects_count_down_by_line_clears() {
    let mut effects = ActiveEffects::new();
    let lines = effects.activate(WeaponToken::Mirror);
    assert_eq!(lines, 10);
    assert!(effects.is_active(WeaponToken::Mirror));
    assert_eq!(effects.observe_line_clear(4), Vec::<WeaponToken>::new());
    assert_eq!(effects.remaining_lines(WeaponToken::Mirror), 6);
    assert_eq!(effects.observe_line_clear(6), vec![WeaponToken::Mirror]);
    assert!(!effects.is_active(WeaponToken::Mirror));
}
