use ep_rs::tariff::{month_slot, season_matches, RatePeriod, Season};

#[test]
fn seasonal_charges_apply_in_their_season() {
    assert!(season_matches(None, Season::Summer));
    assert!(season_matches(Some(Season::Annual), Season::Winter));
    assert!(season_matches(Some(Season::Summer), Season::Summer));
    assert!(!season_matches(Some(Season::Summer), Season::Winter));
    assert!(!season_matches(Some(Season::Winter), Season::Annual));
}

#[test]
fn period_slots_and_default_season() {
    assert_eq!(RatePeriod::Peak.index(), 0);
    assert_eq!(RatePeriod::Shoulder.index(), 1);
    assert_eq!(RatePeriod::OffPeak.index(), 2);
    assert_eq!(RatePeriod::MidPeak.index(), 3);
    assert_eq!(Season::default(), Season::Annual);
}

#[test]
fn month_slots() {
    assert_eq!(month_slot(0), None);
    assert_eq!(month_slot(1), Some(0));
    assert_eq!(month_slot(12), Some(11));
    assert_eq!(month_slot(13), None);
}
