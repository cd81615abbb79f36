use ep_rs::airflow::{vent_mode_for, HybridVentMode};
use ep_rs::comfort::{zone_for, ComfortZone};

#[test]
fn vent_mode_table() {
    assert_eq!(vent_mode_for(true, true), HybridVentMode::Hybrid);
    assert_eq!(vent_mode_for(true, false), HybridVentMode::Natural);
    assert_eq!(vent_mode_for(false, true), HybridVentMode::Mechanical);
    assert_eq!(vent_mode_for(false, false), HybridVentMode::Natural);
}

#[test]
fn comfort_zone_table() {
    assert_eq!(zone_for(false, true, true), ComfortZone::OutOfRange);
    assert_eq!(zone_for(true, true, true), ComfortZone::Both);
    assert_eq!(zone_for(true, true, false), ComfortZone::Winter);
    assert_eq!(zone_for(true, false, true), ComfortZone::Summer);
    assert_eq!(zone_for(true, false, false), ComfortZone::OutOfRange);
}
