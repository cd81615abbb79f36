use ep_rs::api::{timesteps_per_hour_setting, warmup_days_setting, VariableTable};

#[test]
fn set_config_values() {
    assert_eq!(timesteps_per_hour_setting(6), 6);
    assert_eq!(warmup_days_setting(10), 10);
}

#[test]
fn config_requests_are_clamped() {
    assert_eq!(timesteps_per_hour_setting(0), 1);
    assert_eq!(timesteps_per_hour_setting(-5), 1);
    assert_eq!(timesteps_per_hour_setting(60), 60);
    assert_eq!(timesteps_per_hour_setting(61), 60);
    assert_eq!(timesteps_per_hour_setting(i32::MAX), 60);
    assert_eq!(warmup_days_setting(0), 1);
    assert_eq!(warmup_days_setting(i32::MIN), 1);
    assert_eq!(warmup_days_setting(1), 1);
}

#[test]
fn variable_registration() {
    let mut table: VariableTable<f64> = VariableTable::new();

    let idx = table.register("Zone Temperature".to_string(), "Zone1".to_string(), 0, 0.0);
    assert_eq!(idx, 0);

    // Read-only variable
    assert_eq!(table.value_of(0).unwrap_or(0.0), 0.0);
    assert_eq!(table.set_value(0, 25.0), -1); // Not writable

    // Writable variable
    let idx2 = table.register("Actuator".to_string(), "Act1".to_string(), 1, 0.0);
    assert_eq!(idx2, 1);
    assert_eq!(table.set_value(1, 42.0), 0);
    assert_eq!(table.value_of(1).unwrap_or(0.0), 42.0);
}

#[test]
fn unknown_handles_are_refused() {
    let mut table: VariableTable<f64> = VariableTable::new();
    table.register("Actuator".to_string(), "Act1".to_string(), 7, 1.5);
    assert_eq!(table.value_of(-1), None);
    assert_eq!(table.value_of(1), None);
    assert_eq!(table.set_value(-1, 2.0), -1);
    assert_eq!(table.set_value(1, 2.0), -1);
    assert_eq!(table.value_of(0), Some(1.5));
    assert_eq!(table.len(), 1);
}

#[test]
fn write_leaves_other_variables() {
    let mut table: VariableTable<i64> = VariableTable::new();
    table.register("A".to_string(), "K".to_string(), 1, 10);
    table.register("B".to_string(), "K".to_string(), 1, 20);
    assert_eq!(table.set_value(1, 99), 0);
    assert_eq!(table.value_of(0), Some(10));
    assert_eq!(table.value_of(1), Some(99));
}
