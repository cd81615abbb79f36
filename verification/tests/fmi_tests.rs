use ep_rs::fmi::exchange::{CoSimState, ExchangeManager, ExchangeVariable, VariableDirection};
use ep_rs::fmi::model::{FmiCausality, FmiModelDescription, FmiVariable, FmiVariability};

#[test]
fn model_description_basic() {
    let mut desc: FmiModelDescription<f64> = FmiModelDescription::new("TestModel", "abc-123");
    desc.add_variable(FmiVariable::input("zone_temp", 1).with_unit("K"));
    desc.add_variable(FmiVariable::output("heating_power", 2).with_unit("W"));
    desc.add_variable(FmiVariable::input("setpoint", 3).with_initial(293.15));

    assert_eq!(desc.inputs().len(), 2);
    assert_eq!(desc.outputs().len(), 1);
    assert!(desc.find_by_name("zone_temp").is_some());
    assert!(desc.find_by_reference(2).is_some());
}

#[test]
fn variable_builders() {
    let v: FmiVariable<f64> = FmiVariable::input("temp", 1).with_unit("C").with_initial(20.0);
    assert_eq!(v.causality, FmiCausality::Input);
    assert!((v.initial_value - 20.0).abs() < 1e-10);
    assert_eq!(v.unit, "C");
}

#[test]
fn model_description_defaults() {
    let desc: FmiModelDescription<f64> = FmiModelDescription::new("M", "g");
    assert_eq!(desc.fmi_version, "2.0");
    assert!((desc.default_step_size - 900.0).abs() < 1e-12);
    assert!(desc.find_by_name("x").is_none());
    assert!(desc.find_by_reference(1).is_none());
    let v: FmiVariable<f64> = FmiVariable::output("y", 4);
    assert_eq!(v.variability, FmiVariability::Continuous);
    assert_eq!(v.initial_value, 0.0);
}

#[test]
fn find_returns_first_in_order() {
    let mut desc: FmiModelDescription<f64> = FmiModelDescription::new("M", "g");
    desc.add_variable(FmiVariable::input("a", 7).with_initial(1.0));
    desc.add_variable(FmiVariable::output("a", 7).with_initial(2.0));
    assert_eq!(desc.find_by_name("a").unwrap().causality, FmiCausality::Input);
    assert!((desc.find_by_reference(7).unwrap().initial_value - 1.0).abs() < 1e-12);
    let outs = desc.outputs();
    assert_eq!(outs[0].causality, FmiCausality::Output);
}

#[test]
fn exchange_lifecycle() {
    let mut mgr: ExchangeManager<f64> = ExchangeManager::new();
    mgr.add_variable(ExchangeVariable::new("zone_temp", 1, VariableDirection::FromFmu, "Zone1:Temperature"));
    mgr.add_variable(ExchangeVariable::new("setpoint", 2, VariableDirection::ToFmu, "ThermostatSetpoint"));

    mgr.initialize();
    assert_eq!(mgr.state, CoSimState::Initialized);

    mgr.set_real(2, 22.0);
    assert!((mgr.get_real(2).unwrap() - 22.0).abs() < 1e-10);

    mgr.set_real(1, 23.5);
    assert!(mgr.do_step().is_ok());
    assert_eq!(mgr.state, CoSimState::Running);

    mgr.terminate();
    assert_eq!(mgr.state, CoSimState::Terminated);
}

#[test]
fn exchange_io_filtering() {
    let mut mgr: ExchangeManager<f64> = ExchangeManager::new();
    mgr.add_variable(ExchangeVariable::new("out1", 1, VariableDirection::FromFmu, "key1"));
    mgr.add_variable(ExchangeVariable::new("out2", 2, VariableDirection::FromFmu, "key2"));
    mgr.add_variable(ExchangeVariable::new("in1", 3, VariableDirection::ToFmu, "key3"));

    assert_eq!(mgr.inputs().len(), 1);
    assert_eq!(mgr.outputs().len(), 2);
}

#[test]
fn step_before_init_fails() {
    let mut mgr: ExchangeManager<f64> = ExchangeManager::new();
    let err = mgr.do_step().unwrap_err();
    assert_eq!(err, "Cannot step in state Uninitialized");
    assert_eq!(mgr.state, CoSimState::Uninitialized);
}

#[test]
fn step_after_terminate_fails() {
    let mut mgr: ExchangeManager<f64> = ExchangeManager::new();
    mgr.initialize();
    assert!(mgr.do_step().is_ok());
    mgr.terminate();
    assert_eq!(mgr.do_step().unwrap_err(), "Cannot step in state Terminated");
}

#[test]
fn multiple_steps() {
    let mut mgr: ExchangeManager<f64> = ExchangeManager::new();
    mgr.initialize();
    for _ in 0..4 {
        assert!(mgr.do_step().is_ok());
    }
    assert_eq!(mgr.state, CoSimState::Running);
}

#[test]
fn collect_outputs() {
    let mut mgr: ExchangeManager<f64> = ExchangeManager::new();
    mgr.add_variable(ExchangeVariable::new("temp", 1, VariableDirection::FromFmu, "key"));
    mgr.add_variable(ExchangeVariable::new("input", 2, VariableDirection::ToFmu, "key2"));
    mgr.initialize();
    mgr.set_real(1, 25.0);

    let outputs = mgr.collect_outputs();
    assert_eq!(outputs.len(), 1);
    assert!((outputs[&1] - 25.0).abs() < 1e-10);
}

#[test]
fn set_real_updates_variables_and_unknown_references() {
    let mut mgr: ExchangeManager<f64> = ExchangeManager::new();
    mgr.add_variable(ExchangeVariable::new("a", 1, VariableDirection::ToFmu, "k"));
    assert_eq!(mgr.get_real(9), None);
    mgr.set_real(9, 3.0);
    assert_eq!(mgr.get_real(9), Some(3.0));
    mgr.set_real(1, 4.0);
    assert_eq!(mgr.variables[0].current_value, 4.0);
    assert_eq!(mgr.get_real(1), Some(4.0));
}
