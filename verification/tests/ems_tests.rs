use ep_rs::ems::actuator::{Actuator, ActuatorState};
use ep_rs::ems::manager::EmsManager;
use ep_rs::ems::program::{
    programs_to_run, ErlAction, ErlExecution, ErlExpression, ErlInstruction, ErlKeyword, ErlOp,
    ErlProgram, ProgramManager, MAX_WHILE_ITERATIONS,
};
use ep_rs::ems::sensor::Sensor;
use ep_rs::ems::trend::TrendVariable;
use ep_rs::ems::variable::{ErlValue, VariableManager};
use ep_rs::plugin::CallingPoint;

fn inst(keyword: ErlKeyword, arg1: usize, arg2: usize) -> ErlInstruction {
    ErlInstruction { keyword, arg1, arg2 }
}

/// Runs `prog`, answering each test with the next entry of `outcomes` and
/// recording the (variable, expression) pairs of the assignments made.
fn trace(prog: &ErlProgram<f64>, outcomes: &[bool]) -> (Vec<(usize, usize)>, ErlExecution) {
    let mut st = ErlExecution::start();
    let mut assigns = Vec::new();
    let mut k = 0;
    loop {
        match prog.action(&st) {
            ErlAction::Finished => break,
            ErlAction::Assign { variable, expression } => {
                assigns.push((variable, expression));
                st = prog.step(st, false);
            }
            ErlAction::Test { .. } => {
                let c = outcomes[k];
                k += 1;
                st = prog.step(st, c);
            }
            ErlAction::Proceed => st = prog.step(st, false),
        }
    }
    (assigns, st)
}

#[test]
fn user_variable_lifecycle() {
    let mut vm: VariableManager<f64> = VariableManager::default();
    let idx = vm.add("my_var", false);
    assert!(!vm.is_initialized(idx));

    vm.set(idx, ErlValue::Number(3.14));
    assert!(vm.is_initialized(idx));
    assert!((vm.get(idx).unwrap().as_number() - 3.14).abs() < 1e-10);
}

#[test]
fn case_insensitive_find() {
    let mut vm: VariableManager<f64> = VariableManager::default();
    vm.add("MyVariable", false);
    assert!(vm.find("myvariable").is_some());
    assert!(vm.find("MYVARIABLE").is_some());
}

#[test]
fn erl_value_null_as_number() {
    let val: ErlValue<f64> = ErlValue::Null;
    assert!((val.as_number() - 0.0).abs() < 1e-15);
}

#[test]
fn erl_value_error_as_number() {
    let val: ErlValue<f64> = ErlValue::Error("some error".into());
    assert!((val.as_number() - 0.0).abs() < 1e-15);
}

#[test]
fn variable_manager_find_nonexistent() {
    let vm: VariableManager<f64> = VariableManager::default();
    assert!(vm.find("nonexistent").is_none());
}

#[test]
fn readonly_variables_are_protected() {
    let mut vm: VariableManager<f64> = VariableManager::default();
    vm.add_readonly("PI", ErlValue::Number(std::f64::consts::PI));
    let pi_idx = vm.find("pi").unwrap();
    vm.set(pi_idx, ErlValue::Number(99.0));
    assert!((vm.get(pi_idx).unwrap().as_number() - std::f64::consts::PI).abs() < 1e-15);
    assert!(vm.is_initialized(pi_idx));
    // Out-of-range writes are ignored too.
    vm.set(5, ErlValue::Number(1.0));
    assert_eq!(vm.count(), 1);
    assert!(vm.get(5).is_none());
}

#[test]
fn find_returns_first_match_and_ignores_only_ascii_case() {
    let mut vm: VariableManager<f64> = VariableManager::default();
    vm.add("Temp", false);
    vm.add("TEMP", false);
    vm.add("Straße", false);
    assert_eq!(vm.find("temp"), Some(0));
    assert_eq!(vm.find("straße"), Some(2));
    // Non-ASCII letters are compared exactly.
    assert_eq!(vm.find("STRASSE"), None);
    assert_eq!(vm.find("tem"), None);
}

#[test]
fn erl_value_kinds() {
    let n: ErlValue<f64> = ErlValue::Number(2.0);
    assert!(!n.is_null() && !n.is_error());
    assert!((n.as_number() - 2.0).abs() < 1e-15);
    let d: ErlValue<f64> = ErlValue::default();
    assert!(d.is_null());
}

#[test]
fn actuator_lifecycle() {
    let mut act: Actuator<f64> = Actuator::new("Act1", "Lights", "Electricity Rate");
    assert!(!act.is_active);
    assert!(act.overridden_value().is_none());

    act.activate(500.0);
    assert!(act.is_active);
    assert!((act.overridden_value().unwrap() - 500.0).abs() < 1e-10);

    act.deactivate();
    assert!(!act.is_active);
    assert!(act.overridden_value().is_none());
}

#[test]
fn actuator_activate_deactivate_cycle() {
    let mut act: Actuator<f64> = Actuator::new("CycleAct", "Coil", "Heating Rate");

    assert!(!act.is_active);
    assert!(matches!(act.state, ActuatorState::Normal));

    act.activate(100.0);
    assert!(act.is_active);
    assert!((act.overridden_value().unwrap() - 100.0).abs() < 1e-10);

    act.deactivate();
    assert!(!act.is_active);
    assert!(act.overridden_value().is_none());

    act.activate(200.0);
    assert!(act.is_active);
    assert!((act.overridden_value().unwrap() - 200.0).abs() < 1e-10);

    act.deactivate();
    assert!(!act.is_active);
    assert!(matches!(act.state, ActuatorState::Normal));
}

#[test]
fn sensor_creation() {
    let sensor: Sensor<f64> = Sensor::new("MySensor", "Zone Mean Air Temperature", "Zone1");
    assert_eq!(sensor.name, "MySensor");
    assert!((sensor.current_value).abs() < 1e-10);
}

#[test]
fn sensor_update() {
    let mut sensor: Sensor<f64> = Sensor::new("T", "Temperature", "Zone1");
    sensor.update(23.5);
    assert!((sensor.current_value - 23.5).abs() < 1e-10);
}

#[test]
fn trend_push_and_read() {
    let mut trend: TrendVariable<f64> = TrendVariable::new("T1", 5);
    trend.push(10.0);
    trend.push(20.0);
    trend.push(30.0);

    assert!((trend.value_at(0).unwrap() - 30.0).abs() < 1e-10);
    assert!((trend.value_at(1).unwrap() - 20.0).abs() < 1e-10);
    assert!((trend.value_at(2).unwrap() - 10.0).abs() < 1e-10);
    assert!(trend.value_at(3).is_none());
}

#[test]
fn trend_overflow() {
    let mut trend: TrendVariable<f64> = TrendVariable::new("T", 3);
    trend.push(1.0);
    trend.push(2.0);
    trend.push(3.0);
    trend.push(4.0); // Oldest (1.0) dropped

    assert!((trend.value_at(0).unwrap() - 4.0).abs() < 1e-10);
    assert!((trend.value_at(2).unwrap() - 2.0).abs() < 1e-10);
    assert!(trend.value_at(3).is_none());
}

#[test]
fn trend_zero_depth_keeps_nothing() {
    let mut trend: TrendVariable<f64> = TrendVariable::new("T", 0);
    trend.push(1.0);
    assert!(trend.value_at(0).is_none());
    assert_eq!(trend.source_variable(), None);
}

#[test]
fn set_program_assigns_once() {
    let mut prog: ErlProgram<f64> = ErlProgram::new("TestProg");
    let lit = prog.add_literal(42.0);
    assert_eq!(lit, 0);
    let e = prog.add_expression(ErlExpression { op: ErlOp::Literal(lit), operands: vec![] });
    assert_eq!(e, 0);
    prog.instructions.push(inst(ErlKeyword::SetValue, 7, e));
    let (assigns, st) = trace(&prog, &[]);
    assert_eq!(assigns, vec![(7, 0)]);
    assert_eq!(st.pc, 1);
    assert!(!st.halted);
}

#[test]
fn if_else_control_flow() {
    // 0: IF c (false -> 3); 1: SET r=a; 2: GOTO 5; 3: ELSE; 4: SET r=b; 5: ENDIF
    let mut prog: ErlProgram<f64> = ErlProgram::new("IfElse");
    prog.instructions.push(inst(ErlKeyword::If, 3, 10));
    prog.instructions.push(inst(ErlKeyword::SetValue, 1, 11));
    prog.instructions.push(inst(ErlKeyword::Goto, 5, 0));
    prog.instructions.push(inst(ErlKeyword::Else, 0, 0));
    prog.instructions.push(inst(ErlKeyword::SetValue, 1, 12));
    prog.instructions.push(inst(ErlKeyword::EndIf, 0, 0));
    assert_eq!(trace(&prog, &[true]).0, vec![(1, 11)]);
    assert_eq!(trace(&prog, &[false]).0, vec![(1, 12)]);
}

#[test]
fn elseif_chain_takes_second_branch() {
    let mut prog: ErlProgram<f64> = ErlProgram::new("ElseIfChain");
    prog.instructions.push(inst(ErlKeyword::If, 3, 0));
    prog.instructions.push(inst(ErlKeyword::SetValue, 1, 1));
    prog.instructions.push(inst(ErlKeyword::Goto, 8, 0));
    prog.instructions.push(inst(ErlKeyword::ElseIf, 6, 2));
    prog.instructions.push(inst(ErlKeyword::SetValue, 1, 3));
    prog.instructions.push(inst(ErlKeyword::Goto, 8, 0));
    prog.instructions.push(inst(ErlKeyword::Else, 0, 0));
    prog.instructions.push(inst(ErlKeyword::SetValue, 1, 4));
    prog.instructions.push(inst(ErlKeyword::EndIf, 0, 0));
    assert_eq!(trace(&prog, &[false, true]).0, vec![(1, 3)]);
    assert_eq!(trace(&prog, &[false, false]).0, vec![(1, 4)]);
}

#[test]
fn while_loop_runs_body_until_condition_fails() {
    // 0: WHILE c (false -> 4); 1: SET; 2: SET; 3: ENDWHILE -> 0
    let mut prog: ErlProgram<f64> = ErlProgram::new("WhileLoop");
    prog.instructions.push(inst(ErlKeyword::While, 4, 0));
    prog.instructions.push(inst(ErlKeyword::SetValue, 1, 1));
    prog.instructions.push(inst(ErlKeyword::SetValue, 0, 2));
    prog.instructions.push(inst(ErlKeyword::EndWhile, 0, 0));
    let (assigns, st) = trace(&prog, &[true, true, true, false]);
    assert_eq!(assigns.len(), 6);
    assert_eq!(st.while_checks, 4);
    assert_eq!(st.pc, 4);
}

#[test]
fn while_zero_iterations() {
    let mut prog: ErlProgram<f64> = ErlProgram::new("WhileZero");
    prog.instructions.push(inst(ErlKeyword::While, 3, 0));
    prog.instructions.push(inst(ErlKeyword::SetValue, 0, 1));
    prog.instructions.push(inst(ErlKeyword::EndWhile, 0, 0));
    let (assigns, _) = trace(&prog, &[false]);
    assert!(assigns.is_empty());
}

#[test]
fn while_max_iterations_safety() {
    let mut prog: ErlProgram<f64> = ErlProgram::new("InfiniteWhile");
    prog.instructions.push(inst(ErlKeyword::While, 3, 0));
    prog.instructions.push(inst(ErlKeyword::SetValue, 0, 1));
    prog.instructions.push(inst(ErlKeyword::EndWhile, 0, 0));
    let mut st = ErlExecution::start();
    let mut body = 0u64;
    loop {
        match prog.action(&st) {
            ErlAction::Finished => break,
            ErlAction::Assign { .. } => {
                body += 1;
                st = prog.step(st, false);
            }
            ErlAction::Test { .. } => st = prog.step(st, true),
            ErlAction::Proceed => st = prog.step(st, false),
        }
    }
    assert!(st.halted);
    assert_eq!(st.while_checks, MAX_WHILE_ITERATIONS + 1);
    assert_eq!(body, MAX_WHILE_ITERATIONS as u64);
}

#[test]
fn return_early() {
    let mut prog: ErlProgram<f64> = ErlProgram::new("ReturnEarly");
    prog.instructions.push(inst(ErlKeyword::SetValue, 0, 0));
    prog.instructions.push(inst(ErlKeyword::Return, 0, 0));
    prog.instructions.push(inst(ErlKeyword::SetValue, 1, 1));
    let (assigns, st) = trace(&prog, &[]);
    assert_eq!(assigns, vec![(0, 0)]);
    assert!(st.halted);
    // A finished run stays where it is.
    assert_eq!(prog.step(st, true), st);
}

#[test]
fn goto_instruction() {
    let mut prog: ErlProgram<f64> = ErlProgram::new("GotoProg");
    prog.instructions.push(inst(ErlKeyword::SetValue, 0, 0));
    prog.instructions.push(inst(ErlKeyword::Goto, 3, 0));
    prog.instructions.push(inst(ErlKeyword::SetValue, 1, 1));
    let (assigns, st) = trace(&prog, &[]);
    assert_eq!(assigns, vec![(0, 0)]);
    assert_eq!(st.pc, 3);
}

#[test]
fn nested_if_skips_inner_body() {
    let mut prog: ErlProgram<f64> = ErlProgram::new("NestedIf");
    prog.instructions.push(inst(ErlKeyword::If, 4, 0));
    prog.instructions.push(inst(ErlKeyword::If, 3, 1));
    prog.instructions.push(inst(ErlKeyword::SetValue, 2, 2));
    prog.instructions.push(inst(ErlKeyword::EndIf, 0, 0));
    prog.instructions.push(inst(ErlKeyword::EndIf, 0, 0));
    assert_eq!(trace(&prog, &[true, true]).0, vec![(2, 2)]);
    assert!(trace(&prog, &[true, false]).0.is_empty());
    assert!(trace(&prog, &[false]).0.is_empty());
}

#[test]
fn run_is_skipped() {
    let mut prog: ErlProgram<f64> = ErlProgram::new("Run");
    prog.instructions.push(inst(ErlKeyword::Run, 9, 0));
    prog.instructions.push(inst(ErlKeyword::SetValue, 1, 0));
    assert_eq!(prog.action(&ErlExecution::start()), ErlAction::Proceed);
    assert_eq!(trace(&prog, &[]).0, vec![(1, 0)]);
}

#[test]
fn programs_for_calling_point() {
    let managers = vec![
        ProgramManager { name: "A".into(), calling_point: CallingPoint::BeginTimestep, program_indices: vec![0, 5, 1] },
        ProgramManager { name: "B".into(), calling_point: CallingPoint::EndTimestep, program_indices: vec![2] },
        ProgramManager { name: "C".into(), calling_point: CallingPoint::BeginTimestep, program_indices: vec![2] },
    ];
    assert_eq!(programs_to_run(&managers, CallingPoint::BeginTimestep, 3), vec![0, 1, 2]);
    assert_eq!(programs_to_run(&managers, CallingPoint::EndTimestep, 3), vec![2]);
    assert!(programs_to_run(&managers, CallingPoint::AfterHvac, 3).is_empty());
}

#[test]
fn ems_sensor_to_variable() {
    let mut mgr: EmsManager<f64> = EmsManager::default();
    let var_idx = mgr.variables.add("my_sensor_var", false);
    mgr.sensors.push(Sensor {
        name: "Zone Temp Sensor".into(),
        output_var_name: "Zone Mean Air Temperature".into(),
        key_name: "Zone1".into(),
        variable_index: Some(var_idx),
        current_value: 23.5,
    });
    mgr.load_sensors();
    let val = mgr.variables.get(var_idx).unwrap();
    assert!((val.as_number() - 23.5).abs() < 1e-10);
}

#[test]
fn ems_actuator_override() {
    let mut mgr: EmsManager<f64> = EmsManager::default();
    let var_idx = mgr.variables.add("actuator_var", false);
    mgr.variables.set(var_idx, ErlValue::Number(42.0));
    mgr.actuators.push(Actuator {
        name: "Light Override".into(),
        component_type: "Lights".into(),
        control_type: "Electricity Rate".into(),
        variable_index: Some(var_idx),
        is_active: true,
        state: ActuatorState::Normal,
    });
    mgr.apply_actuators();
    match mgr.actuators[0].state {
        ActuatorState::Overridden(v) => assert!((v - 42.0).abs() < 1e-10),
        _ => panic!("Expected overridden state"),
    }
}

#[test]
fn ems_inactive_actuator() {
    let mut mgr: EmsManager<f64> = EmsManager::default();
    let var_idx = mgr.variables.add("act_var", false);
    mgr.variables.set(var_idx, ErlValue::Number(50.0));
    mgr.actuators.push(Actuator {
        name: "InactiveAct".into(),
        component_type: "Lights".into(),
        control_type: "Electricity Rate".into(),
        variable_index: Some(var_idx),
        is_active: false,
        state: ActuatorState::Normal,
    });
    mgr.apply_actuators();
    assert!(matches!(mgr.actuators[0].state, ActuatorState::Normal));
}

#[test]
fn ems_update_trends() {
    let mut mgr: EmsManager<f64> = EmsManager::default();
    let var_idx = mgr.variables.add("trend_var", false);
    mgr.variables.set(var_idx, ErlValue::Number(77.0));
    let mut trend = TrendVariable::new("MyTrend", 5);
    trend.variable_index = Some(var_idx);
    mgr.trends.push(trend);

    mgr.update_trends();

    assert!((mgr.trends[0].value_at(0).unwrap() - 77.0).abs() < 1e-10);
}

#[test]
fn ems_programs_at_calling_point() {
    let mut mgr: EmsManager<f64> = EmsManager::default();
    mgr.programs.push(ErlProgram::new("SetA"));
    mgr.programs.push(ErlProgram::new("SetB"));
    mgr.program_managers.push(ProgramManager {
        name: "PM".into(),
        calling_point: CallingPoint::EndTimestep,
        program_indices: vec![0, 1],
    });
    assert_eq!(mgr.programs_at(CallingPoint::EndTimestep), vec![0, 1]);
    assert!(mgr.programs_at(CallingPoint::BeginTimestep).is_empty());
}

#[test]
fn trend_window_lowered_after_logging() {
    let mut t: TrendVariable<f64> = TrendVariable::new("T", 3);
    t.push(1.0);
    t.push(2.0);
    t.push(3.0);
    t.log_depth = 2;
    t.push(4.0);
    assert_eq!(t.value_at(0), Some(4.0));
    assert_eq!(t.value_at(1), Some(3.0));
    assert_eq!(t.value_at(2), Some(1.0));
    assert_eq!(t.value_at(3), None);
}
