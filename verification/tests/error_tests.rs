use ep_rs::error::SimError;
use ep_rs::state::{EnvironmentState, SimulationFlags};

#[test]
fn error_constructors_keep_context() {
    match SimError::input("Zone", "Office", "bad area") {
        SimError::InputError { object_type, object_name, message } => {
            assert_eq!(object_type, "Zone");
            assert_eq!(object_name, "Office");
            assert_eq!(message, "bad area");
        }
        other => panic!("unexpected {:?}", other),
    }
    match SimError::convergence("HVAC", "no convergence", 20) {
        SimError::ConvergenceError { solver, message, iterations } => {
            assert_eq!(solver, "HVAC");
            assert_eq!(message, "no convergence");
            assert_eq!(iterations, 20);
        }
        other => panic!("unexpected {:?}", other),
    }
}

#[test]
fn environment_and_flags_defaults() {
    let env = EnvironmentState::default();
    assert!(env.current_type.is_none());
    assert_eq!(env.name, "");
    assert_eq!(env.total_days, 0);
    assert_eq!(env.current_day, 0);
    let flags = SimulationFlags::default();
    assert!(!flags.warmup && !flags.sizing && !flags.hvac_converged);
}

fn read_config(path_exists: bool) -> Result<u32, SimError> {
    if !path_exists {
        Err(std::io::Error::new(std::io::ErrorKind::NotFound, "missing"))?;
    }
    let v: u32 = serde_json::from_str("7")?;
    Ok(v)
}

#[test]
fn outside_errors_convert_with_question_mark() {
    match read_config(false) {
        Err(SimError::IoError(e)) => assert_eq!(e.kind(), std::io::ErrorKind::NotFound),
        other => panic!("unexpected {:?}", other),
    }
    assert_eq!(read_config(true).unwrap(), 7);
    let bad: Result<u32, SimError> = serde_json::from_str::<u32>("not json").map_err(SimError::from);
    assert!(matches!(bad, Err(SimError::JsonError(_))));
}
