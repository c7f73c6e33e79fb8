use phtm::execution::{has_breakpoint_prefix, LoadError, PushExecutor, PushInterpreterState};

#[test]
fn step_limit_trips_after_exactly_budget_invocations() {
    let mut ex = PushExecutor::new();
    ex.initialize();
    ex.load("( EXEC.Y ( 1 INTEGER.+ ) )".to_string()).unwrap();
    ex.push_state.configuration.eval_push_limit = 1000;
    let state = ex.run();
    assert_eq!(state, PushInterpreterState::StepLimitExceeded);
    assert_eq!(ex.steps, 1001);
}

#[test]
fn negative_step_limit_trips_before_any_step() {
    let mut ex = PushExecutor::new();
    ex.initialize();
    ex.load("( 1 2 INTEGER.+ )".to_string()).unwrap();
    ex.push_state.configuration.eval_push_limit = -1;
    let state = ex.run();
    assert_eq!(state, PushInterpreterState::StepLimitExceeded);
    assert_eq!(ex.steps, 0);
}

#[test]
fn run_completes_a_terminating_program() {
    let mut ex = PushExecutor::new();
    ex.initialize();
    ex.load("( 2 3 INTEGER.* )".to_string()).unwrap();
    let state = ex.run();
    assert_eq!(state, PushInterpreterState::NoErrors);
    assert_eq!(ex.push_state.int_stack.to_string(), "6");
    // unpack, 2, 3, INTEGER.*, and the final call that finds the stack empty
    assert_eq!(ex.steps, 5);
}

#[test]
fn growth_cap_trips_on_the_first_expanding_step() {
    let mut ex = PushExecutor::new();
    ex.initialize();
    ex.load("( 1 2 3 4 5 )".to_string()).unwrap();
    ex.push_state.configuration.growth_cap = 2;
    let state = ex.run();
    assert_eq!(state, PushInterpreterState::GrowthCapExceeded);
    assert_eq!(ex.steps, 1);
}

#[test]
fn time_limit_trips_on_a_long_run() {
    let mut ex = PushExecutor::new();
    ex.initialize();
    ex.load("( EXEC.Y ( 1 INTEGER.+ ) )".to_string()).unwrap();
    ex.push_state.configuration.eval_push_limit = i32::MAX;
    ex.push_state.configuration.eval_time_limit = 1;
    let state = ex.run();
    assert_eq!(state, PushInterpreterState::TimeLimitExceeded);
}

#[test]
fn step_until_stops_at_the_marker_and_records_passed_markers() {
    let mut ex = PushExecutor::new();
    ex.initialize();
    ex.load("( BP0 1 2 INTEGER.+ BP1 3 INTEGER.+ )".to_string()).unwrap();
    ex.step_until("BP1".to_string());
    let next = ex.push_state.exec_stack.get(0).map(|i| i.to_string());
    assert_eq!(next, Some("BP1".to_string()));
    let names: Vec<String> = ex.breakpoints.iter().map(|b| b.name.clone()).collect();
    assert_eq!(names, vec!["BP0".to_string(), "BP1".to_string()]);
}

#[test]
fn step_until_returns_on_natural_termination() {
    let mut ex = PushExecutor::new();
    ex.initialize();
    ex.load("( 1 2 INTEGER.+ )".to_string()).unwrap();
    ex.step_until("NOSUCHMARKER".to_string());
    assert!(ex.push_state.exec_stack.get(0).is_none());
    assert_eq!(ex.push_state.int_stack.to_string(), "3");
    assert!(ex.breakpoints.is_empty());
}

#[test]
fn single_steps_advance_one_instruction_each() {
    let mut ex = PushExecutor::new();
    ex.initialize();
    ex.load("( 1 2 INTEGER.+ )".to_string()).unwrap();
    assert!(!ex.step()); // unpack the list
    assert!(!ex.step()); // 1
    assert!(!ex.step()); // 2
    assert!(!ex.step()); // INTEGER.+
    assert_eq!(ex.push_state.int_stack.to_string(), "3");
    assert!(ex.step()); // stack is empty now
}

#[test]
fn inject_enqueues_one_input_message() {
    let mut ex = PushExecutor::new();
    ex.inject(vec![true, false, true]);
    assert_eq!(ex.push_state.input_stack.size(), 1);
}

#[test]
fn breakpoint_prefix_is_the_reserved_marker_prefix() {
    assert!(has_breakpoint_prefix("BP0"));
    assert!(has_breakpoint_prefix("BP"));
    assert!(!has_breakpoint_prefix("B"));
    assert!(!has_breakpoint_prefix("XBP0"));
    assert!(!has_breakpoint_prefix(""));
    assert!(!has_breakpoint_prefix("bp0"));
}

#[test]
fn malformed_program_text_fails_the_load_call() {
    let mut ex = PushExecutor::new();
    ex.initialize();
    // an opened vector bracket with nothing behind it
    assert_eq!(
        ex.load("( INT[ )".to_string()),
        Err(LoadError::MalformedProgram)
    );
    // a closing parenthesis before any opening one
    assert_eq!(
        ex.load(") (".to_string()),
        Err(LoadError::MalformedProgram)
    );
    // sound text loads
    assert!(ex.load("( INT[2,3,4] INTVECTOR.LOOP ( INTEGER.+ ) )".to_string()).is_ok());
}

#[test]
fn breakpoint_records_name_and_duration() {
    let bp = phtm::execution::Breakpoint::new(
        "BP2".to_string(),
        std::time::Duration::from_millis(5),
    );
    assert_eq!(bp.name, "BP2");
    assert_eq!(bp.duration, std::time::Duration::from_millis(5));
}

#[test]
fn run_bounded_applies_explicit_guards() {
    let mut ex = PushExecutor::new();
    ex.initialize();
    ex.load("( EXEC.Y ( 1 INTEGER.+ ) )".to_string()).unwrap();
    let state = ex.run_bounded(10, 5000, 500);
    assert_eq!(state, PushInterpreterState::StepLimitExceeded);
    assert_eq!(ex.steps, 11);
    let state = ex.run_bounded(-5, 5000, 500);
    assert_eq!(state, PushInterpreterState::StepLimitExceeded);
    assert_eq!(ex.steps, 0);
}
