use phtm::control::{AppReturn, Event, State};

#[test]
fn waiting_plus_nothing_waits_one_tick_longer() {
    let s = State::Waiting { waiting_time: 3 };
    let s = s.next(Event::NothingHappened);
    assert_eq!(s, State::Waiting { waiting_time: 4 });
    let s = s.next(Event::NothingHappened);
    assert_eq!(s, State::Waiting { waiting_time: 5 });
}

#[test]
fn any_other_pair_fails_and_names_the_pair() {
    let s = State::Computing.next(Event::NothingHappened);
    assert_eq!(
        s,
        State::Failure("wrong state, event combination: Computing NothingHappened".to_string())
    );
    let s = State::Waiting { waiting_time: 0 }.next(Event::TemporalMemoryInitialized);
    assert_eq!(
        s,
        State::Failure(
            "wrong state, event combination: Waiting TemporalMemoryInitialized".to_string()
        )
    );
    let s = State::Done.next(Event::TemporalMemoryInitialized);
    assert!(matches!(s, State::Failure(_)));
}

#[test]
fn app_return_distinguishes_exit_from_continue() {
    assert_ne!(AppReturn::Exit, AppReturn::Continue);
    assert_eq!(AppReturn::Continue, AppReturn::Continue);
}
