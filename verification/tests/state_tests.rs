use onewire_core::memlog::{Level, LogStorage};
use onewire_core::state::{SharedState, State};

#[test]
fn state_starts_in_standby() {
    let state = SharedState::new_standby();
    assert_eq!(state.get(), State::Standby);
}

#[test]
fn state_walks_the_full_power_cycle() {
    let mut state = SharedState::new_standby();
    assert!(state.set_powering_on().is_ok());
    assert_eq!(state.get(), State::PoweringOn);
    assert!(state.set_display_on().is_ok());
    assert_eq!(state.get(), State::DisplayOn);
    assert!(state.set_powering_off().is_ok());
    assert_eq!(state.get(), State::PoweringOff);
    assert!(state.set_standby().is_ok());
    assert_eq!(state.get(), State::Standby);
}

#[test]
fn state_refuses_out_of_order_transitions() {
    let mut state = SharedState::new_standby();
    // From standby, only powering-on is allowed.
    assert!(state.set_display_on().is_err());
    assert!(state.set_powering_off().is_err());
    assert!(state.set_standby().is_err());
    assert_eq!(state.get(), State::Standby);

    assert!(state.set_powering_on().is_ok());
    // A repeat of the same edge is refused too.
    assert!(state.set_powering_on().is_err());
    assert_eq!(state.get(), State::PoweringOn);
}

#[test]
fn state_try_transition_reports_both_states() {
    let mut state = SharedState::new_standby();
    let error = state
        .try_transition(State::DisplayOn, State::PoweringOff)
        .unwrap_err();
    assert_eq!(error.current, State::Standby);
    assert_eq!(error.requested, State::PoweringOff);
}

#[test]
fn memlog_stores_and_returns_records_in_order() {
    let mut log = LogStorage::init(480);
    log.info(1, String::from("first"));
    log.warn(2, String::from("second"));
    let records = log.records();
    assert_eq!(records.len(), 2);
    assert_eq!(records[0].text, "first");
    assert_eq!(records[0].level, Level::Info);
    assert_eq!(records[0].timestamp_ms, 1);
    assert_eq!(records[1].text, "second");
    assert_eq!(records[1].level, Level::Warn);
}

#[test]
fn memlog_evicts_oldest_records_when_full() {
    let mut log = LogStorage::init(40);
    log.info(1, String::from("aaaaaaaaaaaaaaaaaaaa")); // 20 characters
    log.info(2, String::from("bbbbbbbbbbbbbbb")); // 15 characters
    log.info(3, String::from("cccccccccc")); // 10 characters: evicts "a..."
    let records = log.records();
    assert_eq!(records.len(), 2);
    assert_eq!(records[0].text, "bbbbbbbbbbbbbbb");
    assert_eq!(records[1].text, "cccccccccc");
}

#[test]
fn memlog_replaces_oversized_record_with_warning() {
    let mut log = LogStorage::init(40);
    log.error(5, "x".repeat(41));
    let records = log.records();
    assert_eq!(records.len(), 1);
    assert_eq!(records[0].level, Level::Warn);
    assert_eq!(records[0].text, "log discarded: too large for storage");
}

#[test]
fn memlog_clear_empties_the_storage() {
    let mut log = LogStorage::init(480);
    log.trace(1, String::from("one"));
    log.debug(2, String::from("two"));
    log.clear();
    assert!(log.records().is_empty());
    // The budget is still usable after a clear.
    log.error(3, String::from("three"));
    assert_eq!(log.records().len(), 1);
}

#[test]
fn level_labels_are_four_letters() {
    assert_eq!(Level::Trace.label(), "TRCE");
    assert_eq!(Level::Debug.label(), "DEBG");
    assert_eq!(Level::Info.label(), "INFO");
    assert_eq!(Level::Warn.label(), "WARN");
    assert_eq!(Level::Error.label(), "ERRO");
}
