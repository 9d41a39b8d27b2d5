use std::cell::RefCell;
use std::rc::Rc;

use inkview::DispatchBridge;
use inkview::Event;
use inkview::EventHandler;
use inkview::NO_HANDLER_RESULT;
use inkview::UNKNOWN_EVENT_RESULT;

/// A handler that records every invocation it receives and answers with
/// the sum of the two parameters.
struct Recorder {
    id: i32,
    log: Rc<RefCell<Vec<(i32, i32, i32, i32)>>>,
}

impl EventHandler for Recorder {
    fn handle_event(&mut self, event: Event, par1: i32, par2: i32) -> i32 {
        self.log.borrow_mut().push((self.id, event.code(), par1, par2));
        par1 + par2
    }
}

#[test]
fn no_handler_yields_sentinel_for_any_code() {
    let mut bridge: DispatchBridge<Recorder> = DispatchBridge::new();
    assert_eq!(bridge.dispatch(23, 1, 2), NO_HANDLER_RESULT);
    assert_eq!(bridge.dispatch(9999, 1, 2), NO_HANDLER_RESULT);
    assert_eq!(bridge.dispatch(-5, 0, 0), NO_HANDLER_RESULT);
}

#[test]
fn unknown_event_yields_sentinel_and_skips_handler() {
    let log = Rc::new(RefCell::new(Vec::new()));
    let mut bridge = DispatchBridge::new();
    bridge.register(Recorder { id: 1, log: Rc::clone(&log) });
    assert_eq!(bridge.dispatch(9999, 1, 2), UNKNOWN_EVENT_RESULT);
    assert_eq!(bridge.dispatch(0, 1, 2), UNKNOWN_EVENT_RESULT);
    assert!(log.borrow().is_empty());
}

#[test]
fn known_event_reaches_handler_and_result_is_verbatim() {
    let log = Rc::new(RefCell::new(Vec::new()));
    let mut bridge = DispatchBridge::new();
    bridge.register(Recorder { id: 1, log: Rc::clone(&log) });
    assert_eq!(bridge.dispatch(23, 40, 2), 42);
    assert_eq!(log.borrow().as_slice(), &[(1, 23, 40, 2)]);
}

#[test]
fn sentinels_are_distinct() {
    assert_ne!(NO_HANDLER_RESULT, UNKNOWN_EVENT_RESULT);
}

#[test]
fn second_registration_replaces_first_handler() {
    let log = Rc::new(RefCell::new(Vec::new()));
    let mut bridge = DispatchBridge::new();
    bridge.register(Recorder { id: 1, log: Rc::clone(&log) });
    assert_eq!(bridge.dispatch(22, 1, 1), 2);
    bridge.register(Recorder { id: 2, log: Rc::clone(&log) });
    assert_eq!(bridge.dispatch(23, 3, 4), 7);
    assert_eq!(bridge.dispatch(24, 5, 6), 11);
    // Only the second handler received events after re-registration.
    assert_eq!(log.borrow().as_slice(), &[(1, 22, 1, 1), (2, 23, 3, 4), (2, 24, 5, 6)]);
}
