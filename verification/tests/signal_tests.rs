use raft_driver::signal::check_singals;
use raft_driver::signal::PollOutcome;
use raft_driver::signal::Signal;

#[test]
fn terminate_signal_stops_the_loop() {
    assert!(check_singals(&PollOutcome::Received(Signal::Terminate)));
}

#[test]
fn empty_channel_continues_the_loop() {
    assert!(!check_singals(&PollOutcome::Empty));
}

#[test]
fn disconnected_channel_stops_the_loop() {
    assert!(check_singals(&PollOutcome::Disconnected));
}
