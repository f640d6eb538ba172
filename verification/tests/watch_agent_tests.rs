use plonk::agent::{AgentEvent, AgentSession, AgentState};
use plonk::options::Options;
use plonk::watch::{count_batches, suppress_watch, WatchPump};

#[test]
fn two_writes_within_window_make_one_batch() {
    // Two file writes 10 ms apart, then quiet: one debounced batch, so the
    // loop runs the initial iteration plus exactly one more.
    let times: Vec<u64> = vec![0, 10];
    assert_eq!(count_batches(&times, 100), 1);
    let mut pump = WatchPump::new();
    pump.start();
    for _ in 0..count_batches(&times, 100) {
        pump.on_batch();
    }
    assert_eq!(pump.iterations, 2);
}

#[test]
fn gap_beyond_window_makes_two_batches() {
    let times: Vec<u64> = vec![0, 10, 400];
    assert_eq!(count_batches(&times, 100), 2);
}

#[test]
fn empty_and_single_event_batches() {
    let none: Vec<u64> = vec![];
    assert_eq!(count_batches(&none, 100), 0);
    let one: Vec<u64> = vec![7];
    assert_eq!(count_batches(&one, 100), 1);
}

#[test]
fn boundary_gap_equal_to_window_coalesces() {
    let times: Vec<u64> = vec![0, 100];
    assert_eq!(count_batches(&times, 100), 1);
}

#[test]
fn watch_flag_is_suppressed_before_looping() {
    let mut o = Options {
        verbose: true,
        package: b"pkg".to_vec(),
        bin: None,
        release: false,
        symbol: Some(b"greet".to_vec()),
        watch: true,
        forward: vec![b"a".to_vec()],
    };
    suppress_watch(&mut o);
    assert!(!o.watch);
    assert!(o.verbose);
    assert_eq!(o.package, b"pkg".to_vec());
    assert_eq!(o.symbol, Some(b"greet".to_vec()));
    assert_eq!(o.forward, vec![b"a".to_vec()]);
}

#[test]
fn agent_redirects_exactly_once_on_success() {
    let mut s = AgentSession::new();
    assert_eq!(s.state, AgentState::Loaded);
    s.step(AgentEvent::Configure);
    assert_eq!(s.state, AgentState::Configured);
    s.step(AgentEvent::InstallOk);
    assert_eq!(s.state, AgentState::Redirected);
    assert_eq!(s.redirects, 1);
    // The redirected state is terminal: further events change nothing.
    s.step(AgentEvent::InstallOk);
    s.step(AgentEvent::Configure);
    assert_eq!(s.state, AgentState::Redirected);
    assert_eq!(s.redirects, 1);
}

#[test]
fn agent_failure_installs_nothing() {
    let mut s = AgentSession::new();
    s.step(AgentEvent::Configure);
    s.step(AgentEvent::InstallFail);
    assert_eq!(s.state, AgentState::Failed);
    assert_eq!(s.redirects, 0);
    s.step(AgentEvent::InstallOk);
    assert_eq!(s.state, AgentState::Failed);
    assert_eq!(s.redirects, 0);
}

#[test]
fn agent_cannot_install_before_configuring() {
    let mut s = AgentSession::new();
    s.step(AgentEvent::InstallOk);
    assert_eq!(s.state, AgentState::Loaded);
    assert_eq!(s.redirects, 0);
}
