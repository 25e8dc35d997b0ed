use nrf52_radio_rs::supervisor::{step, Action, Fault, Signal, State};

#[test]
fn idle_starts_advertising() {
    assert_eq!(step(State::Idle, Signal::Proceed, true), (State::Advertising, Action::Advertise));
}

#[test]
fn attach_starts_serving() {
    assert_eq!(
        step(State::Advertising, Signal::PeerAttached { connection: 5 }, true),
        (State::Connected { connection: 5 }, Action::Serve { connection: 5, navigation: true })
    );
    assert_eq!(
        step(State::Advertising, Signal::PeerAttached { connection: 5 }, false),
        (State::Connected { connection: 5 }, Action::Serve { connection: 5, navigation: false })
    );
}

#[test]
fn disconnect_mid_framing_resumes_advertising() {
    let connected = State::Connected { connection: 9 };
    let (state, action) = step(connected, Signal::PeerDisconnected { reason: 0x13 }, true);
    assert_eq!(state, State::Idle);
    assert_eq!(action, Action::Release { connection: 9 });
    let (state, action) = step(state, Signal::Proceed, true);
    assert_eq!(state, State::Advertising);
    assert_eq!(action, Action::Advertise);
}

#[test]
fn pipeline_end_resumes_advertising() {
    let connected = State::Connected { connection: 2 };
    let (state, action) = step(connected, Signal::PipelineEnded, true);
    assert_eq!((state, action), (State::Idle, Action::Release { connection: 2 }));
    assert_eq!(step(state, Signal::PipelineEnded, true), (State::Advertising, Action::Advertise));
}

#[test]
fn signals_without_meaning_change_nothing() {
    assert_eq!(
        step(State::Advertising, Signal::PeerDisconnected { reason: 1 }, true),
        (State::Advertising, Action::Wait)
    );
    assert_eq!(step(State::Advertising, Signal::Proceed, true), (State::Advertising, Action::Wait));
    let connected = State::Connected { connection: 1 };
    assert_eq!(step(connected, Signal::Proceed, true), (connected, Action::Wait));
    assert_eq!(
        step(connected, Signal::PeerAttached { connection: 2 }, true),
        (connected, Action::Wait)
    );
}

#[test]
fn fault_is_fatal_from_every_state() {
    let fault = Fault::Advertising;
    for state in [State::Idle, State::Advertising, State::Connected { connection: 1 }] {
        assert_eq!(step(state, Signal::Failed(fault), true), (State::Fatal(fault), Action::Halt(fault)));
    }
}

#[test]
fn fatal_is_absorbing_and_keeps_the_first_fault() {
    let state = State::Fatal(Fault::LinkRunner);
    for signal in [
        Signal::Proceed,
        Signal::PeerAttached { connection: 1 },
        Signal::PeerDisconnected { reason: 0 },
        Signal::PipelineEnded,
        Signal::Failed(Fault::AttributeTable),
    ] {
        assert_eq!(step(state, signal, false), (state, Action::Halt(Fault::LinkRunner)));
    }
}

#[test]
fn many_epochs_in_a_row() {
    let mut state = State::Idle;
    for connection in 0..50u16 {
        let (next, action) = step(state, Signal::Proceed, true);
        assert_eq!(action, Action::Advertise);
        let (next, action) = step(next, Signal::PeerAttached { connection }, true);
        assert_eq!(action, Action::Serve { connection, navigation: true });
        let (next, action) = step(next, Signal::PeerDisconnected { reason: 0x13 }, true);
        assert_eq!(action, Action::Release { connection });
        assert_eq!(next, State::Idle);
        state = next;
    }
}
