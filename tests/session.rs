use plotstream::session::{handle_input, handle_timeout, Action, Event, Frame, Session};

fn sent(a: &Action) -> bool {
    matches!(a, Action::Send(_))
}

#[test]
fn quiet_session_sends_the_demo_payload_each_tick() {
    let mut s = Session::new();
    let expected = handle_timeout().points;
    assert_eq!(expected.len(), 8);
    for _ in 0..5 {
        match s.step(Event::Timer) {
            Action::Send(p) => assert_eq!(p.points, expected),
            other => panic!("expected a frame, got {:?}", other),
        }
    }
    assert!(s.is_open());
}

#[test]
fn client_frames_send_nothing() {
    let mut s = Session::new();
    for f in [Frame::Text, Frame::Binary, Frame::Ping, Frame::Pong] {
        assert!(handle_input(f));
        assert!(matches!(s.step(Event::Inbound(f)), Action::Idle));
        assert!(s.is_open());
    }
    assert!(!handle_input(Frame::Close));
}

#[test]
fn close_releases_once_and_silences_the_session() {
    let mut s = Session::new();
    assert!(sent(&s.step(Event::Timer)));
    assert!(matches!(s.step(Event::Inbound(Frame::Close)), Action::Release));
    assert!(!s.is_open());
    assert!(matches!(s.step(Event::Inbound(Frame::Close)), Action::Idle));
    assert!(matches!(s.step(Event::Timer), Action::Idle));
    assert!(matches!(s.step(Event::Ended), Action::Idle));
}

#[test]
fn channel_end_releases() {
    let mut s = Session::new();
    assert!(matches!(s.step(Event::Ended), Action::Release));
    assert!(!s.is_open());
    assert!(matches!(s.step(Event::Timer), Action::Idle));
}

#[test]
fn two_sessions_do_not_interfere() {
    let mut a = Session::new();
    let mut b = Session::new();
    assert!(sent(&a.step(Event::Timer)));
    assert!(matches!(b.step(Event::Inbound(Frame::Close)), Action::Release));
    assert!(sent(&a.step(Event::Timer)));
    assert!(matches!(b.step(Event::Timer), Action::Idle));
    assert!(a.is_open());
    assert!(!b.is_open());
}
