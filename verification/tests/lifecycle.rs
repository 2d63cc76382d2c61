use wjj_std::lifecycle::{Action, Event, Lifecycle};

#[test]
fn starts_in_order_then_joins_in_reverse() {
    let (mut s, a) = Lifecycle::new(3);
    assert_eq!(a, Action::Start(0));
    assert_eq!(s.step(Event::Started { has_task: true }), Action::Start(1));
    assert_eq!(s.step(Event::Started { has_task: false }), Action::Start(2));
    assert_eq!(s.step(Event::Started { has_task: true }), Action::WaitForSignal);
    assert_eq!(s.step(Event::TaskJoined), Action::WaitForSignal);
    assert_eq!(s.step(Event::SignalReceived), Action::BroadcastShutdown);
    assert_eq!(s.step(Event::ShutdownSent), Action::Join(1));
    assert_eq!(s.step(Event::TaskJoined), Action::Join(0));
    assert_eq!(s.step(Event::TaskJoined), Action::Stop { failed: false });
    assert_eq!(s.step(Event::SignalReceived), Action::Stop { failed: false });
}

#[test]
fn failure_shuts_down_started_components() {
    let (mut s, _) = Lifecycle::new(3);
    assert_eq!(s.step(Event::Started { has_task: true }), Action::Start(1));
    assert_eq!(s.step(Event::StartFailed), Action::BroadcastShutdown);
    assert_eq!(s.step(Event::ShutdownSent), Action::Join(0));
    assert_eq!(s.step(Event::TaskJoined), Action::Stop { failed: true });
}

#[test]
fn no_components_waits_for_signal() {
    let (mut s, a) = Lifecycle::new(0);
    assert_eq!(a, Action::WaitForSignal);
    assert_eq!(s.step(Event::SignalReceived), Action::BroadcastShutdown);
    assert_eq!(s.step(Event::ShutdownSent), Action::Stop { failed: false });
}

#[test]
fn unexpected_events_change_nothing() {
    let (mut s, _) = Lifecycle::new(2);
    let before = s;
    assert_eq!(s.step(Event::TaskJoined), Action::Start(0));
    assert_eq!(s, before);
    assert_eq!(s.step(Event::ShutdownSent), Action::Start(0));
    assert_eq!(s, before);
}
