use hocuspocus_rs_ws::hocuspocus::{
    is_final_signal, keeps_throttling, throttle_delay, ws_step, DocGcTracker, GcDecision, GcEvent, PersistStep, PersistWorker,
    PersistSignal, ThrottleSignal, WsEvent, WsStep,
};

#[test]
fn doc_is_collected_after_two_idle_checkpoints() {
    let mut t = DocGcTracker::new();
    assert_eq!(t.on_checkpoint(Some(1)), GcDecision::Keep);
    assert_eq!(t.checkpoints_without_refs(), 1);
    assert_eq!(t.on_checkpoint(Some(1)), GcDecision::Collect);
}

#[test]
fn a_reference_resets_the_idle_count() {
    let mut t = DocGcTracker::new();
    assert_eq!(t.on_checkpoint(Some(1)), GcDecision::Keep);
    assert_eq!(t.on_checkpoint(Some(3)), GcDecision::Keep);
    assert_eq!(t.checkpoints_without_refs(), 0);
    assert_eq!(t.on_checkpoint(Some(0)), GcDecision::Keep);
    assert_eq!(t.on_checkpoint(None), GcDecision::Stop);
}

#[test]
fn persistence_is_throttled_to_one_save_per_checkpoint() {
    assert_eq!(throttle_delay(false, 10, 60), Some(50));
    assert_eq!(throttle_delay(false, 60, 60), None);
    assert_eq!(throttle_delay(true, 10, 60), None);
    assert!(!is_final_signal(PersistSignal::Dirty));
    assert!(is_final_signal(PersistSignal::ChannelClosed));
    assert!(is_final_signal(PersistSignal::Cancelled));
    assert!(is_final_signal(PersistSignal::Tick { shutdown: true }));
    assert!(!is_final_signal(PersistSignal::Tick { shutdown: false }));
    assert!(keeps_throttling(ThrottleSignal::Dirty));
    assert!(!keeps_throttling(ThrottleSignal::Elapsed));
    assert!(!keeps_throttling(ThrottleSignal::Cancelled));
}

#[test]
fn websocket_events() {
    assert_eq!(ws_step(WsEvent::Binary), WsStep::Handle);
    assert_eq!(ws_step(WsEvent::Close), WsStep::Stop);
    assert_eq!(ws_step(WsEvent::Error), WsStep::Stop);
    assert_eq!(ws_step(WsEvent::Ended), WsStep::Stop);
    assert_eq!(ws_step(WsEvent::Other), WsStep::Ignore);
}

#[test]
fn cancellation_stops_collection_without_collecting() {
    let mut t = DocGcTracker::new();
    assert_eq!(t.on_event(GcEvent::Checkpoint(Some(1))), GcDecision::Keep);
    assert_eq!(t.on_event(GcEvent::Cancelled), GcDecision::Stop);
    assert_eq!(t.checkpoints_without_refs(), 1);
    let mut t = DocGcTracker::new();
    assert_eq!(t.on_event(GcEvent::Checkpoint(None)), GcDecision::Stop);
    assert_eq!(t.checkpoints_without_refs(), 0);
}

#[test]
fn collection_follows_two_idle_checkpoints_in_a_row() {
    let mut t = DocGcTracker::new();
    let mut decisions = Vec::new();
    for refs in [1usize, 2, 0, 3, 1] {
        decisions.push(t.on_event(GcEvent::Checkpoint(Some(refs))));
    }
    assert!(decisions.iter().all(|d| *d == GcDecision::Keep));
    assert_eq!(t.on_event(GcEvent::Checkpoint(Some(0))), GcDecision::Collect);
}

#[test]
fn a_throttled_save_comes_a_checkpoint_after_the_last() {
    let last: u128 = 1_000;
    let now: u128 = 1_400;
    let freq: u128 = 1_000;
    let wait = throttle_delay(false, now - last, freq).unwrap();
    assert_eq!(wait, 600);
    assert_eq!(now + wait - last, freq);
}

#[test]
fn persistence_worker_saves_a_checkpoint_after_the_last_save() {
    let mut w = PersistWorker::new(1_000, 1_000);
    assert_eq!(w.on_signal(PersistSignal::Dirty, 1_400), PersistStep::WaitFor(600));
    assert_eq!(w.on_throttle(ThrottleSignal::Dirty), PersistStep::KeepWaiting);
    assert_eq!(w.on_throttle(ThrottleSignal::Dirty), PersistStep::KeepWaiting);
    assert_eq!(w.on_throttle(ThrottleSignal::Elapsed), PersistStep::Persist);
    assert!(!w.on_saved(2_000));
    assert_eq!(w.on_signal(PersistSignal::Dirty, 3_500), PersistStep::Persist);
    assert!(!w.on_saved(3_500));
    assert_eq!(w.on_signal(PersistSignal::Cancelled, 3_600), PersistStep::Persist);
    assert!(w.on_saved(3_700));
}

#[test]
fn closing_the_channel_ends_the_wait_early() {
    let mut w = PersistWorker::new(0, 1_000);
    assert_eq!(w.on_signal(PersistSignal::Dirty, 10), PersistStep::WaitFor(990));
    assert_eq!(w.on_throttle(ThrottleSignal::ChannelClosed), PersistStep::Persist);
    assert!(!w.on_saved(20));
    assert_eq!(w.on_signal(PersistSignal::ChannelClosed, 30), PersistStep::Persist);
    assert!(w.on_saved(40));
}
