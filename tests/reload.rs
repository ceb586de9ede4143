use hot_reload::reload::{
    device_uri, CycleAction, CycleEvent, DevFsSetup, Phase, ReloadCycle, SetupAction, SetupEvent,
    SetupPhase,
};

fn run_cycle(views: usize, outcomes: &[bool]) -> Vec<CycleAction> {
    let mut cycle = ReloadCycle::new(views);
    let mut trace = Vec::new();
    trace.extend(cycle.step(CycleEvent::Trigger));
    trace.extend(cycle.step(CycleEvent::Compiled));
    trace.extend(cycle.step(CycleEvent::Uploaded));
    for &success in outcomes {
        trace.extend(cycle.step(CycleEvent::Reloaded { success }));
        trace.extend(cycle.step(CycleEvent::Reassembled));
    }
    assert_eq!(cycle.phase_now(), Phase::Idle);
    trace
}

fn count(trace: &[CycleAction], a: CycleAction) -> usize {
    trace.iter().filter(|x| **x == a).count()
}

#[test]
fn successful_reload_accepts_then_reassembles() {
    let trace = run_cycle(1, &[true]);
    assert_eq!(count(&trace, CycleAction::Accept), 1);
    assert_eq!(count(&trace, CycleAction::Reject), 0);
    assert_eq!(count(&trace, CycleAction::Reassemble { view: 0 }), 1);
    assert_eq!(
        trace,
        vec![
            CycleAction::Recompile,
            CycleAction::Upload,
            CycleAction::ReloadSources { view: 0 },
            CycleAction::Accept,
            CycleAction::Reassemble { view: 0 },
            CycleAction::Finished,
        ]
    );
}

#[test]
fn failed_reload_rejects_and_still_reassembles() {
    let trace = run_cycle(1, &[false]);
    assert_eq!(count(&trace, CycleAction::Reject), 1);
    assert_eq!(count(&trace, CycleAction::Accept), 0);
    assert_eq!(count(&trace, CycleAction::Reassemble { view: 0 }), 1);
    assert_eq!(
        trace,
        vec![
            CycleAction::Recompile,
            CycleAction::Upload,
            CycleAction::ReloadSources { view: 0 },
            CycleAction::Reject,
            CycleAction::Reassemble { view: 0 },
            CycleAction::Finished,
        ]
    );
}

#[test]
fn each_view_is_reloaded_in_turn() {
    let trace = run_cycle(2, &[true, false]);
    assert_eq!(
        trace,
        vec![
            CycleAction::Recompile,
            CycleAction::Upload,
            CycleAction::ReloadSources { view: 0 },
            CycleAction::Accept,
            CycleAction::Reassemble { view: 0 },
            CycleAction::ReloadSources { view: 1 },
            CycleAction::Reject,
            CycleAction::Reassemble { view: 1 },
            CycleAction::Finished,
        ]
    );
}

#[test]
fn no_views_finishes_after_upload() {
    let trace = run_cycle(0, &[]);
    assert_eq!(trace, vec![CycleAction::Recompile, CycleAction::Upload, CycleAction::Finished]);
}

#[test]
fn out_of_order_event_is_ignored() {
    let mut cycle = ReloadCycle::new(1);
    assert!(cycle.step(CycleEvent::Uploaded).is_empty());
    assert_eq!(cycle.phase_now(), Phase::Idle);
    cycle.step(CycleEvent::Trigger);
    assert!(cycle.step(CycleEvent::Trigger).is_empty());
    assert_eq!(cycle.phase_now(), Phase::Compiling);
}

#[test]
fn setup_creates_directly() {
    let (mut s, first) = DevFsSetup::new();
    assert_eq!(first, SetupAction::Create);
    assert_eq!(s.step(SetupEvent::Created { ok: true }), SetupAction::Proceed);
    assert_eq!(s.phase_now(), SetupPhase::Ready);
}

#[test]
fn setup_deletes_and_retries_once() {
    let (mut s, _) = DevFsSetup::new();
    assert_eq!(s.step(SetupEvent::Created { ok: false }), SetupAction::Delete);
    assert_eq!(s.step(SetupEvent::Deleted { ok: true }), SetupAction::Create);
    assert_eq!(s.step(SetupEvent::Created { ok: true }), SetupAction::Proceed);
}

#[test]
fn setup_fails_on_second_failure() {
    let (mut s, _) = DevFsSetup::new();
    s.step(SetupEvent::Created { ok: false });
    s.step(SetupEvent::Deleted { ok: true });
    assert_eq!(s.step(SetupEvent::Created { ok: false }), SetupAction::Abort);
    assert_eq!(s.phase_now(), SetupPhase::Failed);
}

#[test]
fn device_uri_joins_base_and_path() {
    assert_eq!(
        device_uri("file:///tmp/fs/", "lib/main.dart.incremental.dill"),
        "file:///tmp/fs/lib/main.dart.incremental.dill"
    );
}
