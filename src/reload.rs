//! The reload orchestration: which step follows which within a reload
//! cycle, and how the device filesystem is set up.

use vstd::prelude::*;

verus! {

/// Where a reload cycle stands.
#[derive(Clone, Copy, Debug, PartialEq, Eq, Structural)]
pub enum Phase {
    Idle,
    Compiling,
    Uploading,
    Reloading,
    Reassembling,
}

/// What the driver reports back to the cycle.
#[derive(Clone, Copy, Debug, PartialEq, Eq, Structural)]
pub enum CycleEvent {
    /// The user asked for a reload.
    Trigger,
    /// The recompile finished.
    Compiled,
    /// The artifact was written to the device.
    Uploaded,
    /// The view being reloaded reported whether it took the new sources.
    Reloaded { success: bool },
    /// The view being reloaded was reassembled.
    Reassembled,
}

/// What the driver is to do next.
#[derive(Clone, Copy, Debug, PartialEq, Eq, Structural)]
pub enum CycleAction {
    Recompile,
    Upload,
    ReloadSources { view: usize },
    Accept,
    Reject,
    Reassemble { view: usize },
    Finished,
}

/// The next phase, the next view and the actions for `event` in `phase`
/// with `view` the view at hand out of `views`. An event that does not fit
/// the phase changes nothing and asks for nothing.
pub open spec fn transition(phase: Phase, view: usize, views: usize, event: CycleEvent) -> (
    Phase,
    usize,
    Seq<CycleAction>,
) {
    match (phase, event) {
        (Phase::Idle, CycleEvent::Trigger) => (Phase::Compiling, 0, seq![CycleAction::Recompile]),
        (Phase::Compiling, CycleEvent::Compiled) => (
            Phase::Uploading,
            0,
            seq![CycleAction::Upload],
        ),
        (Phase::Uploading, CycleEvent::Uploaded) => if views == 0 {
            (Phase::Idle, 0, seq![CycleAction::Finished])
        } else {
            (Phase::Reloading, 0, seq![CycleAction::ReloadSources { view: 0 }])
        },
        (Phase::Reloading, CycleEvent::Reloaded { success }) => (
            Phase::Reassembling,
            view,
            seq![
                if success {
                    CycleAction::Accept
                } else {
                    CycleAction::Reject
                },
                CycleAction::Reassemble { view },
            ],
        ),
        (Phase::Reassembling, CycleEvent::Reassembled) => if view + 1 < views {
            (
                Phase::Reloading,
                (view + 1) as usize,
                seq![CycleAction::ReloadSources { view: (view + 1) as usize }],
            )
        } else {
            (Phase::Idle, 0, seq![CycleAction::Finished])
        },
        _ => (phase, view, Seq::empty()),
    }
}

/// One reload cycle over `views` views: detect and recompile, upload,
/// then for each view reload, accept or reject, and reassemble.
pub struct ReloadCycle {
    phase: Phase,
    view: usize,
    views: usize,
}

impl ReloadCycle {
    pub closed spec fn phase(&self) -> Phase {
        self.phase
    }

    pub closed spec fn view(&self) -> usize {
        self.view
    }

    pub closed spec fn views(&self) -> usize {
        self.views
    }

    pub open spec fn wf(&self) -> bool {
        self.view() < self.views() || self.view() == 0
    }

    pub fn new(views: usize) -> (r: ReloadCycle)
        ensures
            r.phase() == Phase::Idle,
            r.view() == 0,
            r.views() == views,
            r.wf(),
    {
        ReloadCycle { phase: Phase::Idle, view: 0, views }
    }

    pub fn phase_now(&self) -> (r: Phase)
        ensures
            r == self.phase(),
    {
        self.phase
    }

    /// Takes one event and returns the actions it calls for, in order.
    pub fn step(&mut self, event: CycleEvent) -> (r: Vec<CycleAction>)
        requires
            old(self).wf(),
        ensures
            final(self).wf(),
            final(self).views() == old(self).views(),
            (final(self).phase(), final(self).view(), r@) == transition(
                old(self).phase(),
                old(self).view(),
                old(self).views(),
                event,
            ),
    {
        let mut r: Vec<CycleAction> = Vec::new();
        match (self.phase, event) {
            (Phase::Idle, CycleEvent::Trigger) => {
                self.phase = Phase::Compiling;
                self.view = 0;
                r.push(CycleAction::Recompile);
            },
            (Phase::Compiling, CycleEvent::Compiled) => {
                self.phase = Phase::Uploading;
                self.view = 0;
                r.push(CycleAction::Upload);
            },
            (Phase::Uploading, CycleEvent::Uploaded) => {
                self.view = 0;
                if self.views == 0 {
                    self.phase = Phase::Idle;
                    r.push(CycleAction::Finished);
                } else {
                    self.phase = Phase::Reloading;
                    r.push(CycleAction::ReloadSources { view: 0 });
                }
            },
            (Phase::Reloading, CycleEvent::Reloaded { success }) => {
                self.phase = Phase::Reassembling;
                r.push(
                    if success {
                        CycleAction::Accept
                    } else {
                        CycleAction::Reject
                    },
                );
                r.push(CycleAction::Reassemble { view: self.view });
            },
            (Phase::Reassembling, CycleEvent::Reassembled) => {
                if self.view + 1 < self.views {
                    self.view = self.view + 1;
                    self.phase = Phase::Reloading;
                    r.push(CycleAction::ReloadSources { view: self.view });
                } else {
                    self.view = 0;
                    self.phase = Phase::Idle;
                    r.push(CycleAction::Finished);
                }
            },
            _ => {},
        }
        assert(r@ =~= transition(old(self).phase(), old(self).view(), old(self).views(), event).2);
        r
    }
}

/// The phase, view and actions after `events`, taken one at a time by
/// `transition` from `phase` and `view`.
pub open spec fn run_events(phase: Phase, view: usize, views: usize, events: Seq<CycleEvent>) -> (
    Phase,
    usize,
    Seq<CycleAction>,
)
    decreases events.len(),
{
    if events.len() == 0 {
        (phase, view, Seq::empty())
    } else {
        let (p2, v2, a) = transition(phase, view, views, events[0]);
        let (p3, v3, b) = run_events(p2, v2, views, events.drop_first());
        (p3, v3, a + b)
    }
}

/// The events of the views from `k` on: each reports its reload outcome,
/// then that it was reassembled.
pub open spec fn view_events(outcomes: Seq<bool>, k: int) -> Seq<CycleEvent>
    decreases outcomes.len() - k,
{
    if k < 0 || k >= outcomes.len() {
        Seq::empty()
    } else {
        seq![CycleEvent::Reloaded { success: outcomes[k] }, CycleEvent::Reassembled] + view_events(
            outcomes,
            k + 1,
        )
    }
}

pub open spec fn decision(success: bool) -> CycleAction {
    if success {
        CycleAction::Accept
    } else {
        CycleAction::Reject
    }
}

/// The actions for the views from `k` on: reload, accept or reject, and
/// reassemble each in turn.
pub open spec fn view_actions(outcomes: Seq<bool>, k: int) -> Seq<CycleAction>
    decreases outcomes.len() - k,
{
    if k < 0 || k >= outcomes.len() {
        Seq::empty()
    } else {
        seq![
            CycleAction::ReloadSources { view: k as usize },
            decision(outcomes[k]),
            CycleAction::Reassemble { view: k as usize },
        ] + view_actions(outcomes, k + 1)
    }
}

proof fn lemma_views_from(outcomes: Seq<bool>, k: int)
    requires
        0 <= k < outcomes.len() <= usize::MAX,
    ensures
        run_events(Phase::Reloading, k as usize, outcomes.len() as usize, view_events(outcomes, k))
            == (Phase::Idle, 0usize, view_actions(outcomes, k).drop_first().push(
            CycleAction::Finished,
        )),
    decreases outcomes.len() - k,
{
    let n = outcomes.len() as usize;
    let evs = view_events(outcomes, k);
    let rest = view_events(outcomes, k + 1);
    assert(evs[0] == CycleEvent::Reloaded { success: outcomes[k] });
    assert(evs.drop_first()[0] == CycleEvent::Reassembled);
    assert(evs.drop_first().drop_first() =~= rest);
    let e1 = evs.drop_first();
    let head = seq![decision(outcomes[k]), CycleAction::Reassemble { view: k as usize }];
    assert(transition(Phase::Reloading, k as usize, n, evs[0]) == (
        Phase::Reassembling,
        k as usize,
        head,
    ));
    if k + 1 < n {
        lemma_views_from(outcomes, k + 1);
        let tail = view_actions(outcomes, k + 1).drop_first().push(CycleAction::Finished);
        let next = seq![CycleAction::ReloadSources { view: (k + 1) as usize }];
        assert(transition(Phase::Reassembling, k as usize, n, e1[0]) == (
            Phase::Reloading,
            (k + 1) as usize,
            next,
        ));
        assert(run_events(Phase::Reassembling, k as usize, n, e1) == (
            Phase::Idle,
            0usize,
            next + tail,
        ));
        assert(run_events(Phase::Reloading, k as usize, n, evs) == (
            Phase::Idle,
            0usize,
            head + (next + tail),
        ));
        assert(view_actions(outcomes, k + 1)[0] == CycleAction::ReloadSources {
            view: (k + 1) as usize,
        });
        assert(view_actions(outcomes, k).drop_first().push(CycleAction::Finished) =~= seq![
            decision(outcomes[k]),
            CycleAction::Reassemble { view: k as usize },
        ] + (seq![CycleAction::ReloadSources { view: (k + 1) as usize }] + view_actions(
            outcomes,
            k + 1,
        ).drop_first().push(CycleAction::Finished)));
    } else {
        assert(rest =~= Seq::<CycleEvent>::empty());
        assert(run_events(Phase::Idle, 0, n, rest) == (
            Phase::Idle,
            0usize,
            Seq::<CycleAction>::empty(),
        ));
        assert(transition(Phase::Reassembling, k as usize, n, e1[0]) == (
            Phase::Idle,
            0usize,
            seq![CycleAction::Finished],
        ));
        assert(run_events(Phase::Reassembling, k as usize, n, e1) == (
            Phase::Idle,
            0usize,
            seq![CycleAction::Finished] + Seq::<CycleAction>::empty(),
        ));
        assert(view_actions(outcomes, k + 1) =~= Seq::<CycleAction>::empty());
        assert(view_actions(outcomes, k).drop_first().push(CycleAction::Finished) =~= seq![
            decision(outcomes[k]),
            CycleAction::Reassemble { view: k as usize },
        ] + (seq![CycleAction::Finished] + Seq::<CycleAction>::empty()));
    }
}

/// A whole reload cycle over as many views as there are `outcomes`, the
/// i-th view's reload reporting `outcomes[i]`, asks for exactly this:
/// recompile, upload, then for each view in turn reload it, accept the
/// compile if the reload succeeded or reject it if not, and reassemble it;
/// then it finishes, ready for the next trigger.
pub proof fn lemma_cycle_actions(outcomes: Seq<bool>)
    requires
        outcomes.len() <= usize::MAX,
    ensures
        run_events(
            Phase::Idle,
            0,
            outcomes.len() as usize,
            seq![CycleEvent::Trigger, CycleEvent::Compiled, CycleEvent::Uploaded] + view_events(
                outcomes,
                0,
            ),
        ) == (Phase::Idle, 0usize, seq![CycleAction::Recompile, CycleAction::Upload]
            + view_actions(outcomes, 0) + seq![CycleAction::Finished]),
{
    let n = outcomes.len() as usize;
    let evs = seq![CycleEvent::Trigger, CycleEvent::Compiled, CycleEvent::Uploaded] + view_events(
        outcomes,
        0,
    );
    assert(evs[0] == CycleEvent::Trigger);
    assert(evs.drop_first()[0] == CycleEvent::Compiled);
    assert(evs.drop_first().drop_first()[0] == CycleEvent::Uploaded);
    let e1 = evs.drop_first();
    let e2 = e1.drop_first();
    let e3 = e2.drop_first();
    assert(e3 =~= view_events(outcomes, 0));
    let r3 = run_events(Phase::Uploading, 0, n, e2);
    assert(run_events(Phase::Compiling, 0, n, e1) == (r3.0, r3.1, seq![CycleAction::Upload] + r3.2));
    assert(run_events(Phase::Idle, 0, n, evs) == (
        r3.0,
        r3.1,
        seq![CycleAction::Recompile] + (seq![CycleAction::Upload] + r3.2),
    ));
    if n > 0 {
        lemma_views_from(outcomes, 0);
        assert(r3 == (
            Phase::Idle,
            0usize,
            seq![CycleAction::ReloadSources { view: 0 }] + view_actions(outcomes, 0).drop_first().push(
                CycleAction::Finished,
            ),
        ));
        assert(view_actions(outcomes, 0)[0] == CycleAction::ReloadSources { view: 0 });
        assert(seq![CycleAction::Recompile, CycleAction::Upload] + view_actions(outcomes, 0)
            + seq![CycleAction::Finished] =~= seq![CycleAction::Recompile] + (
        seq![CycleAction::Upload] + (seq![CycleAction::ReloadSources { view: 0 }]
            + view_actions(outcomes, 0).drop_first().push(CycleAction::Finished))));
    } else {
        assert(view_events(outcomes, 0) =~= Seq::<CycleEvent>::empty());
        assert(run_events(Phase::Idle, 0, n, e3) == (
            Phase::Idle,
            0usize,
            Seq::<CycleAction>::empty(),
        ));
        assert(r3 == (
            Phase::Idle,
            0usize,
            seq![CycleAction::Finished] + Seq::<CycleAction>::empty(),
        ));
        assert(view_actions(outcomes, 0) =~= Seq::<CycleAction>::empty());
        assert(seq![CycleAction::Recompile, CycleAction::Upload] + view_actions(outcomes, 0)
            + seq![CycleAction::Finished] =~= seq![CycleAction::Recompile] + (
        seq![CycleAction::Upload] + (seq![CycleAction::Finished] + Seq::<CycleAction>::empty())));
    }
}

/// The device path of a file under a device filesystem's base URI.
pub fn device_uri(base: &str, path: &str) -> (r: String)
    ensures
        r@ == base@ + path@,
{
    let mut r = base.to_owned();
    r.append(path);
    r
}

/// Where the device filesystem set-up stands: a failed creation deletes
/// the filesystem left by an earlier run and tries once more.
#[derive(Clone, Copy, Debug, PartialEq, Eq, Structural)]
pub enum SetupPhase {
    Creating,
    Deleting,
    Recreating,
    Ready,
    Failed,
}

#[derive(Clone, Copy, Debug, PartialEq, Eq, Structural)]
pub enum SetupEvent {
    Created { ok: bool },
    Deleted { ok: bool },
}

#[derive(Clone, Copy, Debug, PartialEq, Eq, Structural)]
pub enum SetupAction {
    Create,
    Delete,
    Proceed,
    Abort,
    Nothing,
}

pub open spec fn setup_transition(phase: SetupPhase, event: SetupEvent) -> (SetupPhase, SetupAction) {
    match (phase, event) {
        (SetupPhase::Creating, SetupEvent::Created { ok }) => if ok {
            (SetupPhase::Ready, SetupAction::Proceed)
        } else {
            (SetupPhase::Deleting, SetupAction::Delete)
        },
        (SetupPhase::Deleting, SetupEvent::Deleted { ok }) => if ok {
            (SetupPhase::Recreating, SetupAction::Create)
        } else {
            (SetupPhase::Failed, SetupAction::Abort)
        },
        (SetupPhase::Recreating, SetupEvent::Created { ok }) => if ok {
            (SetupPhase::Ready, SetupAction::Proceed)
        } else {
            (SetupPhase::Failed, SetupAction::Abort)
        },
        _ => (phase, SetupAction::Nothing),
    }
}

pub struct DevFsSetup {
    phase: SetupPhase,
}

impl DevFsSetup {
    pub closed spec fn phase(&self) -> SetupPhase {
        self.phase
    }

    /// Starts the set-up; the first action is to create the filesystem.
    pub fn new() -> (r: (DevFsSetup, SetupAction))
        ensures
            r.0.phase() == SetupPhase::Creating,
            r.1 == SetupAction::Create,
    {
        (DevFsSetup { phase: SetupPhase::Creating }, SetupAction::Create)
    }

    pub fn phase_now(&self) -> (r: SetupPhase)
        ensures
            r == self.phase(),
    {
        self.phase
    }

    pub fn step(&mut self, event: SetupEvent) -> (r: SetupAction)
        ensures
            (final(self).phase(), r) == setup_transition(old(self).phase(), event),
    {
        let (phase, action) = match (self.phase, event) {
            (SetupPhase::Creating, SetupEvent::Created { ok }) => if ok {
                (SetupPhase::Ready, SetupAction::Proceed)
            } else {
                (SetupPhase::Deleting, SetupAction::Delete)
            },
            (SetupPhase::Deleting, SetupEvent::Deleted { ok }) => if ok {
                (SetupPhase::Recreating, SetupAction::Create)
            } else {
                (SetupPhase::Failed, SetupAction::Abort)
            },
            (SetupPhase::Recreating, SetupEvent::Created { ok }) => if ok {
                (SetupPhase::Ready, SetupAction::Proceed)
            } else {
                (SetupPhase::Failed, SetupAction::Abort)
            },
            (p, _) => (p, SetupAction::Nothing),
        };
        self.phase = phase;
        action
    }
}

} // verus!
