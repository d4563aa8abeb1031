//! Applying a layout, as a sequence of decisions between pieces of platform
//! work: the caller performs each action and hands back what came of it.
use vstd::prelude::*;
use crate::backend::{
    after_ensure, after_refresh, signature_or_empty, well_formed, BackendView, KaiserBackend,
    TopologyReading,
};
use crate::display::{copy_displays, ErrorView, Layout, ManagerError, OutputConfig};
use crate::gamma::{GammaCache, GammaRampKey, GammaRampView};
use crate::topology::{
    all_disabled_error, all_disabled_message, currently_active_targets, enables_inactive,
    has_enabled_output, layout_has_enabled_output, needs_to_enable_inactive, persisted_snapshot,
    PersistedSnapshot, PersistedView, TopologySnapshot, TopologyView,
};

verus! {

/// How long to let the platform settle after extending the topology before
/// it is queried again, in milliseconds.
pub const REDISCOVERY_SETTLE_MILLIS: u64 = 1500;

/// What the caller reports back after performing an action.
#[derive(Debug, PartialEq, Eq)]
pub enum ApplyLayoutEvent {
    /// The run begins.
    Start,
    /// The result of querying the topology with its signature and SDR ramps.
    TopologyQueried(Result<TopologyReading, ManagerError>),
    /// The topology queried after extending it, or `None` if that query failed.
    TopologyRediscovered(Option<TopologySnapshot>),
    /// The result of applying the layout against the working topology.
    LayoutApplied(Result<TopologySnapshot, ManagerError>),
    /// The colour-state signature of the applied topology, read after the
    /// calibration was reapplied.
    Recalibrated(String),
    /// The SDR ramps captured from the applied topology.
    SdrCaptured(GammaCache),
}

/// What the caller is to do next.
#[derive(Debug, PartialEq, Eq)]
pub enum ApplyLayoutAction {
    /// Query the active topology, its colour-state signature and its SDR ramps.
    QueryTopology,
    /// Force the topology to extend (ignoring the outcome), wait
    /// `settle_millis`, and query the active topology again.
    RediscoverTopology { settle_millis: u64 },
    /// Apply the run's layout against this topology.
    ApplyAgainst(TopologySnapshot),
    /// Write this record to the snapshot file (ignoring failure), reapply the
    /// colour calibration with the backend's cached SDR ramps (ignoring
    /// failure), then read the colour-state signature of the applied topology.
    PersistAndRecalibrate(PersistedSnapshot),
    /// Capture the SDR ramps of the applied topology.
    CaptureSdr,
    /// The run is over, with this outcome.
    Finish(Result<(), ManagerError>),
}

/// An action as plain values.
pub enum ActionView {
    QueryTopology,
    RediscoverTopology { settle_millis: u64 },
    ApplyAgainst(TopologyView),
    PersistAndRecalibrate(PersistedView),
    CaptureSdr,
    Finish(Result<(), ErrorView>),
}

/// The outcome of a run as plain values.
pub open spec fn outcome_of(r: Result<(), ManagerError>) -> Result<(), ErrorView> {
    match r {
        Ok(()) => Ok(()),
        Err(e) => Err(e@),
    }
}

impl View for ApplyLayoutAction {
    type V = ActionView;

    open spec fn view(&self) -> ActionView {
        match self {
            ApplyLayoutAction::QueryTopology => ActionView::QueryTopology,
            ApplyLayoutAction::RediscoverTopology { settle_millis } => ActionView::RediscoverTopology {
                settle_millis: *settle_millis,
            },
            ApplyLayoutAction::ApplyAgainst(s) => ActionView::ApplyAgainst(s@),
            ApplyLayoutAction::PersistAndRecalibrate(p) => ActionView::PersistAndRecalibrate(p@),
            ApplyLayoutAction::CaptureSdr => ActionView::CaptureSdr,
            ApplyLayoutAction::Finish(r) => ActionView::Finish(outcome_of(*r)),
        }
    }
}

/// Where a run stands.
#[derive(Debug)]
enum ApplyStage {
    Start,
    AwaitingTopology,
    AwaitingRediscovery(TopologySnapshot),
    AwaitingApply,
    AwaitingRecalibration(TopologySnapshot),
    AwaitingSdr(TopologySnapshot, String),
    Finished,
}

/// Where a run stands, as plain values.
pub enum StageView {
    /// Nothing has happened yet.
    Start,
    /// The topology is being queried.
    AwaitingTopology,
    /// The topology is being rediscovered; the one cached when the run
    /// began is kept to fall back on.
    AwaitingRediscovery(TopologyView),
    /// The layout is being applied.
    AwaitingApply,
    /// The applied topology is being persisted and the calibration reapplied.
    AwaitingRecalibration(TopologyView),
    /// The SDR ramps of the applied topology, whose signature is given, are
    /// being captured.
    AwaitingSdr(TopologyView, Seq<char>),
    /// The run is over.
    Finished,
}

/// One application of a layout in progress.
#[derive(Debug)]
pub struct ApplyLayoutRun {
    layout: Layout,
    stage: ApplyStage,
}

/// A run as plain values.
pub struct RunView {
    pub layout: Seq<OutputConfig>,
    pub stage: StageView,
}

spec fn stage_view(stage: ApplyStage) -> StageView {
    match stage {
        ApplyStage::Start => StageView::Start,
        ApplyStage::AwaitingTopology => StageView::AwaitingTopology,
        ApplyStage::AwaitingRediscovery(s) => StageView::AwaitingRediscovery(s@),
        ApplyStage::AwaitingApply => StageView::AwaitingApply,
        ApplyStage::AwaitingRecalibration(s) => StageView::AwaitingRecalibration(s@),
        ApplyStage::AwaitingSdr(s, sig) => StageView::AwaitingSdr(s@, sig@),
        ApplyStage::Finished => StageView::Finished,
    }
}

impl View for ApplyLayoutRun {
    type V = RunView;

    closed spec fn view(&self) -> RunView {
        RunView { layout: self.layout@, stage: stage_view(self.stage) }
    }
}

/// The event that a run in `stage` waits for.
pub open spec fn accepts(stage: StageView, event: ApplyLayoutEvent) -> bool {
    match stage {
        StageView::Start => event is Start,
        StageView::AwaitingTopology => event is TopologyQueried,
        StageView::AwaitingRediscovery(_) => event is TopologyRediscovered,
        StageView::AwaitingApply => event is LayoutApplied,
        StageView::AwaitingRecalibration(_) => event is Recalibrated,
        StageView::AwaitingSdr(_, _) => event is SdrCaptured,
        StageView::Finished => false,
    }
}

/// Past its first steps a run works on the topology the backend holds: in
/// every stage after the query, the backend holds one.
pub open spec fn run_holds_topology(b: BackendView, stage: StageView) -> bool {
    match stage {
        StageView::Start => true,
        StageView::AwaitingTopology => true,
        StageView::Finished => true,
        _ => b.snapshot is Some,
    }
}

/// What is decided once a topology is cached: a layout with no enabled
/// output is refused; one that enables an output on a target no active path
/// drives needs the topology rediscovered first (no persisted configuration
/// can stand in for it); any other is applied against the cached topology.
pub open spec fn decide(snapshot: TopologyView, layout: Seq<OutputConfig>) -> (StageView, ActionView) {
    if !has_enabled_output(layout) {
        (StageView::Finished, ActionView::Finish(Err(ErrorView::Backend(all_disabled_message()))))
    } else if enables_inactive(layout, snapshot.raw.paths) {
        (
            StageView::AwaitingRediscovery(snapshot),
            ActionView::RediscoverTopology { settle_millis: REDISCOVERY_SETTLE_MILLIS },
        )
    } else {
        (StageView::AwaitingApply, ActionView::ApplyAgainst(snapshot))
    }
}

/// One step of a run: the backend, the stage and the action after `event`
/// comes to a run in `run` on a backend in `b`. (Events that `accepts` rules
/// out leave everything as it was.)
pub open spec fn apply_step(b: BackendView, run: RunView, event: ApplyLayoutEvent) -> (
    BackendView,
    StageView,
    ActionView,
) {
    match run.stage {
        StageView::Start => {
            match b.snapshot {
                Some(s) => {
                    let (stage, action) = decide(s, run.layout);
                    (b, stage, action)
                },
                None => (b, StageView::AwaitingTopology, ActionView::QueryTopology),
            }
        },
        StageView::AwaitingTopology => {
            match event {
                ApplyLayoutEvent::TopologyQueried(reading) => {
                    let b2 = after_ensure(b, reading);
                    match b2.snapshot {
                        Some(s) => {
                            let (stage, action) = decide(s, run.layout);
                            (b2, stage, action)
                        },
                        None => (
                            b2,
                            StageView::Finished,
                            ActionView::Finish(
                                Err(
                                    match reading {
                                        Err(e) => e@,
                                        // a stored reading always leaves a snapshot
                                        Ok(_) => ErrorView::Backend(Seq::empty()),
                                    },
                                ),
                            ),
                        ),
                    }
                },
                _ => (b, run.stage, ActionView::QueryTopology),
            }
        },
        StageView::AwaitingRediscovery(cached) => {
            match event {
                ApplyLayoutEvent::TopologyRediscovered(found) => {
                    let working = match found {
                        Some(t) => t@,
                        None => cached,
                    };
                    (b, StageView::AwaitingApply, ActionView::ApplyAgainst(working))
                },
                _ => (b, run.stage, ActionView::QueryTopology),
            }
        },
        StageView::AwaitingApply => {
            match event {
                ApplyLayoutEvent::LayoutApplied(Ok(next)) => (
                    b,
                    StageView::AwaitingRecalibration(next@),
                    ActionView::PersistAndRecalibrate(
                        PersistedView { displays: next@.displays, layout: next@.layout },
                    ),
                ),
                ApplyLayoutEvent::LayoutApplied(Err(e)) => (
                    b,
                    StageView::Finished,
                    ActionView::Finish(Err(e@)),
                ),
                _ => (b, run.stage, ActionView::QueryTopology),
            }
        },
        StageView::AwaitingRecalibration(next) => {
            match event {
                ApplyLayoutEvent::Recalibrated(sig) => {
                    if sig@ != signature_or_empty(b.color_signature) {
                        (b, StageView::AwaitingSdr(next, sig@), ActionView::CaptureSdr)
                    } else {
                        (
                            after_refresh(b, next, sig@, Map::empty()),
                            StageView::Finished,
                            ActionView::Finish(Ok(())),
                        )
                    }
                },
                _ => (b, run.stage, ActionView::QueryTopology),
            }
        },
        StageView::AwaitingSdr(next, sig) => {
            match event {
                ApplyLayoutEvent::SdrCaptured(fresh) => (
                    after_refresh(b, next, sig, fresh@),
                    StageView::Finished,
                    ActionView::Finish(Ok(())),
                ),
                _ => (b, run.stage, ActionView::QueryTopology),
            }
        },
        StageView::Finished => (b, run.stage, ActionView::QueryTopology),
    }
}

impl ApplyLayoutRun {
    /// A run that is to apply `layout`.
    pub fn new(layout: Layout) -> (r: ApplyLayoutRun)
        ensures
            r@ == (RunView { layout: layout@, stage: StageView::Start }),
    {
        ApplyLayoutRun { layout, stage: ApplyStage::Start }
    }

    /// The layout being applied.
    pub fn layout(&self) -> (r: &Layout)
        ensures
            r@ == self@.layout,
    {
        &self.layout
    }

    /// The applied topology, once the layout has been applied and until the
    /// run is over.
    pub fn applied_topology(&self) -> (r: Option<&TopologySnapshot>)
        ensures
            match self@.stage {
                StageView::AwaitingRecalibration(t) => r matches Some(s) && s@ == t,
                StageView::AwaitingSdr(t, _) => r matches Some(s) && s@ == t,
                _ => r is None,
            },
    {
        match &self.stage {
            ApplyStage::AwaitingRecalibration(s) => Some(s),
            ApplyStage::AwaitingSdr(s, _) => Some(s),
            _ => None,
        }
    }

    /// Whether the run is over.
    pub fn is_finished(&self) -> (r: bool)
        ensures
            r == (self@.stage is Finished),
    {
        match &self.stage {
            ApplyStage::Finished => true,
            _ => false,
        }
    }
}

impl KaiserBackend {
    /// The decision once a topology is cached.
    fn decide_with_snapshot(&self, layout: &Layout) -> (r: (ApplyStage, ApplyLayoutAction))
        requires
            self@.snapshot is Some,
        ensures
            (stage_view(r.0), r.1@) == decide(self@.snapshot->0, layout@),
    {
        let snapshot = self.cached_snapshot().unwrap();
        if !layout_has_enabled_output(layout) {
            return (ApplyStage::Finished, ApplyLayoutAction::Finish(Err(all_disabled_error())));
        }
        let active = currently_active_targets(&snapshot.raw.paths);
        let needs = needs_to_enable_inactive(layout, &active);
        if needs {
            match self.load_persisted_snapshot_raw() {
                Some(raw) => {
                    let working = TopologySnapshot {
                        raw,
                        layout: snapshot.layout.duplicate(),
                        displays: copy_displays(&snapshot.displays),
                    };
                    (ApplyStage::AwaitingApply, ApplyLayoutAction::ApplyAgainst(working))
                },
                None => (
                    ApplyStage::AwaitingRediscovery(snapshot),
                    ApplyLayoutAction::RediscoverTopology { settle_millis: REDISCOVERY_SETTLE_MILLIS },
                ),
            }
        } else {
            (ApplyStage::AwaitingApply, ApplyLayoutAction::ApplyAgainst(snapshot))
        }
    }

    /// One step of applying a layout: takes what came of the last action and
    /// says what to do next. A layout with no enabled output is refused with
    /// "refusing to apply layout with all displays disabled"; a layout that
    /// enables a display no active path drives is applied against a
    /// rediscovered topology (or, if rediscovery fails, the cached one);
    /// after a successful application the snapshot is persisted, the
    /// calibration reapplied and the applied topology recorded.
    pub fn apply_layout(&mut self, run: &mut ApplyLayoutRun, event: ApplyLayoutEvent) -> (action:
        ApplyLayoutAction)
        requires
            accepts(old(run)@.stage, event),
        ensures
            (final(self)@, final(run)@.stage, action@) == apply_step(old(self)@, old(run)@, event),
            final(run)@.layout == old(run)@.layout,
    {
        let mut stage = ApplyStage::Finished;
        std::mem::swap(&mut stage, &mut run.stage);
        match stage {
            ApplyStage::Start => {
                if self.snapshot_is_cached() {
                    let (next, action) = self.decide_with_snapshot(&run.layout);
                    run.stage = next;
                    action
                } else {
                    run.stage = ApplyStage::AwaitingTopology;
                    ApplyLayoutAction::QueryTopology
                }
            },
            ApplyStage::AwaitingTopology => {
                match event {
                    ApplyLayoutEvent::TopologyQueried(reading) => {
                        match self.ensure_snapshot(reading) {
                            Ok(()) => {
                                let (next, action) = self.decide_with_snapshot(&run.layout);
                                run.stage = next;
                                action
                            },
                            Err(e) => ApplyLayoutAction::Finish(Err(e)),
                        }
                    },
                    _ => {
                        proof {
                            assert(false);
                        }
                        ApplyLayoutAction::QueryTopology
                    },
                }
            },
            ApplyStage::AwaitingRediscovery(cached) => {
                match event {
                    ApplyLayoutEvent::TopologyRediscovered(found) => {
                        let working = match found {
                            Some(t) => t,
                            None => cached,
                        };
                        run.stage = ApplyStage::AwaitingApply;
                        ApplyLayoutAction::ApplyAgainst(working)
                    },
                    _ => {
                        proof {
                            assert(false);
                        }
                        ApplyLayoutAction::QueryTopology
                    },
                }
            },
            ApplyStage::AwaitingApply => {
                match event {
                    ApplyLayoutEvent::LayoutApplied(Ok(next)) => {
                        let record = persisted_snapshot(&next);
                        run.stage = ApplyStage::AwaitingRecalibration(next);
                        ApplyLayoutAction::PersistAndRecalibrate(record)
                    },
                    ApplyLayoutEvent::LayoutApplied(Err(e)) => ApplyLayoutAction::Finish(Err(e)),
                    _ => {
                        proof {
                            assert(false);
                        }
                        ApplyLayoutAction::QueryTopology
                    },
                }
            },
            ApplyStage::AwaitingRecalibration(next) => {
                match event {
                    ApplyLayoutEvent::Recalibrated(sig) => {
                        if self.color_signature_changed(&sig) {
                            run.stage = ApplyStage::AwaitingSdr(next, sig);
                            ApplyLayoutAction::CaptureSdr
                        } else {
                            self.refresh_snapshot(next, sig, GammaCache::new());
                            ApplyLayoutAction::Finish(Ok(()))
                        }
                    },
                    _ => {
                        proof {
                            assert(false);
                        }
                        ApplyLayoutAction::QueryTopology
                    },
                }
            },
            ApplyStage::AwaitingSdr(next, sig) => {
                match event {
                    ApplyLayoutEvent::SdrCaptured(fresh) => {
                        self.refresh_snapshot(next, sig, fresh);
                        ApplyLayoutAction::Finish(Ok(()))
                    },
                    _ => {
                        proof {
                            assert(false);
                        }
                        ApplyLayoutAction::QueryTopology
                    },
                }
            },
            ApplyStage::Finished => {
                proof {
                    assert(false);
                }
                ApplyLayoutAction::QueryTopology
            },
        }
    }
}

/// A layout that enables no output is refused with "refusing to apply
/// layout with all displays disabled", and the backend is left as it was:
/// straight away when a topology is cached, or right after the topology is
/// queried.
pub proof fn law_all_disabled_layout_is_refused(
    b: BackendView,
    layout: Seq<OutputConfig>,
    reading: Result<TopologyReading, ManagerError>,
)
    requires
        !has_enabled_output(layout),
    ensures
        b.snapshot is Some ==> apply_step(
            b,
            RunView { layout, stage: StageView::Start },
            ApplyLayoutEvent::Start,
        ) == (b, StageView::Finished, ActionView::Finish(
            Err(ErrorView::Backend(all_disabled_message())),
        )),
        after_ensure(b, reading).snapshot is Some ==> apply_step(
            b,
            RunView { layout, stage: StageView::AwaitingTopology },
            ApplyLayoutEvent::TopologyQueried(reading),
        ) == (after_ensure(b, reading), StageView::Finished, ActionView::Finish(
            Err(ErrorView::Backend(all_disabled_message())),
        )),
{
}

/// A layout that enables some output is never refused: once a topology is
/// cached, it is applied, against the cached topology or a rediscovered one.
pub proof fn law_enabled_layout_is_applied(b: BackendView, layout: Seq<OutputConfig>)
    requires
        has_enabled_output(layout),
        b.snapshot is Some,
    ensures
        ({
            let (b2, stage, action) = apply_step(
                b,
                RunView { layout, stage: StageView::Start },
                ApplyLayoutEvent::Start,
            );
            &&& b2 == b
            &&& (action is ApplyAgainst || action is RediscoverTopology)
        }),
{
}

/// A layout that enables a display which no active path drives is applied
/// against a rediscovered topology, after the platform was left to settle
/// for 1500 ms; if rediscovery fails, against the topology cached when the
/// run began. A layout whose enabled displays are all driven is applied
/// against the cached topology at once.
pub proof fn law_inactive_display_needs_rediscovery(
    b: BackendView,
    layout: Seq<OutputConfig>,
    found: Option<TopologySnapshot>,
)
    requires
        has_enabled_output(layout),
        b.snapshot is Some,
    ensures
        ({
            let cached = b.snapshot->0;
            let (b1, stage1, action1) = apply_step(
                b,
                RunView { layout, stage: StageView::Start },
                ApplyLayoutEvent::Start,
            );
            if enables_inactive(layout, cached.raw.paths) {
                &&& action1 == ActionView::RediscoverTopology { settle_millis: 1500 }
                &&& apply_step(
                    b1,
                    RunView { layout, stage: stage1 },
                    ApplyLayoutEvent::TopologyRediscovered(found),
                ).2 == ActionView::ApplyAgainst(
                    match found {
                        Some(t) => t@,
                        None => cached,
                    },
                )
            } else {
                action1 == ActionView::ApplyAgainst(cached)
            }
        }),
{
}

/// After a layout is applied, the record persisted holds the applied
/// topology's displays and layout, and when the run finishes the backend's
/// cached topology is the applied one, with its snapshot path unchanged.
pub proof fn law_applied_topology_is_recorded(
    b: BackendView,
    layout: Seq<OutputConfig>,
    next: TopologySnapshot,
    sig: String,
    fresh: GammaCache,
)
    ensures
        ({
            let (b1, stage1, action1) = apply_step(
                b,
                RunView { layout, stage: StageView::AwaitingApply },
                ApplyLayoutEvent::LayoutApplied(Ok(next)),
            );
            let (b2, stage2, action2) = apply_step(
                b1,
                RunView { layout, stage: stage1 },
                ApplyLayoutEvent::Recalibrated(sig),
            );
            let (b3, stage3, action3) = apply_step(
                b2,
                RunView { layout, stage: stage2 },
                ApplyLayoutEvent::SdrCaptured(fresh),
            );
            &&& b1 == b
            &&& action1 == ActionView::PersistAndRecalibrate(
                PersistedView { displays: next@.displays, layout: next@.layout },
            )
            &&& if action2 is CaptureSdr {
                &&& b3.snapshot == Some(next@)
                &&& b3.snapshot_path == b.snapshot_path
                &&& stage3 is Finished
                &&& action3 == ActionView::Finish(Ok(()))
            } else {
                &&& b2.snapshot == Some(next@)
                &&& b2.snapshot_path == b.snapshot_path
                &&& stage2 is Finished
                &&& action2 == ActionView::Finish(Ok(()))
            }
        }),
{
}

/// No step of applying a layout moves the snapshot file.
pub proof fn law_apply_step_keeps_snapshot_path(b: BackendView, run: RunView, event: ApplyLayoutEvent)
    requires
        accepts(run.stage, event),
    ensures
        apply_step(b, run, event).0.snapshot_path == b.snapshot_path,
{
}

/// How many steps at most are left to a run in `stage`.
pub open spec fn steps_left(stage: StageView) -> nat {
    match stage {
        StageView::Start => 6,
        StageView::AwaitingTopology => 5,
        StageView::AwaitingRediscovery(_) => 4,
        StageView::AwaitingApply => 3,
        StageView::AwaitingRecalibration(_) => 2,
        StageView::AwaitingSdr(_, _) => 1,
        StageView::Finished => 0,
    }
}

/// Every step brings a run closer to its end, and a run ends exactly when
/// it says `Finish`: no run takes more than six steps.
pub proof fn law_every_run_finishes(b: BackendView, run: RunView, event: ApplyLayoutEvent)
    requires
        accepts(run.stage, event),
    ensures
        ({
            let (b2, stage, action) = apply_step(b, run, event);
            &&& steps_left(stage) < steps_left(run.stage)
            &&& (stage is Finished <==> action is Finish)
        }),
{
}

/// A run that starts on a backend keeps to it: every step leaves the
/// backend holding a topology in the stages that work on one, and keeps the
/// backend well formed (a cached topology comes with its signature).
pub proof fn law_apply_step_keeps_backend_consistent(b: BackendView, run: RunView, event: ApplyLayoutEvent)
    requires
        accepts(run.stage, event),
        run_holds_topology(b, run.stage),
        well_formed(b),
    ensures
        ({
            let (b2, stage, action) = apply_step(b, run, event);
            &&& run_holds_topology(b2, stage)
            &&& well_formed(b2)
        }),
{
}

/// What a layout calls for on a known topology, judged directly from its
/// outputs and the topology's paths: with no output enabled, the refusal;
/// with an output enabled on a target that no path in use (active flag set)
/// joins, rediscovery after 1500 ms; otherwise applying the layout against
/// that very topology.
pub open spec fn judged_against(known: TopologyView, layout: Seq<OutputConfig>) -> ActionView {
    let paths = known.raw.paths;
    if !(exists|i: int| 0 <= i < layout.len() && (#[trigger] layout[i]).enabled) {
        ActionView::Finish(
            Err(ErrorView::Backend("refusing to apply layout with all displays disabled"@)),
        )
    } else if exists|i: int|
        0 <= i < layout.len() && (#[trigger] layout[i]).enabled && !(exists|p: int|
            0 <= p < paths.len() && (#[trigger] paths[p]).flags & 1u32 != 0
                && paths[p].adapter_luid == layout[i].display_id.adapter_luid
                && paths[p].target_id == layout[i].display_id.target_id) {
        ActionView::RediscoverTopology { settle_millis: 1500 }
    } else {
        ActionView::ApplyAgainst(known)
    }
}

/// Once a topology is known, whether it was cached when the run began or
/// has just been queried, the layout is judged against that topology's
/// paths as `judged_against` says: refused when no output is enabled,
/// rediscovered first when an enabled output's target is not driven, and
/// otherwise applied against that very topology.
pub proof fn law_layout_is_judged_against_the_known_topology(
    b: BackendView,
    layout: Seq<OutputConfig>,
    q: TopologyReading,
)
    ensures
        b.snapshot is Some ==> apply_step(
            b,
            RunView { layout, stage: StageView::Start },
            ApplyLayoutEvent::Start,
        ).2 == judged_against(b.snapshot->0, layout),
        b.snapshot is None ==> apply_step(
            b,
            RunView { layout, stage: StageView::AwaitingTopology },
            ApplyLayoutEvent::TopologyQueried(Ok(q)),
        ).2 == judged_against(q.snapshot@, layout),
{
    let known = if b.snapshot is Some {
        b.snapshot->0
    } else {
        q.snapshot@
    };
    lemma_judged_against_is_decided(known, layout);
    if b.snapshot is None {
        assert(after_ensure(b, Ok(q)).snapshot == Some(q.snapshot@));
    }
}

proof fn lemma_judged_against_is_decided(known: TopologyView, layout: Seq<OutputConfig>)
    ensures
        decide(known, layout).1 == judged_against(known, layout),
{
    let paths = known.raw.paths;
    assert forall|i: int| 0 <= i < layout.len() implies
        crate::topology::target_is_active(paths, (#[trigger] layout[i]).display_id) == (exists|p: int|
            0 <= p < paths.len() && (#[trigger] paths[p]).flags & 1u32 != 0
                && paths[p].adapter_luid == layout[i].display_id.adapter_luid
                && paths[p].target_id == layout[i].display_id.target_id) by {
        if crate::topology::target_is_active(paths, layout[i].display_id) {
            let p = choose|p: int|
                0 <= p < paths.len() && crate::topology::path_is_active(#[trigger] paths[p])
                    && paths[p].adapter_luid == layout[i].display_id.adapter_luid
                    && paths[p].target_id == layout[i].display_id.target_id;
            assert(paths[p].flags & 1u32 != 0);
        }
        if exists|p: int|
            0 <= p < paths.len() && (#[trigger] paths[p]).flags & 1u32 != 0
                && paths[p].adapter_luid == layout[i].display_id.adapter_luid
                && paths[p].target_id == layout[i].display_id.target_id {
            let p = choose|p: int|
                0 <= p < paths.len() && (#[trigger] paths[p]).flags & 1u32 != 0
                    && paths[p].adapter_luid == layout[i].display_id.adapter_luid
                    && paths[p].target_id == layout[i].display_id.target_id;
            assert(crate::topology::path_is_active(paths[p]));
        }
    }
    reveal_strlit("refusing to apply layout with all displays disabled");
    assert(all_disabled_message() =~= "refusing to apply layout with all displays disabled"@);
    let undriven = exists|i: int|
        0 <= i < layout.len() && (#[trigger] layout[i]).enabled && !(exists|p: int|
            0 <= p < paths.len() && (#[trigger] paths[p]).flags & 1u32 != 0
                && paths[p].adapter_luid == layout[i].display_id.adapter_luid
                && paths[p].target_id == layout[i].display_id.target_id);
    if undriven {
        let i = choose|i: int|
            0 <= i < layout.len() && (#[trigger] layout[i]).enabled && !(exists|p: int|
                0 <= p < paths.len() && (#[trigger] paths[p]).flags & 1u32 != 0
                    && paths[p].adapter_luid == layout[i].display_id.adapter_luid
                    && paths[p].target_id == layout[i].display_id.target_id);
        assert(!crate::topology::target_is_active(paths, layout[i].display_id));
    }
    if enables_inactive(layout, paths) {
        let i = choose|i: int|
            0 <= i < layout.len() && (#[trigger] layout[i]).enabled
                && !crate::topology::target_is_active(paths, layout[i].display_id);
        assert(layout[i].enabled);
    }
}

} // verus!
