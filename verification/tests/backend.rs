use kaiser::apply::{
    ApplyLayoutAction, ApplyLayoutEvent, ApplyLayoutRun, REDISCOVERY_SETTLE_MILLIS,
};
use kaiser::backend::{BackendCache, KaiserBackend, TopologyReading, SNAPSHOT_FILE_NAME};
use kaiser::display::{DisplayId, DisplayInfo, Layout, ManagerError, OutputConfig};
use kaiser::gamma::{GammaCache, GammaRamp, GammaRampKey};
use kaiser::topology::{PathInfo, PersistedSnapshot, RawTopologySnapshot, TopologySnapshot};

fn id(luid: u64, target: u32) -> DisplayId {
    DisplayId { adapter_luid: luid, target_id: target }
}

fn key(luid: u64, source: u32) -> GammaRampKey {
    GammaRampKey { adapter_luid: luid, source_id: source }
}

fn ramp(first: u16, identity: bool) -> GammaRamp {
    GammaRamp { words: vec![first, first + 1, first + 2], looks_identity: identity }
}

fn topology(active_targets: &[(u64, u32)], enabled: &[(u64, u32, bool)]) -> TopologySnapshot {
    TopologySnapshot {
        raw: RawTopologySnapshot {
            paths: active_targets
                .iter()
                .map(|&(l, t)| PathInfo { flags: 1, adapter_luid: l, source_id: 0, target_id: t })
                .collect(),
            modes: Vec::new(),
        },
        layout: Layout {
            outputs: enabled
                .iter()
                .map(|&(l, t, e)| OutputConfig { display_id: id(l, t), enabled: e })
                .collect(),
        },
        displays: active_targets
            .iter()
            .map(|&(l, t)| DisplayInfo { id: id(l, t), name: format!("D{}", t), is_active: true })
            .collect(),
    }
}

fn cache_of(entries: Vec<(GammaRampKey, GammaRamp)>) -> GammaCache {
    let mut c = GammaCache::new();
    for (k, r) in entries {
        c.insert(k, r);
    }
    c
}

fn reading(snapshot: TopologySnapshot, sig: &str, ramps: GammaCache) -> TopologyReading {
    TopologyReading { snapshot, color_signature: sig.to_string(), sdr_ramps: ramps }
}

fn layout(outputs: &[(u64, u32, bool)]) -> Layout {
    Layout {
        outputs: outputs.iter().map(|&(l, t, e)| OutputConfig { display_id: id(l, t), enabled: e }).collect(),
    }
}

#[test]
fn new_backend_has_nothing_cached() {
    let b = KaiserBackend::new("C:\\Data\\Kaiser\\topology_snapshot.json".to_string());
    assert!(!b.snapshot_is_cached());
    assert_eq!(b.color_state_signature(), None);
    assert_eq!(b.get_layout(), None);
    assert_eq!(b.list_displays(None), None);
    assert_eq!(b.sdr_gamma_cache().len(), 0);
    assert_eq!(b.snapshot_path(), "C:\\Data\\Kaiser\\topology_snapshot.json");
    assert_eq!(SNAPSHOT_FILE_NAME, "topology_snapshot.json");
    let c = BackendCache::new();
    assert!(c.last_snapshot.is_none() && c.last_color_state_signature.is_none());
}

#[test]
fn failed_query_is_returned_and_nothing_cached() {
    let mut b = KaiserBackend::new("p".to_string());
    let err = ManagerError::Backend("no displays".to_string());
    assert_eq!(b.ensure_snapshot(Err(err.clone())), Err(err));
    assert!(!b.snapshot_is_cached());
}

#[test]
fn topology_is_queried_once() {
    let mut b = KaiserBackend::new("p".to_string());
    let first = topology(&[(1, 10)], &[(1, 10, true)]);
    assert_eq!(b.ensure_snapshot(Ok(reading(first.clone(), "sig-a", cache_of(vec![(key(1, 0), ramp(5, false))])))), Ok(()));
    assert!(b.snapshot_is_cached());
    assert_eq!(b.color_state_signature(), Some("sig-a".to_string()));
    assert_eq!(b.get_layout(), Some(first.layout.clone()));
    assert_eq!(b.sdr_gamma_cache().get(key(1, 0)), Some(&ramp(5, false)));
    let second = topology(&[(2, 20)], &[(2, 20, true)]);
    assert_eq!(b.ensure_snapshot(Ok(reading(second, "sig-b", GammaCache::new()))), Ok(()));
    assert_eq!(b.ensure_snapshot(Err(ManagerError::Backend("x".to_string()))), Ok(()));
    assert_eq!(b.cached_snapshot(), Some(first));
    assert_eq!(b.color_state_signature(), Some("sig-a".to_string()));
}

#[test]
fn listing_through_the_backend() {
    let mut b = KaiserBackend::new("p".to_string());
    b.ensure_snapshot(Ok(reading(topology(&[(1, 10)], &[(1, 10, true)]), "s", GammaCache::new()))).unwrap();
    let remembered = vec![
        DisplayInfo { id: id(1, 10), name: "D10".to_string(), is_active: true },
        DisplayInfo { id: id(1, 11), name: "Old".to_string(), is_active: true },
    ];
    let listed = b.list_displays(Some(remembered)).unwrap();
    assert_eq!(listed.len(), 2);
    assert!(listed[0].is_active);
    assert_eq!(listed[1], DisplayInfo { id: id(1, 11), name: "Old".to_string(), is_active: false });
}

#[test]
fn signature_change_detection() {
    let mut b = KaiserBackend::new("p".to_string());
    assert!(!b.color_signature_changed(&String::new()));
    assert!(b.color_signature_changed(&"a".to_string()));
    b.ensure_snapshot(Ok(reading(topology(&[], &[]), "a", GammaCache::new()))).unwrap();
    assert!(!b.color_signature_changed(&"a".to_string()));
    assert!(b.color_signature_changed(&"b".to_string()));
    assert!(b.color_signature_changed(&String::new()));
}

#[test]
fn refresh_with_same_signature_keeps_gamma_cache() {
    let mut b = KaiserBackend::new("p".to_string());
    let cached = cache_of(vec![(key(1, 0), ramp(5, false))]);
    b.ensure_snapshot(Ok(reading(topology(&[(1, 10)], &[]), "a", cached.duplicate()))).unwrap();
    let next = topology(&[(1, 11)], &[(1, 11, true)]);
    b.refresh_snapshot(next.clone(), "a".to_string(), cache_of(vec![(key(9, 9), ramp(1, false))]));
    assert_eq!(b.cached_snapshot(), Some(next));
    assert_eq!(b.sdr_gamma_cache(), &cached);
    assert_eq!(b.color_state_signature(), Some("a".to_string()));
}

#[test]
fn refresh_with_new_signature_merges_gamma_cache() {
    let mut b = KaiserBackend::new("p".to_string());
    let cached = cache_of(vec![
        (key(1, 0), ramp(5, false)),
        (key(1, 1), ramp(6, true)),
        (key(1, 2), ramp(7, false)),
    ]);
    b.ensure_snapshot(Ok(reading(topology(&[(1, 10)], &[]), "a", cached))).unwrap();
    let fresh = cache_of(vec![
        (key(1, 2), ramp(70, false)),
        (key(1, 3), ramp(80, true)),
        (key(1, 4), ramp(90, false)),
    ]);
    b.refresh_snapshot(topology(&[(1, 10)], &[]), "b".to_string(), fresh);
    let c = b.sdr_gamma_cache();
    assert_eq!(c.len(), 3);
    assert_eq!(c.get(key(1, 0)), Some(&ramp(5, false)));
    assert_eq!(c.get(key(1, 1)), None);
    assert_eq!(c.get(key(1, 2)), Some(&ramp(70, false)));
    assert_eq!(c.get(key(1, 3)), None);
    assert_eq!(c.get(key(1, 4)), Some(&ramp(90, false)));
    assert_eq!(b.color_state_signature(), Some("b".to_string()));
}

#[test]
fn fresh_identity_ramp_drops_the_cached_one() {
    let old = cache_of(vec![(key(1, 0), ramp(5, false))]);
    let fresh = cache_of(vec![(key(1, 0), ramp(0, true))]);
    let merged = old.merged_with(&fresh);
    assert_eq!(merged.len(), 0);
    assert!(!merged.contains_key(key(1, 0)));
}

#[test]
fn merging_twice_changes_nothing() {
    let old = cache_of(vec![(key(1, 0), ramp(5, false)), (key(2, 0), ramp(1, true))]);
    let fresh = cache_of(vec![(key(3, 0), ramp(9, false))]);
    let once = old.merged_with(&fresh);
    let twice = once.merged_with(&fresh);
    let mut k1 = once.keys();
    let mut k2 = twice.keys();
    k1.sort_by_key(|k| (k.adapter_luid, k.source_id));
    k2.sort_by_key(|k| (k.adapter_luid, k.source_id));
    assert_eq!(k1, k2);
    for k in k1 {
        assert_eq!(once.get(k), twice.get(k));
    }
}

#[test]
fn gamma_insert_replaces_and_lookup_reads_back() {
    let mut c = GammaCache::new();
    c.insert(key(1, 0), ramp(1, false));
    c.insert(key(2, 0), ramp(2, false));
    c.insert(key(1, 0), ramp(3, true));
    assert_eq!(c.len(), 2);
    assert_eq!(c.get(key(1, 0)), Some(&ramp(3, true)));
    assert_eq!(c.get(key(2, 0)), Some(&ramp(2, false)));
    assert_eq!(c.get(key(3, 0)), None);
    assert_eq!(c.keys().len(), 2);
    assert_eq!(ramp(4, false).duplicate(), ramp(4, false));
}

#[test]
fn no_persisted_raw_configuration() {
    let b = KaiserBackend::new("p".to_string());
    assert_eq!(b.load_persisted_snapshot_raw(), None);
}

fn cached_backend(snapshot: TopologySnapshot, sig: &str) -> KaiserBackend {
    let mut b = KaiserBackend::new("p".to_string());
    b.ensure_snapshot(Ok(reading(snapshot, sig, GammaCache::new()))).unwrap();
    b
}

#[test]
fn all_disabled_layout_is_refused() {
    let snap = topology(&[(1, 10)], &[(1, 10, true)]);
    let mut b = cached_backend(snap.clone(), "s");
    let mut run = ApplyLayoutRun::new(layout(&[(1, 10, false)]));
    let action = b.apply_layout(&mut run, ApplyLayoutEvent::Start);
    assert_eq!(
        action,
        ApplyLayoutAction::Finish(Err(ManagerError::Backend(
            "refusing to apply layout with all displays disabled".to_string()
        )))
    );
    assert!(run.is_finished());
    assert_eq!(b.cached_snapshot(), Some(snap));
}

#[test]
fn all_disabled_layout_is_refused_after_query() {
    let mut b = KaiserBackend::new("p".to_string());
    let mut run = ApplyLayoutRun::new(layout(&[]));
    assert_eq!(b.apply_layout(&mut run, ApplyLayoutEvent::Start), ApplyLayoutAction::QueryTopology);
    let snap = topology(&[(1, 10)], &[(1, 10, true)]);
    let action = b.apply_layout(
        &mut run,
        ApplyLayoutEvent::TopologyQueried(Ok(reading(snap.clone(), "s", GammaCache::new()))),
    );
    assert!(matches!(action, ApplyLayoutAction::Finish(Err(ManagerError::Backend(_)))));
    assert_eq!(b.cached_snapshot(), Some(snap));
}

#[test]
fn failed_query_ends_the_run() {
    let mut b = KaiserBackend::new("p".to_string());
    let mut run = ApplyLayoutRun::new(layout(&[(1, 10, true)]));
    assert_eq!(b.apply_layout(&mut run, ApplyLayoutEvent::Start), ApplyLayoutAction::QueryTopology);
    let err = ManagerError::Backend("query failed".to_string());
    let action = b.apply_layout(&mut run, ApplyLayoutEvent::TopologyQueried(Err(err.clone())));
    assert_eq!(action, ApplyLayoutAction::Finish(Err(err)));
    assert!(!b.snapshot_is_cached());
}

#[test]
fn layout_of_active_displays_is_applied_directly() {
    let snap = topology(&[(1, 10), (1, 11)], &[(1, 10, true), (1, 11, true)]);
    let mut b = cached_backend(snap.clone(), "s");
    let wanted = layout(&[(1, 10, true), (1, 11, false)]);
    let mut run = ApplyLayoutRun::new(wanted.clone());
    assert_eq!(b.apply_layout(&mut run, ApplyLayoutEvent::Start), ApplyLayoutAction::ApplyAgainst(snap));
    assert_eq!(run.layout(), &wanted);
    let next = topology(&[(1, 10)], &[(1, 10, true), (1, 11, false)]);
    let action = b.apply_layout(&mut run, ApplyLayoutEvent::LayoutApplied(Ok(next.clone())));
    assert_eq!(
        action,
        ApplyLayoutAction::PersistAndRecalibrate(PersistedSnapshot {
            displays: next.displays.clone(),
            layout: next.layout.clone(),
        })
    );
    assert_eq!(run.applied_topology(), Some(&next));
    let action = b.apply_layout(&mut run, ApplyLayoutEvent::Recalibrated("s".to_string()));
    assert_eq!(action, ApplyLayoutAction::Finish(Ok(())));
    assert!(run.is_finished());
    assert_eq!(b.cached_snapshot(), Some(next));
}

#[test]
fn enabling_inactive_display_rediscovers_first() {
    let snap = topology(&[(1, 10)], &[(1, 10, true)]);
    let mut b = cached_backend(snap.clone(), "s");
    let mut run = ApplyLayoutRun::new(layout(&[(1, 10, true), (1, 11, true)]));
    assert_eq!(
        b.apply_layout(&mut run, ApplyLayoutEvent::Start),
        ApplyLayoutAction::RediscoverTopology { settle_millis: 1500 }
    );
    assert_eq!(REDISCOVERY_SETTLE_MILLIS, 1500);
    let found = topology(&[(1, 10), (1, 11)], &[(1, 10, true)]);
    assert_eq!(
        b.apply_layout(&mut run, ApplyLayoutEvent::TopologyRediscovered(Some(found.clone()))),
        ApplyLayoutAction::ApplyAgainst(found)
    );
}

#[test]
fn failed_rediscovery_falls_back_to_cached_topology() {
    let snap = topology(&[(1, 10)], &[(1, 10, true)]);
    let mut b = cached_backend(snap.clone(), "s");
    let mut run = ApplyLayoutRun::new(layout(&[(1, 11, true)]));
    assert!(matches!(
        b.apply_layout(&mut run, ApplyLayoutEvent::Start),
        ApplyLayoutAction::RediscoverTopology { .. }
    ));
    assert_eq!(
        b.apply_layout(&mut run, ApplyLayoutEvent::TopologyRediscovered(None)),
        ApplyLayoutAction::ApplyAgainst(snap)
    );
}

#[test]
fn failed_application_ends_the_run_unchanged() {
    let snap = topology(&[(1, 10)], &[(1, 10, true)]);
    let mut b = cached_backend(snap.clone(), "s");
    let mut run = ApplyLayoutRun::new(layout(&[(1, 10, true)]));
    b.apply_layout(&mut run, ApplyLayoutEvent::Start);
    let err = ManagerError::Backend("SetDisplayConfig failed".to_string());
    assert_eq!(
        b.apply_layout(&mut run, ApplyLayoutEvent::LayoutApplied(Err(err.clone()))),
        ApplyLayoutAction::Finish(Err(err))
    );
    assert_eq!(b.cached_snapshot(), Some(snap));
}

#[test]
fn changed_colour_state_captures_and_merges_ramps() {
    let mut b = KaiserBackend::new("p".to_string());
    b.ensure_snapshot(Ok(reading(
        topology(&[(1, 10)], &[(1, 10, true)]),
        "old",
        cache_of(vec![(key(1, 0), ramp(5, false)), (key(1, 1), ramp(6, false))]),
    )))
    .unwrap();
    let mut run = ApplyLayoutRun::new(layout(&[(1, 10, true)]));
    b.apply_layout(&mut run, ApplyLayoutEvent::Start);
    let next = topology(&[(1, 10)], &[(1, 10, true)]);
    b.apply_layout(&mut run, ApplyLayoutEvent::LayoutApplied(Ok(next.clone())));
    assert_eq!(
        b.apply_layout(&mut run, ApplyLayoutEvent::Recalibrated("new".to_string())),
        ApplyLayoutAction::CaptureSdr
    );
    assert_eq!(run.applied_topology(), Some(&next));
    let fresh = cache_of(vec![(key(1, 1), ramp(60, false)), (key(1, 2), ramp(0, true))]);
    assert_eq!(b.apply_layout(&mut run, ApplyLayoutEvent::SdrCaptured(fresh)), ApplyLayoutAction::Finish(Ok(())));
    assert_eq!(b.cached_snapshot(), Some(next));
    assert_eq!(b.color_state_signature(), Some("new".to_string()));
    let c = b.sdr_gamma_cache();
    assert_eq!(c.len(), 2);
    assert_eq!(c.get(key(1, 0)), Some(&ramp(5, false)));
    assert_eq!(c.get(key(1, 1)), Some(&ramp(60, false)));
    assert_eq!(b.snapshot_path(), "p");
}

#[test]
fn every_run_finishes_within_six_steps() {
    let mut b = KaiserBackend::new("p".to_string());
    let mut run = ApplyLayoutRun::new(layout(&[(1, 10, true), (1, 11, true)]));
    assert_eq!(run.applied_topology(), None);
    let mut event = ApplyLayoutEvent::Start;
    let mut steps = 0;
    loop {
        steps += 1;
        assert!(steps <= 6);
        let action = b.apply_layout(&mut run, event);
        event = match action {
            ApplyLayoutAction::QueryTopology => ApplyLayoutEvent::TopologyQueried(Ok(reading(
                topology(&[(1, 10)], &[(1, 10, true)]),
                "a",
                GammaCache::new(),
            ))),
            ApplyLayoutAction::RediscoverTopology { .. } => ApplyLayoutEvent::TopologyRediscovered(None),
            ApplyLayoutAction::ApplyAgainst(t) => ApplyLayoutEvent::LayoutApplied(Ok(t)),
            ApplyLayoutAction::PersistAndRecalibrate(_) => ApplyLayoutEvent::Recalibrated("b".to_string()),
            ApplyLayoutAction::CaptureSdr => ApplyLayoutEvent::SdrCaptured(GammaCache::new()),
            ApplyLayoutAction::Finish(r) => {
                assert_eq!(r, Ok(()));
                break;
            }
        };
    }
    assert_eq!(steps, 6);
    assert!(run.is_finished());
    assert_eq!(b.color_state_signature(), Some("b".to_string()));
}

#[test]
fn empty_signature_on_empty_backend_counts_as_unchanged() {
    let mut b = KaiserBackend::new("p".to_string());
    let snap = topology(&[(1, 10)], &[(1, 10, true)]);
    b.refresh_snapshot(snap.clone(), String::new(), cache_of(vec![(key(1, 0), ramp(5, false))]));
    assert_eq!(b.cached_snapshot(), Some(snap.clone()));
    assert_eq!(b.color_state_signature(), None);
    assert_eq!(b.sdr_gamma_cache().len(), 0);
    assert_eq!(b.ensure_snapshot(Err(ManagerError::Backend("x".to_string()))), Ok(()));
    let next = topology(&[(2, 20)], &[]);
    b.refresh_snapshot(next.clone(), "s".to_string(), cache_of(vec![(key(1, 0), ramp(5, false))]));
    assert_eq!(b.cached_snapshot(), Some(next));
    assert_eq!(b.color_state_signature(), Some("s".to_string()));
    assert_eq!(b.sdr_gamma_cache().get(key(1, 0)), Some(&ramp(5, false)));
}
