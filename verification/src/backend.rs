//! The Kaiser display backend: the cached topology, colour-state signature
//! and SDR gamma ramps, and the operations on them.
use vstd::prelude::*;
use crate::display::{
    list_with_known_inactive, listed_displays, seq_of, DisplayInfo, Layout, ManagerError,
    OutputConfig,
};
use crate::gamma::{merged_sdr_cache, GammaCache, GammaRampKey, GammaRampView};
use crate::topology::{RawTopologySnapshot, TopologySnapshot, TopologyView};

verus! {

/// The name of the file, in the application's data directory, that holds the
/// persisted snapshot.
pub const SNAPSHOT_FILE_NAME: &'static str = "topology_snapshot.json";

/// What one query of the platform gives: the topology, the signature of the
/// colour state of its active displays, and their SDR gamma ramps.
#[derive(Debug, PartialEq, Eq)]
pub struct TopologyReading {
    pub snapshot: TopologySnapshot,
    pub color_signature: String,
    pub sdr_ramps: GammaCache,
}

/// What the backend keeps between calls.
#[derive(Debug)]
pub struct BackendCache {
    pub last_snapshot: Option<TopologySnapshot>,
    pub last_color_state_signature: Option<String>,
    pub sdr_gamma_cache: GammaCache,
}

impl BackendCache {
    /// An empty cache: no snapshot, no signature, no ramps.
    pub fn new() -> (r: BackendCache)
        ensures
            r.last_snapshot is None,
            r.last_color_state_signature is None,
            r.sdr_gamma_cache@ == Map::<GammaRampKey, GammaRampView>::empty(),
    {
        BackendCache {
            last_snapshot: None,
            last_color_state_signature: None,
            sdr_gamma_cache: GammaCache::new(),
        }
    }
}

/// The backend's state as plain values.
pub struct BackendView {
    pub snapshot: Option<TopologyView>,
    pub color_signature: Option<Seq<char>>,
    pub sdr_cache: Map<GammaRampKey, GammaRampView>,
    pub snapshot_path: Seq<char>,
}

/// The contents of an optional string.
pub open spec fn chars_of(s: Option<String>) -> Option<Seq<char>> {
    match s {
        Some(s) => Some(s@),
        None => None,
    }
}

/// The contents of an optional snapshot.
pub open spec fn topology_of(s: Option<TopologySnapshot>) -> Option<TopologyView> {
    match s {
        Some(s) => Some(s@),
        None => None,
    }
}

/// The signature that a new one is compared with: the cached one, or the
/// empty string when none is cached.
pub open spec fn signature_or_empty(sig: Option<Seq<char>>) -> Seq<char> {
    match sig {
        Some(s) => s,
        None => Seq::empty(),
    }
}

/// The backend after a query result is offered to it: a cached snapshot is
/// kept and the result ignored; otherwise a successful query is stored.
pub open spec fn after_ensure(b: BackendView, reading: Result<TopologyReading, ManagerError>) -> BackendView {
    if b.snapshot is Some {
        b
    } else {
        match reading {
            Ok(r) => BackendView {
                snapshot: Some(r.snapshot@),
                color_signature: Some(r.color_signature@),
                sdr_cache: r.sdr_ramps@,
                snapshot_path: b.snapshot_path,
            },
            Err(_) => b,
        }
    }
}

/// The backend after the applied topology `snapshot` with colour-state
/// signature `sig` is recorded: the snapshot always replaces the cached one;
/// when the signature differs from the cached one (or from the empty string
/// when none is cached), it replaces it and the gamma cache is merged with
/// the fresh capture `fresh`; otherwise both stay as they were.
pub open spec fn after_refresh(
    b: BackendView,
    snapshot: TopologyView,
    sig: Seq<char>,
    fresh: Map<GammaRampKey, GammaRampView>,
) -> BackendView {
    if sig != signature_or_empty(b.color_signature) {
        BackendView {
            snapshot: Some(snapshot),
            color_signature: Some(sig),
            sdr_cache: merged_sdr_cache(b.sdr_cache, fresh),
            snapshot_path: b.snapshot_path,
        }
    } else {
        BackendView { snapshot: Some(snapshot), ..b }
    }
}

/// A backend's cached topology comes with its colour-state signature. Every
/// topology stored by a query does; a topology recorded on a backend with no
/// signature cached, under an empty signature, does not.
pub open spec fn well_formed(b: BackendView) -> bool {
    b.snapshot is Some ==> b.color_signature is Some
}

/// The Kaiser display backend.
pub struct KaiserBackend {
    cache: BackendCache,
    snapshot_path: String,
}

impl View for KaiserBackend {
    type V = BackendView;

    closed spec fn view(&self) -> BackendView {
        BackendView {
            snapshot: topology_of(self.cache.last_snapshot),
            color_signature: chars_of(self.cache.last_color_state_signature),
            sdr_cache: self.cache.sdr_gamma_cache@,
            snapshot_path: self.snapshot_path@,
        }
    }
}

impl KaiserBackend {
    /// A backend with nothing cached, that persists its snapshot at `snapshot_path`.
    pub fn new(snapshot_path: String) -> (r: KaiserBackend)
        ensures
            r@ == (BackendView {
                snapshot: None,
                color_signature: None,
                sdr_cache: Map::empty(),
                snapshot_path: snapshot_path@,
            }),
    {
        KaiserBackend { cache: BackendCache::new(), snapshot_path }
    }

    /// Where the snapshot is persisted.
    pub fn snapshot_path(&self) -> (r: &String)
        ensures
            r@ == self@.snapshot_path,
    {
        &self.snapshot_path
    }

    /// Whether a topology is cached, so that no query is needed.
    pub fn snapshot_is_cached(&self) -> (r: bool)
        ensures
            r == self@.snapshot is Some,
    {
        self.cache.last_snapshot.is_some()
    }

    /// Makes sure a topology is cached. With one cached, nothing changes and
    /// the query result is not looked at; otherwise a failed query is
    /// returned as the error and a successful one is stored with its
    /// signature and SDR ramps.
    pub fn ensure_snapshot(&mut self, reading: Result<TopologyReading, ManagerError>) -> (r: Result<
        (),
        ManagerError,
    >)
        ensures
            final(self)@ == after_ensure(old(self)@, reading),
            old(self)@.snapshot is Some ==> r is Ok,
            old(self)@.snapshot is None ==> match reading {
                Ok(_) => r is Ok,
                Err(e) => r == Err::<(), ManagerError>(e),
            },
            final(self)@.snapshot is Some <==> r is Ok,
            old(self)@.snapshot is None && r is Ok ==> final(self)@.color_signature is Some,
            well_formed(old(self)@) ==> well_formed(final(self)@),
            old(self)@.snapshot is None ==> (reading matches Ok(q) ==> {
                &&& final(self)@.snapshot == Some(q.snapshot@)
                &&& final(self)@.color_signature == Some(q.color_signature@)
                &&& final(self)@.sdr_cache == q.sdr_ramps@
                &&& final(self)@.snapshot_path == old(self)@.snapshot_path
            }),
    {
        if self.cache.last_snapshot.is_some() {
            return Ok(());
        }
        match reading {
            Err(e) => Err(e),
            Ok(reading) => {
                self.cache.last_color_state_signature = Some(reading.color_signature);
                self.cache.sdr_gamma_cache = reading.sdr_ramps;
                self.cache.last_snapshot = Some(reading.snapshot);
                Ok(())
            },
        }
    }

    /// The colour-state signature of the cached topology, if one was queried.
    pub fn color_state_signature(&self) -> (r: Option<String>)
        ensures
            chars_of(r) == self@.color_signature,
    {
        match &self.cache.last_color_state_signature {
            Some(s) => Some(s.clone()),
            None => None,
        }
    }

    /// A copy of the cached topology, if one is cached.
    pub fn cached_snapshot(&self) -> (r: Option<TopologySnapshot>)
        ensures
            topology_of(r) == self@.snapshot,
    {
        match &self.cache.last_snapshot {
            Some(s) => Some(s.duplicate()),
            None => None,
        }
    }

    /// The cached SDR gamma ramps, with which calibration is reapplied.
    pub fn sdr_gamma_cache(&self) -> (r: &GammaCache)
        ensures
            r@ == self@.sdr_cache,
    {
        &self.cache.sdr_gamma_cache
    }

    /// The layout of the cached topology, if one is cached.
    pub fn get_layout(&self) -> (r: Option<Layout>)
        ensures
            match self@.snapshot {
                Some(s) => r matches Some(l) && l@ == s.layout,
                None => r is None,
            },
    {
        match &self.cache.last_snapshot {
            Some(s) => Some(s.layout.duplicate()),
            None => None,
        }
    }

    /// The displays to list, if a topology is cached: its displays, then,
    /// when the persisted list `remembered` could be read, the remembered
    /// displays that are not active, marked off.
    pub fn list_displays(&self, remembered: Option<Vec<DisplayInfo>>) -> (r: Option<Vec<DisplayInfo>>)
        ensures
            match self@.snapshot {
                Some(s) => r matches Some(v) && v@ == listed_displays(s.displays, seq_of(remembered)),
                None => r is None,
            },
    {
        match &self.cache.last_snapshot {
            Some(s) => {
                let active = crate::display::copy_displays(&s.displays);
                Some(list_with_known_inactive(active, remembered))
            },
            None => None,
        }
    }

    /// Whether `new_signature` differs from the cached colour-state
    /// signature (or from the empty string when none is cached), in which
    /// case the SDR ramps must be captured again.
    pub fn color_signature_changed(&self, new_signature: &String) -> (r: bool)
        ensures
            r == (new_signature@ != signature_or_empty(self@.color_signature)),
    {
        match &self.cache.last_color_state_signature {
            Some(s) => !new_signature.eq(s),
            None => {
                let empty = new_signature.as_str().is_empty();
                proof {
                    if empty {
                        assert(new_signature@ =~= Seq::<char>::empty());
                    }
                }
                !empty
            },
        }
    }

    /// Records the applied topology `snapshot`, whose colour-state signature
    /// is `new_signature`. When the signature changed, `fresh_sdr` is the
    /// capture of its SDR ramps and is merged into the gamma cache (it is not
    /// looked at otherwise).
    pub fn refresh_snapshot(
        &mut self,
        snapshot: TopologySnapshot,
        new_signature: String,
        fresh_sdr: GammaCache,
    )
        ensures
            final(self)@ == after_refresh(old(self)@, snapshot@, new_signature@, fresh_sdr@),
    {
        if self.color_signature_changed(&new_signature) {
            let merged = self.cache.sdr_gamma_cache.merged_with(&fresh_sdr);
            self.cache.sdr_gamma_cache = merged;
            self.cache.last_color_state_signature = Some(new_signature);
        }
        self.cache.last_snapshot = Some(snapshot);
    }

    /// A persisted configuration with paths to inactive monitors. The raw
    /// platform records cannot be persisted, so there never is one: the
    /// caller falls back to rediscovering the topology.
    pub fn load_persisted_snapshot_raw(&self) -> (r: Option<RawTopologySnapshot>)
        ensures
            r is None,
    {
        None
    }
}

/// The topology is queried at most once: once a query has been stored, any
/// later query result offered is ignored and the backend stays as it is.
pub proof fn law_topology_is_queried_once(
    b: BackendView,
    first: Result<TopologyReading, ManagerError>,
    later: Result<TopologyReading, ManagerError>,
)
    requires
        after_ensure(b, first).snapshot is Some,
    ensures
        after_ensure(after_ensure(b, first), later) == after_ensure(b, first),
{
}

/// Recording an applied topology always makes it the cached topology and
/// never moves the snapshot file. When its colour-state signature is the one
/// cached, the signature and the gamma cache stay as they were. When it
/// differs, the new signature is cached, the gamma cache holds no ramp that
/// looks like identity, every captured ramp that does not look like identity
/// is cached as captured, and every cached ramp that does not look like
/// identity and was not captured again stays cached as it was.
pub proof fn law_refresh_keeps_calibrated_ramps(
    b: BackendView,
    snapshot: TopologyView,
    sig: Seq<char>,
    fresh: Map<GammaRampKey, GammaRampView>,
)
    ensures
        ({
            let after = after_refresh(b, snapshot, sig, fresh);
            &&& after.snapshot == Some(snapshot)
            &&& after.snapshot_path == b.snapshot_path
            &&& sig == signature_or_empty(b.color_signature) ==> {
                &&& after.color_signature == b.color_signature
                &&& after.sdr_cache == b.sdr_cache
            }
            &&& sig != signature_or_empty(b.color_signature) ==> {
                &&& after.color_signature == Some(sig)
                &&& forall|k: GammaRampKey|
                    #[trigger] after.sdr_cache.contains_key(k) ==> !after.sdr_cache[k].looks_identity
                &&& forall|k: GammaRampKey|
                    #[trigger] fresh.contains_key(k) && !fresh[k].looks_identity ==> after.sdr_cache.contains_key(k)
                        && after.sdr_cache[k] == fresh[k]
                &&& forall|k: GammaRampKey|
                    #[trigger] b.sdr_cache.contains_key(k) && !b.sdr_cache[k].looks_identity
                        && !fresh.contains_key(k) ==> after.sdr_cache.contains_key(k)
                        && after.sdr_cache[k] == b.sdr_cache[k]
            }
        }),
{
}

/// Recording a second topology with the same colour-state signature only
/// replaces the cached topology: the gamma cache is the one the first
/// recording left, whatever the second capture holds.
pub proof fn law_refresh_with_same_signature_is_stable(
    b: BackendView,
    first: TopologyView,
    second: TopologyView,
    sig: Seq<char>,
    fresh1: Map<GammaRampKey, GammaRampView>,
    fresh2: Map<GammaRampKey, GammaRampView>,
)
    ensures
        after_refresh(after_refresh(b, first, sig, fresh1), second, sig, fresh2) == (BackendView {
            snapshot: Some(second),
            ..after_refresh(b, first, sig, fresh1)
        }),
{
}

/// Recording a topology keeps a cached topology paired with its signature,
/// unless it is recorded on a backend with nothing cached under an empty
/// signature: then the topology is cached and no signature is, since the
/// empty signature counts as unchanged.
pub proof fn law_refresh_keeps_topology_with_signature(
    b: BackendView,
    snapshot: TopologyView,
    sig: Seq<char>,
    fresh: Map<GammaRampKey, GammaRampView>,
)
    requires
        well_formed(b),
    ensures
        b.color_signature is Some || sig.len() > 0 ==> well_formed(after_refresh(b, snapshot, sig, fresh)),
        b.color_signature is None && sig.len() == 0 ==> {
            let after = after_refresh(b, snapshot, sig, fresh);
            &&& after.snapshot == Some(snapshot)
            &&& after.color_signature is None
            &&& after.sdr_cache == b.sdr_cache
        },
{
    if b.color_signature is None && sig.len() == 0 {
        assert(sig =~= signature_or_empty(b.color_signature));
    }
}

/// On a backend with nothing cached, a successful query is cached exactly
/// as it was read: the platform's paths and modes, the layout and the
/// displays of the topology, its signature and its SDR ramps.
pub proof fn law_query_is_cached_as_read(b: BackendView, q: TopologyReading)
    requires
        b.snapshot is None,
    ensures
        ({
            let after = after_ensure(b, Ok(q));
            &&& after.snapshot is Some
            &&& after.snapshot->0.raw.paths == q.snapshot.raw.paths@
            &&& after.snapshot->0.raw.modes == q.snapshot.raw.modes@
            &&& after.snapshot->0.layout == q.snapshot.layout.outputs@
            &&& after.snapshot->0.displays == q.snapshot.displays@
            &&& after.color_signature == Some(q.color_signature@)
            &&& after.sdr_cache == q.sdr_ramps@
            &&& after.snapshot_path == b.snapshot_path
        }),
{
}

/// When the recorded topology's signature differs from the cached one (or,
/// with none cached, is not empty), a ramp is cached afterwards exactly when
/// the fresh capture holds a ramp for its key that does not look like
/// identity, or the capture holds none for its key and the old cache held
/// one that does not; the fresh ramp wins over the old one. In particular a
/// key whose fresh ramp looks like identity is cached no more, even if a
/// calibrated ramp was cached for it.
pub proof fn law_changed_signature_caches_exactly_the_calibrated_ramps(
    b: BackendView,
    snapshot: TopologyView,
    sig: Seq<char>,
    fresh: Map<GammaRampKey, GammaRampView>,
)
    requires
        sig != match b.color_signature {
            Some(s) => s,
            None => Seq::<char>::empty(),
        },
    ensures
        ({
            let after = after_refresh(b, snapshot, sig, fresh).sdr_cache;
            &&& forall|k: GammaRampKey|
                #[trigger] after.contains_key(k) <==> ((fresh.contains_key(k)
                    && !fresh[k].looks_identity) || (b.sdr_cache.contains_key(k)
                    && !b.sdr_cache[k].looks_identity && !fresh.contains_key(k)))
            &&& forall|k: GammaRampKey|
                #[trigger] after.contains_key(k) ==> after[k] == if fresh.contains_key(k) {
                    fresh[k]
                } else {
                    b.sdr_cache[k]
                }
            &&& forall|k: GammaRampKey|
                #[trigger] fresh.contains_key(k) && fresh[k].looks_identity ==> !after.contains_key(k)
        }),
{
}

} // verus!
