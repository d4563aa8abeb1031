//! Topology snapshots and the decisions taken on them before a layout is applied.
use vstd::prelude::*;
use crate::display::{
    copy_displays, copy_vec, DisplayId, DisplayInfo, Layout, ManagerError, OutputConfig,
};

verus! {

/// The flag of a display path that is in use.
pub const PATH_ACTIVE: u32 = 0x1;

/// One display path of the platform's configuration: its flags and the
/// adapter and ids it joins.
#[derive(Clone, Copy, Debug, PartialEq, Eq, Structural)]
pub struct PathInfo {
    pub flags: u32,
    pub adapter_luid: u64,
    pub source_id: u32,
    pub target_id: u32,
}

/// One mode record of the platform's configuration.
#[derive(Clone, Copy, Debug, PartialEq, Eq, Structural)]
pub struct ModeInfo {
    pub info_type: u32,
    pub adapter_luid: u64,
    pub id: u32,
}

/// The platform's display configuration, as queried.
#[derive(Clone, Debug, PartialEq, Eq)]
pub struct RawTopologySnapshot {
    pub paths: Vec<PathInfo>,
    pub modes: Vec<ModeInfo>,
}

/// A queried topology: the platform's configuration, the layout it amounts
/// to, and the displays it shows.
#[derive(Clone, Debug, PartialEq, Eq)]
pub struct TopologySnapshot {
    pub raw: RawTopologySnapshot,
    pub layout: Layout,
    pub displays: Vec<DisplayInfo>,
}

/// What is written to disk after a layout is applied: the displays and the
/// layout, so that displays turned off can still be listed later.
#[derive(Clone, Debug, PartialEq, Eq)]
pub struct PersistedSnapshot {
    pub displays: Vec<DisplayInfo>,
    pub layout: Layout,
}

/// A configuration as plain values.
pub struct RawTopologyView {
    pub paths: Seq<PathInfo>,
    pub modes: Seq<ModeInfo>,
}

/// A snapshot as plain values.
pub struct TopologyView {
    pub raw: RawTopologyView,
    pub layout: Seq<OutputConfig>,
    pub displays: Seq<DisplayInfo>,
}

/// A persisted record as plain values.
pub struct PersistedView {
    pub displays: Seq<DisplayInfo>,
    pub layout: Seq<OutputConfig>,
}

impl View for RawTopologySnapshot {
    type V = RawTopologyView;

    open spec fn view(&self) -> RawTopologyView {
        RawTopologyView { paths: self.paths@, modes: self.modes@ }
    }
}

impl View for TopologySnapshot {
    type V = TopologyView;

    open spec fn view(&self) -> TopologyView {
        TopologyView { raw: self.raw@, layout: self.layout@, displays: self.displays@ }
    }
}

impl View for PersistedSnapshot {
    type V = PersistedView;

    open spec fn view(&self) -> PersistedView {
        PersistedView { displays: self.displays@, layout: self.layout@ }
    }
}

/// The message with which a layout that turns every display off is refused.
pub open spec fn all_disabled_message() -> Seq<char> {
    "refusing to apply layout with all displays disabled"@
}

/// `p` is a path in use.
pub open spec fn path_is_active(p: PathInfo) -> bool {
    p.flags & PATH_ACTIVE != 0
}

/// Some path in use joins the adapter and target of `id`.
pub open spec fn target_is_active(paths: Seq<PathInfo>, id: DisplayId) -> bool {
    exists|i: int|
        0 <= i < paths.len() && path_is_active(#[trigger] paths[i]) && paths[i].adapter_luid
            == id.adapter_luid && paths[i].target_id == id.target_id
}

/// Some output of the layout is enabled.
pub open spec fn has_enabled_output(outputs: Seq<OutputConfig>) -> bool {
    exists|i: int| 0 <= i < outputs.len() && (#[trigger] outputs[i]).enabled
}

/// Some output of the layout is enabled on a target that no path in use joins.
pub open spec fn enables_inactive(outputs: Seq<OutputConfig>, paths: Seq<PathInfo>) -> bool {
    exists|i: int|
        0 <= i < outputs.len() && (#[trigger] outputs[i]).enabled && !target_is_active(
            paths,
            outputs[i].display_id,
        )
}

impl RawTopologySnapshot {
    /// A copy of this configuration.
    pub fn duplicate(&self) -> (r: RawTopologySnapshot)
        ensures
            r@ == self@,
    {
        RawTopologySnapshot { paths: copy_vec(&self.paths), modes: copy_vec(&self.modes) }
    }
}

impl TopologySnapshot {
    /// A copy of this snapshot.
    pub fn duplicate(&self) -> (r: TopologySnapshot)
        ensures
            r@ == self@,
    {
        TopologySnapshot {
            raw: self.raw.duplicate(),
            layout: self.layout.duplicate(),
            displays: copy_displays(&self.displays),
        }
    }
}

/// The targets that the paths in use drive, each once.
pub fn currently_active_targets(paths: &Vec<PathInfo>) -> (r: Vec<DisplayId>)
    ensures
        r@.no_duplicates(),
        forall|id: DisplayId| r@.contains(id) <==> target_is_active(paths@, id),
{
    let mut r: Vec<DisplayId> = Vec::new();
    for i in 0..paths.len()
        invariant
            r@.no_duplicates(),
            forall|id: DisplayId|
                r@.contains(id) <==> target_is_active(paths@.subrange(0, i as int), id),
    {
        let p = paths[i];
        let ghost before = r@;
        let target = DisplayId { adapter_luid: p.adapter_luid, target_id: p.target_id };
        if p.flags & PATH_ACTIVE != 0 && !contains_id(&r, target) {
            r.push(target);
            proof {
                assert forall|x: int, y: int| 0 <= x < r@.len() && 0 <= y < r@.len() && x != y
                    implies r@[x] != r@[y] by {
                    if x < before.len() && y < before.len() {
                    } else if x < before.len() {
                        assert(before[x] == r@[x]);
                        assert(before.contains(r@[x]));
                    } else {
                        assert(before[y] == r@[y]);
                        assert(before.contains(r@[y]));
                    }
                }
            }
        }
        proof {
            let prev = paths@.subrange(0, i as int);
            let next = paths@.subrange(0, i + 1);
            assert forall|id: DisplayId| r@.contains(id) <==> target_is_active(next, id) by {
                if target_is_active(next, id) {
                    let k = choose|k: int|
                        0 <= k < next.len() && path_is_active(#[trigger] next[k])
                            && next[k].adapter_luid == id.adapter_luid && next[k].target_id
                            == id.target_id;
                    if k < i {
                        assert(prev[k] == next[k]);
                        assert(target_is_active(prev, id));
                        assert(before.contains(id));
                        let m = choose|m: int| 0 <= m < before.len() && before[m] == id;
                        assert(r@[m] == id);
                    } else {
                        assert(next[k] == p);
                        assert(target == id);
                        if r@.len() > before.len() {
                            assert(r@[r@.len() - 1] == id);
                        } else {
                            let m = choose|m: int| 0 <= m < before.len() && before[m] == id;
                            assert(r@[m] == id);
                        }
                    }
                }
                if r@.contains(id) {
                    let m = choose|m: int| 0 <= m < r@.len() && r@[m] == id;
                    if m < before.len() {
                        assert(before.contains(id));
                        let k = choose|k: int|
                            0 <= k < prev.len() && path_is_active(#[trigger] prev[k])
                                && prev[k].adapter_luid == id.adapter_luid && prev[k].target_id
                                == id.target_id;
                        assert(next[k] == prev[k]);
                    } else {
                        assert(next[i as int] == p);
                    }
                }
            }
        }
    }
    assert(paths@.subrange(0, paths@.len() as int) == paths@);
    r
}

/// Whether some output of the layout is enabled.
pub fn layout_has_enabled_output(layout: &Layout) -> (r: bool)
    ensures
        r == has_enabled_output(layout.outputs@),
{
    for i in 0..layout.outputs.len()
        invariant
            forall|j: int| 0 <= j < i ==> !(#[trigger] layout.outputs@[j]).enabled,
    {
        if layout.outputs[i].enabled {
            return true;
        }
    }
    false
}

/// Whether the layout enables an output on a target that is not driven now,
/// given the targets that are.
pub fn needs_to_enable_inactive(layout: &Layout, active: &Vec<DisplayId>) -> (r: bool)
    ensures
        r == exists|i: int|
            0 <= i < layout.outputs@.len() && (#[trigger] layout.outputs@[i]).enabled
                && !active@.contains(layout.outputs@[i].display_id),
{
    for i in 0..layout.outputs.len()
        invariant
            forall|j: int|
                0 <= j < i ==> !((#[trigger] layout.outputs@[j]).enabled
                    && !active@.contains(layout.outputs@[j].display_id)),
    {
        let o = layout.outputs[i];
        if o.enabled && !contains_id(active, o.display_id) {
            return true;
        }
    }
    false
}

/// Whether `ids` holds `id`.
pub fn contains_id(ids: &Vec<DisplayId>, id: DisplayId) -> (r: bool)
    ensures
        r == ids@.contains(id),
{
    for i in 0..ids.len()
        invariant
            forall|j: int| 0 <= j < i ==> ids@[j] != id,
    {
        if ids[i] == id {
            return true;
        }
    }
    false
}

/// The record written to disk for a topology.
pub fn persisted_snapshot(snapshot: &TopologySnapshot) -> (r: PersistedSnapshot)
    ensures
        r@ == (PersistedView { displays: snapshot@.displays, layout: snapshot@.layout }),
{
    PersistedSnapshot {
        displays: copy_displays(&snapshot.displays),
        layout: snapshot.layout.duplicate(),
    }
}

/// The refusal of a layout that turns every display off.
pub fn all_disabled_error() -> (e: ManagerError)
    ensures
        e matches ManagerError::Backend(m) && m@ == all_disabled_message(),
{
    let m = "refusing to apply layout with all displays disabled";
    proof {
        reveal_strlit("refusing to apply layout with all displays disabled");
    }
    ManagerError::Backend(m.to_owned())
}

} // verus!
