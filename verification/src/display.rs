//! Displays, layouts and profiles as the backend sees them.
use vstd::prelude::*;

verus! {

/// Identifies one display target: the adapter's LUID and the target id on it.
#[derive(Clone, Copy, Debug, PartialEq, Eq, Structural)]
pub struct DisplayId {
    pub adapter_luid: u64,
    pub target_id: u32,
}

/// A display as it is listed to the user.
#[derive(Clone, Debug, PartialEq, Eq)]
pub struct DisplayInfo {
    pub id: DisplayId,
    pub name: String,
    pub is_active: bool,
}

/// One output of a layout: which display, and whether it is to be on.
#[derive(Clone, Copy, Debug, PartialEq, Eq, Structural)]
pub struct OutputConfig {
    pub display_id: DisplayId,
    pub enabled: bool,
}

/// A layout: the outputs the user asks for.
#[derive(Clone, Debug, PartialEq, Eq)]
pub struct Layout {
    pub outputs: Vec<OutputConfig>,
}

/// A stored display profile.
#[derive(Clone, Debug, PartialEq, Eq)]
pub struct Profile {
    pub name: String,
    pub layout: Layout,
}

/// The error a backend operation ends with.
#[derive(Clone, Debug, PartialEq, Eq)]
pub enum ManagerError {
    Backend(String),
}

impl ManagerError {
    /// The error's message, as it is shown to the user.
    pub fn message(&self) -> (r: String)
        ensures
            match self {
                ManagerError::Backend(m) => r@ == m@,
            },
    {
        match self {
            ManagerError::Backend(m) => m.clone(),
        }
    }
}

/// An error as plain values.
pub enum ErrorView {
    Backend(Seq<char>),
}

impl View for ManagerError {
    type V = ErrorView;

    open spec fn view(&self) -> ErrorView {
        match self {
            ManagerError::Backend(m) => ErrorView::Backend(m@),
        }
    }
}

impl DisplayInfo {
    /// A copy of this display.
    pub fn duplicate(&self) -> (r: DisplayInfo)
        ensures
            r == *self,
    {
        DisplayInfo { id: self.id, name: self.name.clone(), is_active: self.is_active }
    }
}

impl View for Layout {
    type V = Seq<OutputConfig>;

    open spec fn view(&self) -> Seq<OutputConfig> {
        self.outputs@
    }
}

impl Layout {
    /// A copy of this layout.
    pub fn duplicate(&self) -> (r: Layout)
        ensures
            r@ == self@,
    {
        Layout { outputs: copy_vec(&self.outputs) }
    }
}

/// A copy of a vector of plain values.
pub fn copy_vec<T: Copy>(v: &Vec<T>) -> (r: Vec<T>)
    ensures
        r@ == v@,
{
    let mut r: Vec<T> = Vec::new();
    for i in 0..v.len()
        invariant
            r@ == v@.subrange(0, i as int),
    {
        r.push(v[i]);
    }
    assert(v@.subrange(0, v@.len() as int) == v@);
    r
}

/// A copy of a list of displays.
pub fn copy_displays(v: &Vec<DisplayInfo>) -> (r: Vec<DisplayInfo>)
    ensures
        r@ == v@,
{
    let mut r: Vec<DisplayInfo> = Vec::new();
    for i in 0..v.len()
        invariant
            r@ == v@.subrange(0, i as int),
    {
        r.push(v[i].duplicate());
    }
    assert(v@.subrange(0, v@.len() as int) == v@);
    r
}

/// `displays` lists a display with the id `id`.
pub open spec fn has_display_id(displays: Seq<DisplayInfo>, id: DisplayId) -> bool {
    exists|i: int| 0 <= i < displays.len() && #[trigger] displays[i].id == id
}

/// `d` as it is listed when it is off.
pub open spec fn as_inactive(d: DisplayInfo) -> DisplayInfo {
    DisplayInfo { id: d.id, name: d.name, is_active: false }
}

/// The remembered displays that the active list does not show, each marked
/// inactive, in the order they were remembered.
pub open spec fn inactive_additions(active: Seq<DisplayInfo>, remembered: Seq<DisplayInfo>) -> Seq<
    DisplayInfo,
>
    decreases remembered.len(),
{
    if remembered.len() == 0 {
        seq![]
    } else {
        let rest = inactive_additions(active, remembered.drop_last());
        let d = remembered.last();
        if has_display_id(active, d.id) {
            rest
        } else {
            rest.push(as_inactive(d))
        }
    }
}

/// The displays listed to the user: the active ones, then, when a remembered
/// list could be read, the remembered displays that are not active, marked off.
pub open spec fn listed_displays(active: Seq<DisplayInfo>, remembered: Option<Seq<DisplayInfo>>) -> Seq<
    DisplayInfo,
> {
    match remembered {
        Some(r) => active + inactive_additions(active, r),
        None => active,
    }
}

/// The contents of an optional list.
pub open spec fn seq_of<T>(v: Option<Vec<T>>) -> Option<Seq<T>> {
    match v {
        Some(v) => Some(v@),
        None => None,
    }
}

/// Whether `displays` lists a display with the id `id`.
pub fn contains_display_id(displays: &Vec<DisplayInfo>, id: DisplayId) -> (r: bool)
    ensures
        r == has_display_id(displays@, id),
{
    for i in 0..displays.len()
        invariant
            forall|j: int| 0 <= j < i ==> displays@[j].id != id,
    {
        if displays[i].id == id {
            return true;
        }
    }
    false
}

/// The active displays followed by the remembered displays that are not
/// active, each marked inactive, so that they can be shown as off and turned
/// back on.
pub fn list_with_known_inactive(active: Vec<DisplayInfo>, remembered: Option<Vec<DisplayInfo>>) -> (r:
    Vec<DisplayInfo>)
    ensures
        r@ == listed_displays(active@, seq_of(remembered)),
{
    match remembered {
        None => active,
        Some(remembered) => {
            let mut all = copy_displays(&active);
            let n = remembered.len();
            for i in 0..n
                invariant
                    n == remembered@.len(),
                    all@ == active@ + inactive_additions(active@, remembered@.subrange(0, i as int)),
            {
                let d = &remembered[i];
                assert(remembered@.subrange(0, i + 1).drop_last() == remembered@.subrange(0, i as int));
                if !contains_display_id(&active, d.id) {
                    all.push(DisplayInfo { id: d.id, name: d.name.clone(), is_active: false });
                }
            }
            assert(remembered@.subrange(0, n as int) == remembered@);
            all
        },
    }
}

proof fn lemma_inactive_additions(active: Seq<DisplayInfo>, remembered: Seq<DisplayInfo>)
    ensures
        forall|j: int|
            0 <= j < inactive_additions(active, remembered).len() ==> {
                let a = #[trigger] inactive_additions(active, remembered)[j];
                &&& !a.is_active
                &&& !has_display_id(active, a.id)
                &&& exists|k: int| 0 <= k < remembered.len() && a == as_inactive(#[trigger] remembered[k])
            },
        forall|k: int|
            0 <= k < remembered.len() && !has_display_id(active, #[trigger] remembered[k].id)
                ==> inactive_additions(active, remembered).contains(as_inactive(remembered[k])),
    decreases remembered.len(),
{
    if remembered.len() > 0 {
        let prefix = remembered.drop_last();
        lemma_inactive_additions(active, prefix);
        let rest = inactive_additions(active, prefix);
        let adds = inactive_additions(active, remembered);
        assert forall|j: int| 0 <= j < adds.len() implies {
            let a = #[trigger] adds[j];
            &&& !a.is_active
            &&& !has_display_id(active, a.id)
            &&& exists|k: int| 0 <= k < remembered.len() && a == as_inactive(#[trigger] remembered[k])
        } by {
            if j < rest.len() {
                assert(adds[j] == rest[j]);
                let k = choose|k: int| 0 <= k < prefix.len() && rest[j] == as_inactive(#[trigger] prefix[k]);
                assert(remembered[k] == prefix[k]);
            } else {
                assert(remembered[remembered.len() - 1] == remembered.last());
            }
        }
        assert forall|k: int|
            0 <= k < remembered.len() && !has_display_id(active, #[trigger] remembered[k].id)
            implies adds.contains(as_inactive(remembered[k])) by {
            if k < prefix.len() {
                assert(prefix[k] == remembered[k]);
                let j = choose|j: int| 0 <= j < rest.len() && rest[j] == as_inactive(prefix[k]);
                assert(adds[j] == rest[j]);
            } else {
                assert(remembered[k] == remembered.last());
                assert(adds[adds.len() - 1] == as_inactive(remembered[k]));
            }
        }
    }
}

/// Listing displays keeps every active display, unchanged and in its place,
/// at the front of the list; what follows is never an active display: each
/// one is a remembered display whose id no active display has, marked off;
/// and every remembered display that is not active is listed, marked off.
pub proof fn law_listing_keeps_active_and_adds_known_inactive(
    active: Seq<DisplayInfo>,
    remembered: Seq<DisplayInfo>,
)
    ensures
        ({
            let listed = listed_displays(active, Some(remembered));
            &&& listed.len() >= active.len()
            &&& forall|i: int| 0 <= i < active.len() ==> #[trigger] listed[i] == active[i]
            &&& forall|j: int|
                active.len() <= j < listed.len() ==> {
                    &&& !(#[trigger] listed[j]).is_active
                    &&& !has_display_id(active, listed[j].id)
                    &&& exists|k: int|
                        0 <= k < remembered.len() && listed[j] == (DisplayInfo { id: (#[trigger] remembered[k]).id, name: remembered[k].name, is_active: false })
                }
            &&& forall|k: int|
                0 <= k < remembered.len() && !has_display_id(active, #[trigger] remembered[k].id)
                    ==> listed.contains(DisplayInfo { id: remembered[k].id, name: remembered[k].name, is_active: false })
        }),
{
    lemma_inactive_additions(active, remembered);
    let adds = inactive_additions(active, remembered);
    let listed = listed_displays(active, Some(remembered));
    assert forall|j: int| active.len() <= j < listed.len() implies {
        &&& !(#[trigger] listed[j]).is_active
        &&& !has_display_id(active, listed[j].id)
        &&& exists|k: int| 0 <= k < remembered.len() && listed[j] == as_inactive(#[trigger] remembered[k])
    } by {
        assert(listed[j] == adds[j - active.len()]);
    }
    assert forall|k: int|
        0 <= k < remembered.len() && !has_display_id(active, #[trigger] remembered[k].id)
        implies listed.contains(as_inactive(remembered[k])) by {
        let j = choose|j: int| 0 <= j < adds.len() && adds[j] == as_inactive(remembered[k]);
        assert(listed[active.len() + j] == adds[j]);
    }
}

} // verus!
