//! The cache of SDR gamma ramps, one per display source, and how a fresh
//! capture is merged into it.
use vstd::prelude::*;
use crate::display::copy_vec;

verus! {

/// The display source a gamma ramp belongs to.
#[derive(Clone, Copy, Debug, PartialEq, Eq, Structural)]
pub struct GammaRampKey {
    pub adapter_luid: u64,
    pub source_id: u32,
}

/// A captured gamma ramp: its words, and whether the capture found it to
/// look like the identity ramp (a ramp that calibration software has reset
/// rather than a calibrated one).
#[derive(Clone, Debug, PartialEq, Eq)]
pub struct GammaRamp {
    pub words: Vec<u16>,
    pub looks_identity: bool,
}

/// A gamma ramp as plain values.
pub struct GammaRampView {
    pub words: Seq<u16>,
    pub looks_identity: bool,
}

impl View for GammaRamp {
    type V = GammaRampView;

    open spec fn view(&self) -> GammaRampView {
        GammaRampView { words: self.words@, looks_identity: self.looks_identity }
    }
}

impl GammaRamp {
    /// A copy of this ramp.
    pub fn duplicate(&self) -> (r: GammaRamp)
        ensures
            r@ == self@,
    {
        GammaRamp { words: copy_vec(&self.words), looks_identity: self.looks_identity }
    }
}

/// No key occurs twice among the entries.
pub open spec fn keys_distinct(entries: Seq<(GammaRampKey, GammaRamp)>) -> bool {
    forall|i: int, j: int|
        0 <= i < entries.len() && 0 <= j < entries.len() && i != j ==> (#[trigger] entries[i]).0
            != (#[trigger] entries[j]).0
}

/// Some entry has the key `k`.
pub open spec fn has_key(entries: Seq<(GammaRampKey, GammaRamp)>, k: GammaRampKey) -> bool {
    exists|i: int| 0 <= i < entries.len() && (#[trigger] entries[i]).0 == k
}

/// The map from key to ramp that the entries hold.
pub open spec fn map_of(entries: Seq<(GammaRampKey, GammaRamp)>) -> Map<GammaRampKey, GammaRampView> {
    Map::new(
        |k: GammaRampKey| has_key(entries, k),
        |k: GammaRampKey|
            entries[choose|i: int| 0 <= i < entries.len() && (#[trigger] entries[i]).0 == k].1@,
    )
}

/// The cache after a capture with a changed colour state: the cached ramps
/// that do not look like identity and that the capture did not replace,
/// together with the captured ramps that do not look like identity.
pub open spec fn merged_sdr_cache(
    cached: Map<GammaRampKey, GammaRampView>,
    fresh: Map<GammaRampKey, GammaRampView>,
) -> Map<GammaRampKey, GammaRampView> {
    Map::new(
        |k: GammaRampKey|
            (cached.contains_key(k) && !cached[k].looks_identity && !fresh.contains_key(k)) || (
            fresh.contains_key(k) && !fresh[k].looks_identity),
        |k: GammaRampKey|
            if fresh.contains_key(k) {
                fresh[k]
            } else {
                cached[k]
            },
    )
}

/// Each of `out[lo..]` is a copy of the entry of `src` that `from` names:
/// an entry below index `bound` that does not look like identity and, when
/// `exclude_other`, whose key `other` does not hold.
spec fn copies_of(
    out: Seq<(GammaRampKey, GammaRamp)>,
    lo: int,
    src: Seq<(GammaRampKey, GammaRamp)>,
    from: Seq<int>,
    bound: int,
    other: Seq<(GammaRampKey, GammaRamp)>,
    exclude_other: bool,
) -> bool {
    &&& from.len() == out.len() - lo
    &&& forall|j: int|
        #![trigger out[j]]
        #![trigger from[j - lo]]
        lo <= j < out.len() ==> {
            &&& 0 <= from[j - lo]
            &&& from[j - lo] < bound
            &&& out[j].0 == src[from[j - lo]].0
            &&& out[j].1@ == src[from[j - lo]].1@
            &&& !src[from[j - lo]].1.looks_identity
            &&& (exclude_other ==> !has_key(other, src[from[j - lo]].0))
        }
}

proof fn lemma_map_of_at(entries: Seq<(GammaRampKey, GammaRamp)>, i: int)
    requires
        keys_distinct(entries),
        0 <= i < entries.len(),
    ensures
        map_of(entries).contains_key(entries[i].0),
        map_of(entries)[entries[i].0] == entries[i].1@,
{
    let k = entries[i].0;
    assert(has_key(entries, k));
    let c = choose|c: int| 0 <= c < entries.len() && (#[trigger] entries[c]).0 == k;
    assert(c == i);
}

/// A cache of gamma ramps with at most one ramp per key.
#[derive(Debug, PartialEq, Eq)]
pub struct GammaCache {
    entries: Vec<(GammaRampKey, GammaRamp)>,
}

impl View for GammaCache {
    type V = Map<GammaRampKey, GammaRampView>;

    closed spec fn view(&self) -> Map<GammaRampKey, GammaRampView> {
        map_of(self.entries@)
    }
}

impl GammaCache {
    #[verifier::type_invariant]
    closed spec fn keys_unique(&self) -> bool {
        keys_distinct(self.entries@)
    }

    /// An empty cache.
    pub fn new() -> (r: GammaCache)
        ensures
            r@ == Map::<GammaRampKey, GammaRampView>::empty(),
    {
        let r = GammaCache { entries: Vec::new() };
        assert(r@ =~= Map::<GammaRampKey, GammaRampView>::empty());
        r
    }

    /// A copy of this cache.
    pub fn duplicate(&self) -> (r: GammaCache)
        ensures
            r@ == self@,
    {
        proof {
            use_type_invariant(self);
        }
        let mut entries: Vec<(GammaRampKey, GammaRamp)> = Vec::new();
        for i in 0..self.entries.len()
            invariant
                keys_distinct(self.entries@),
                entries@.len() == i,
                forall|j: int|
                    0 <= j < i ==> (#[trigger] entries@[j]).0 == self.entries@[j].0 && entries@[j].1@
                        == self.entries@[j].1@,
        {
            entries.push((self.entries[i].0, self.entries[i].1.duplicate()));
        }
        proof {
            let a = entries@;
            let s = self.entries@;
            assert(keys_distinct(a)) by {
                assert forall|x: int, y: int| 0 <= x < a.len() && 0 <= y < a.len() && x != y
                    implies (#[trigger] a[x]).0 != (#[trigger] a[y]).0 by {
                    assert(s[x].0 != s[y].0);
                }
            }
            assert forall|k: GammaRampKey|
                #![trigger map_of(a).dom().contains(k)]
                #![trigger map_of(s).dom().contains(k)]
                (map_of(a).dom().contains(k) <==> map_of(s).dom().contains(k)) && (map_of(
                    a,
                ).dom().contains(k) ==> map_of(a)[k] == map_of(s)[k]) by {
                if map_of(a).contains_key(k) {
                    let j = choose|j: int| 0 <= j < a.len() && (#[trigger] a[j]).0 == k;
                    lemma_map_of_at(a, j);
                    lemma_map_of_at(s, j);
                }
                if map_of(s).contains_key(k) {
                    let j = choose|j: int| 0 <= j < s.len() && (#[trigger] s[j]).0 == k;
                    assert(a[j].0 == k);
                }
            }
            assert(map_of(a) =~= map_of(s));
        }
        GammaCache { entries }
    }

    /// The number of ramps in the cache.
    pub fn len(&self) -> (n: usize)
        ensures
            n == self@.len(),
    {
        proof {
            use_type_invariant(self);
            self.lemma_len();
        }
        self.entries.len()
    }

    proof fn lemma_len(&self)
        requires
            keys_distinct(self.entries@),
        ensures
            self@.len() == self.entries@.len(),
            self@.dom().finite(),
    {
        let s = self.entries@;
        let keys = s.map_values(|e: (GammaRampKey, GammaRamp)| e.0);
        assert(self@.dom() =~= keys.to_set()) by {
            assert forall|k: GammaRampKey| self@.dom().contains(k) implies keys.to_set().contains(k) by {
                let i = choose|i: int| 0 <= i < s.len() && (#[trigger] s[i]).0 == k;
                assert(keys[i] == k);
            }
            assert forall|k: GammaRampKey| keys.to_set().contains(k) implies self@.dom().contains(k) by {
                let i = choose|i: int| 0 <= i < keys.len() && keys[i] == k;
                assert(s[i].0 == k);
            }
        }
        assert(keys.no_duplicates()) by {
            assert forall|i: int, j: int| 0 <= i < keys.len() && 0 <= j < keys.len() && i != j
                implies keys[i] != keys[j] by {
                assert(s[i].0 != s[j].0);
            }
        }
        keys.unique_seq_to_set();
    }

    /// The ramp cached for `key`, if any.
    pub fn get(&self, key: GammaRampKey) -> (r: Option<&GammaRamp>)
        ensures
            match r {
                Some(ramp) => self@.contains_key(key) && self@[key] == ramp@,
                None => !self@.contains_key(key),
            },
    {
        proof {
            use_type_invariant(self);
        }
        for i in 0..self.entries.len()
            invariant
                keys_distinct(self.entries@),
                forall|j: int| 0 <= j < i ==> (#[trigger] self.entries@[j]).0 != key,
        {
            if self.entries[i].0 == key {
                proof {
                    lemma_map_of_at(self.entries@, i as int);
                }
                return Some(&self.entries[i].1);
            }
        }
        None
    }

    /// Whether a ramp is cached for `key`.
    pub fn contains_key(&self, key: GammaRampKey) -> (r: bool)
        ensures
            r == self@.contains_key(key),
    {
        for i in 0..self.entries.len()
            invariant
                forall|j: int| 0 <= j < i ==> (#[trigger] self.entries@[j]).0 != key,
        {
            if self.entries[i].0 == key {
                return true;
            }
        }
        false
    }

    /// The keys of the cached ramps, each once.
    pub fn keys(&self) -> (r: Vec<GammaRampKey>)
        ensures
            r@.no_duplicates(),
            forall|k: GammaRampKey| r@.contains(k) <==> self@.contains_key(k),
    {
        proof {
            use_type_invariant(self);
        }
        let mut r: Vec<GammaRampKey> = Vec::new();
        for i in 0..self.entries.len()
            invariant
                keys_distinct(self.entries@),
                r@.len() == i,
                forall|j: int| 0 <= j < i ==> r@[j] == (#[trigger] self.entries@[j]).0,
        {
            r.push(self.entries[i].0);
        }
        proof {
            assert forall|k: GammaRampKey| r@.contains(k) <==> self@.contains_key(k) by {
                if r@.contains(k) {
                    let j = choose|j: int| 0 <= j < r@.len() && r@[j] == k;
                    assert(self.entries@[j].0 == k);
                }
                if self@.contains_key(k) {
                    let j = choose|j: int| 0 <= j < self.entries@.len() && (#[trigger] self.entries@[j]).0 == k;
                    assert(r@[j] == k);
                }
            }
            assert forall|i: int, j: int| 0 <= i < j < r@.len() implies r@[i] != r@[j] by {
                assert(self.entries@[i].0 != self.entries@[j].0);
            }
        }
        r
    }

    /// Puts `ramp` in the cache for `key`, in place of the ramp cached for it before.
    pub fn insert(&mut self, key: GammaRampKey, ramp: GammaRamp)
        ensures
            final(self)@ == old(self)@.insert(key, ramp@),
    {
        proof {
            use_type_invariant(&*self);
        }
        let ghost before = self.entries@;
        let mut entries: Vec<(GammaRampKey, GammaRamp)> = Vec::new();
        let mut placed = false;
        let n = self.entries.len();
        let mut ramp_slot = Some(ramp);
        let ghost ramp_view = ramp_slot.unwrap()@;
        for i in 0..n
            invariant
                n == self.entries@.len(),
                self.entries@ == before,
                keys_distinct(before),
                entries@.len() == i,
                placed == has_key(before.subrange(0, i as int), key),
                placed <==> ramp_slot is None,
                ramp_slot matches Some(r) ==> r@ == ramp_view,
                forall|j: int|
                    0 <= j < i ==> (#[trigger] entries@[j]).0 == before[j].0 && (if before[j].0
                        == key {
                        entries@[j].1@ == ramp_view
                    } else {
                        entries@[j].1@ == before[j].1@
                    }),
        {
            let k = self.entries[i].0;
            if k == key {
                let r = ramp_slot.take().unwrap();
                entries.push((k, r));
                placed = true;
            } else {
                entries.push((k, self.entries[i].1.duplicate()));
            }
            proof {
                let prev = before.subrange(0, i as int);
                let next = before.subrange(0, i + 1);
                if has_key(next, key) && !has_key(prev, key) {
                    let j = choose|j: int| 0 <= j < next.len() && (#[trigger] next[j]).0 == key;
                    if j < i {
                        assert(prev[j] == next[j]);
                    }
                }
                if has_key(prev, key) {
                    let j = choose|j: int| 0 <= j < prev.len() && (#[trigger] prev[j]).0 == key;
                    assert(next[j] == prev[j]);
                }
                if k == key {
                    assert(next[i as int] == before[i as int]);
                }
                if placed && k == key {
                    assert(has_key(next, key));
                }
            }
        }
        if !placed {
            let r = ramp_slot.take().unwrap();
            entries.push((key, r));
        }
        proof {
            assert(before.subrange(0, n as int) == before);
            assert(keys_distinct(entries@));
            let after = entries@;
            let target = old(self)@.insert(key, ramp_view);
            assert forall|k: GammaRampKey|
                #![trigger map_of(after).dom().contains(k)]
                #![trigger target.dom().contains(k)]
                (map_of(after).dom().contains(k) <==> target.dom().contains(k)) && (map_of(
                    after,
                ).dom().contains(k) ==> map_of(after)[k] == target[k]) by {
                if map_of(after).contains_key(k) {
                    let j = choose|j: int| 0 <= j < after.len() && (#[trigger] after[j]).0 == k;
                    lemma_map_of_at(after, j);
                    if j < n {
                        assert(after[j].0 == before[j].0);
                        if k != key {
                            lemma_map_of_at(before, j);
                        }
                    }
                }
                if target.contains_key(k) {
                    if k == key {
                        if !has_key(before, key) {
                            assert(after[n as int].0 == key);
                        } else {
                            let j = choose|j: int| 0 <= j < before.len() && (#[trigger] before[j]).0 == k;
                            assert(after[j].0 == k);
                        }
                    } else {
                        let j = choose|j: int| 0 <= j < before.len() && (#[trigger] before[j]).0 == k;
                        assert(after[j].0 == k);
                    }
                }
            }
            assert(map_of(after).dom() =~= target.dom());
            assert(map_of(after) =~= target);
        }
        self.entries = entries;
    }

    /// The cache after a capture with a changed colour state: the cached
    /// ramps that do not look like identity and that `fresh` does not
    /// replace, and the ramps of `fresh` that do not look like identity.
    pub fn merged_with(&self, fresh: &GammaCache) -> (r: GammaCache)
        ensures
            r@ == merged_sdr_cache(self@, fresh@),
    {
        proof {
            use_type_invariant(self);
            use_type_invariant(fresh);
        }
        let old_e = &self.entries;
        let new_e = &fresh.entries;
        let mut out: Vec<(GammaRampKey, GammaRamp)> = Vec::new();
        let ghost mut from_old: Seq<int> = seq![];
        let n_old = old_e.len();
        let mut i: usize = 0;
        while i < n_old
            invariant
                n_old == old_e@.len(),
                i <= n_old,
                old_e@ == self.entries@,
                new_e@ == fresh.entries@,
                keys_distinct(old_e@),
                keys_distinct(new_e@),
                keys_distinct(out@),
                copies_of(out@, 0, old_e@, from_old, i as int, new_e@, true),
                forall|m: int|
                    0 <= m < i && !(#[trigger] old_e@[m]).1.looks_identity && !has_key(
                        new_e@,
                        old_e@[m].0,
                    ) ==> has_key(out@, old_e@[m].0),
            decreases n_old - i,
        {
            let e = &old_e[i];
            let ghost before = out@;
            let ghost before_from = from_old;
            if !e.1.looks_identity && !fresh.contains_key(e.0) {
                proof {
                    assert(!fresh@.contains_key(e.0));
                    assert(!has_key(new_e@, e.0));
                }
                out.push((e.0, e.1.duplicate()));
                proof {
                    from_old = from_old.push(i as int);
                    assert forall|a: int, b: int|
                        0 <= a < out@.len() && 0 <= b < out@.len() && a != b
                        implies (#[trigger] out@[a]).0 != (#[trigger] out@[b]).0 by {
                        if a < before.len() && b < before.len() {
                            assert(before[a] == out@[a] && before[b] == out@[b]);
                        } else if a < before.len() {
                            assert(out@[a] == before[a]);
                            assert(from_old[a] == before_from[a]);
                            assert(old_e@[from_old[a]].0 != old_e@[i as int].0);
                        } else if b < before.len() {
                            assert(out@[b] == before[b]);
                            assert(from_old[b] == before_from[b]);
                            assert(old_e@[from_old[b]].0 != old_e@[i as int].0);
                        }
                    }
                    assert forall|j: int| 0 <= j < out@.len() implies {
                        &&& 0 <= from_old[j - 0]
                        &&& from_old[j - 0] < i + 1
                        &&& (#[trigger] out@[j]).0 == old_e@[from_old[j - 0]].0
                        &&& out@[j].1@ == old_e@[from_old[j - 0]].1@
                        &&& !old_e@[from_old[j - 0]].1.looks_identity
                        &&& (true ==> !has_key(new_e@, old_e@[from_old[j - 0]].0))
                    } by {
                        if j < before.len() {
                            assert(out@[j] == before[j]);
                            assert(from_old[j] == before_from[j]);
                        }
                    }
                    assert(copies_of(out@, 0, old_e@, from_old, i + 1, new_e@, true));
                    assert forall|m: int|
                        0 <= m < i + 1 && !(#[trigger] old_e@[m]).1.looks_identity && !has_key(
                            new_e@,
                            old_e@[m].0,
                        ) implies has_key(out@, old_e@[m].0) by {
                        if m < i {
                            let j = choose|j: int| 0 <= j < before.len() && (#[trigger] before[j]).0 == old_e@[m].0;
                            assert(out@[j] == before[j]);
                        } else {
                            assert(out@[before.len() as int].0 == old_e@[m].0);
                        }
                    }
                }
            } else {
                proof {
                    if !e.1.looks_identity {
                        assert(fresh@.contains_key(e.0));
                    }
                }
            }
            i = i + 1;
        }
        let kept = out.len();
        let ghost kept_seq = out@;
        let ghost mut from_new: Seq<int> = seq![];
        proof {
            assert(out@.subrange(0, kept as int) == kept_seq);
        }
        let n_new = new_e.len();
        let mut i: usize = 0;
        while i < n_new
            invariant
                n_new == new_e@.len(),
                i <= n_new,
                old_e@ == self.entries@,
                new_e@ == fresh.entries@,
                keys_distinct(old_e@),
                keys_distinct(new_e@),
                keys_distinct(out@),
                kept <= out@.len(),
                kept_seq.len() == kept,
                out@.subrange(0, kept as int) == kept_seq,
                copies_of(kept_seq, 0, old_e@, from_old, old_e@.len() as int, new_e@, true),
                forall|m: int|
                    0 <= m < old_e@.len() && !(#[trigger] old_e@[m]).1.looks_identity && !has_key(
                        new_e@,
                        old_e@[m].0,
                    ) ==> has_key(kept_seq, old_e@[m].0),
                copies_of(out@, kept as int, new_e@, from_new, i as int, new_e@, false),
                forall|m: int|
                    0 <= m < i && !(#[trigger] new_e@[m]).1.looks_identity ==> has_key(
                        out@,
                        new_e@[m].0,
                    ),
            decreases n_new - i,
        {
            let e = &new_e[i];
            let ghost before = out@;
            let ghost before_from = from_new;
            if !e.1.looks_identity {
                out.push((e.0, e.1.duplicate()));
                proof {
                    from_new = from_new.push(i as int);
                    assert forall|a: int, b: int|
                        0 <= a < out@.len() && 0 <= b < out@.len() && a != b
                        implies (#[trigger] out@[a]).0 != (#[trigger] out@[b]).0 by {
                        if a < before.len() && b < before.len() {
                            assert(before[a] == out@[a] && before[b] == out@[b]);
                        } else if a < before.len() || b < before.len() {
                            let c = if a < before.len() { a } else { b };
                            assert(out@[c] == before[c]);
                            if c < kept {
                                assert(before.subrange(0, kept as int)[c] == before[c]);
                                assert(kept_seq[c] == before[c]);
                                let m = from_old[c];
                                if kept_seq[c].0 == new_e@[i as int].0 {
                                    assert(has_key(new_e@, old_e@[m].0));
                                }
                            } else {
                                assert(from_new[c - kept] == before_from[c - kept]);
                                let m = from_new[c - kept];
                                assert(new_e@[m].0 != new_e@[i as int].0);
                            }
                        }
                    }
                    assert(out@.subrange(0, kept as int) =~= before.subrange(0, kept as int));
                    assert forall|j: int| kept <= j < out@.len() implies {
                        &&& 0 <= from_new[j - kept]
                        &&& from_new[j - kept] < i + 1
                        &&& (#[trigger] out@[j]).0 == new_e@[from_new[j - kept]].0
                        &&& out@[j].1@ == new_e@[from_new[j - kept]].1@
                        &&& !new_e@[from_new[j - kept]].1.looks_identity
                        &&& (false ==> !has_key(new_e@, new_e@[from_new[j - kept]].0))
                    } by {
                        if j < before.len() {
                            assert(out@[j] == before[j]);
                            assert(from_new[j - kept] == before_from[j - kept]);
                        }
                    }
                    assert(copies_of(out@, kept as int, new_e@, from_new, i + 1, new_e@, false));
                    assert forall|m: int|
                        0 <= m < i + 1 && !(#[trigger] new_e@[m]).1.looks_identity
                        implies has_key(out@, new_e@[m].0) by {
                        if m < i {
                            let j = choose|j: int| 0 <= j < before.len() && (#[trigger] before[j]).0 == new_e@[m].0;
                            assert(out@[j] == before[j]);
                        } else {
                            assert(out@[before.len() as int].0 == new_e@[m].0);
                        }
                    }
                }
            }
            i = i + 1;
        }
        proof {
            let after = out@;
            let target = merged_sdr_cache(self@, fresh@);
            assert forall|k: GammaRampKey|
                #![trigger map_of(after).dom().contains(k)]
                #![trigger target.dom().contains(k)]
                (map_of(after).dom().contains(k) <==> target.dom().contains(k)) && (map_of(
                    after,
                ).dom().contains(k) ==> map_of(after)[k] == target[k]) by {
                if map_of(after).contains_key(k) {
                    let j = choose|j: int| 0 <= j < after.len() && (#[trigger] after[j]).0 == k;
                    lemma_map_of_at(after, j);
                    if j < kept {
                        assert(after.subrange(0, kept as int)[j] == after[j]);
                        assert(kept_seq[j] == after[j]);
                        lemma_map_of_at(old_e@, from_old[j]);
                    } else {
                        lemma_map_of_at(new_e@, from_new[j - kept]);
                    }
                }
                if target.contains_key(k) {
                    if fresh@.contains_key(k) && !fresh@[k].looks_identity {
                        let m = choose|m: int| 0 <= m < new_e@.len() && (#[trigger] new_e@[m]).0 == k;
                        lemma_map_of_at(new_e@, m);
                    } else {
                        let m = choose|m: int| 0 <= m < old_e@.len() && (#[trigger] old_e@[m]).0 == k;
                        lemma_map_of_at(old_e@, m);
                        let j = choose|j: int| 0 <= j < kept_seq.len() && (#[trigger] kept_seq[j]).0 == k;
                        assert(after.subrange(0, kept as int)[j] == after[j]);
                    }
                }
            }
            assert(map_of(after).dom() =~= target.dom());
            assert(map_of(after) =~= target);
        }
        GammaCache { entries: out }
    }
}

/// A lookup in the cache gives back the ramp last inserted for that key,
/// and inserting for one key leaves every other key as it was.
pub proof fn law_lookup_after_insert(
    cache: Map<GammaRampKey, GammaRampView>,
    key: GammaRampKey,
    ramp: GammaRampView,
    other: GammaRampKey,
)
    ensures
        cache.insert(key, ramp).contains_key(key),
        cache.insert(key, ramp)[key] == ramp,
        other != key ==> cache.insert(key, ramp).contains_key(other) == cache.contains_key(other),
        other != key && cache.contains_key(other) ==> cache.insert(key, ramp)[other] == cache[other],
{
}

/// Merging the same capture a second time changes nothing.
pub proof fn law_merge_is_idempotent(
    cached: Map<GammaRampKey, GammaRampView>,
    fresh: Map<GammaRampKey, GammaRampView>,
)
    ensures
        merged_sdr_cache(merged_sdr_cache(cached, fresh), fresh) == merged_sdr_cache(cached, fresh),
{
    assert(merged_sdr_cache(merged_sdr_cache(cached, fresh), fresh) =~= merged_sdr_cache(cached, fresh));
}

} // verus!
