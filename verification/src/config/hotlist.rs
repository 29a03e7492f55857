//! Directory bookmarks.

use vstd::prelude::*;

verus! {

/// One bookmark: a label and a path (a virtual path's display string).
#[derive(Debug, Clone)]
pub struct HotlistEntry {
    pub label: String,
    pub path: String,
}

/// The bookmarks, in the order they were added.
#[derive(Debug, Clone)]
pub struct Hotlist {
    pub entries: Vec<HotlistEntry>,
}

impl View for HotlistEntry {
    type V = (Seq<char>, Seq<char>);

    open spec fn view(&self) -> (Seq<char>, Seq<char>) {
        (self.label@, self.path@)
    }
}

impl View for Hotlist {
    type V = Seq<(Seq<char>, Seq<char>)>;

    open spec fn view(&self) -> Seq<(Seq<char>, Seq<char>)> {
        self.entries@.map_values(|e: HotlistEntry| e@)
    }
}

/// Keeps the entries whose path is not `path`.
pub open spec fn other_paths(path: Seq<char>) -> spec_fn((Seq<char>, Seq<char>)) -> bool {
    |e: (Seq<char>, Seq<char>)| e.1 != path
}

impl Default for Hotlist {
    fn default() -> (r: Self)
        ensures
            r@.len() == 0,
    {
        Hotlist { entries: Vec::new() }
    }
}

impl Hotlist {
    /// Adds a bookmark at the end, dropping any earlier one for the same path.
    pub fn add(&mut self, label: String, path: String)
        ensures
            final(self)@ == old(self)@.filter(other_paths(path@)).push((label@, path@)),
            forall|i: int| 0 <= i < final(self)@.len() - 1 ==> (#[trigger] final(self)@[i]).1 != path@,
    {
        let ghost old_v = self@;
        let ghost p = other_paths(path@);
        let mut kept: Vec<HotlistEntry> = Vec::new();
        let mut i: usize = 0;
        while i < self.entries.len()
            invariant
                i <= self.entries@.len(),
                self@ == old_v,
                p == other_paths(path@),
                kept@.map_values(|e: HotlistEntry| e@) == old_v.take(i as int).filter(p),
            decreases self.entries@.len() - i,
        {
            let ghost before = kept@.map_values(|e: HotlistEntry| e@);
            proof {
                assert(old_v.take(i + 1) =~= old_v.take(i as int).push(old_v[i as int]));
                old_v.take(i as int).lemma_filter_push(old_v[i as int], p);
            }
            if !crate::text::str_eq(self.entries[i].path.as_str(), path.as_str()) {
                kept.push(self.entries[i].clone_entry());
                assert(kept@.map_values(|e: HotlistEntry| e@) =~= before.push(old_v[i as int]));
            }
            i = i + 1;
        }
        assert(old_v.take(old_v.len() as int) =~= old_v);
        let ghost f = kept@.map_values(|e: HotlistEntry| e@);
        let ghost lv = label@;
        let ghost pv = path@;
        kept.push(HotlistEntry { label, path });
        assert(kept@.map_values(|e: HotlistEntry| e@) =~= f.push((lv, pv)));
        self.entries = kept;
        proof {
            assert forall|i: int| 0 <= i < self@.len() - 1 implies (#[trigger] self@[i]).1 != pv by {
                old_v.lemma_filter_pred(p, i);
            }
        }
    }

    /// A copy of the bookmarks.
    pub fn duplicate(&self) -> (r: Self)
        ensures
            r@ == self@,
    {
        let mut entries: Vec<HotlistEntry> = Vec::new();
        let mut i: usize = 0;
        while i < self.entries.len()
            invariant
                i <= self.entries@.len(),
                entries@.map_values(|e: HotlistEntry| e@) == self@.take(i as int),
            decreases self.entries@.len() - i,
        {
            let ghost before = entries@.map_values(|e: HotlistEntry| e@);
            entries.push(self.entries[i].clone_entry());
            assert(entries@.map_values(|e: HotlistEntry| e@) =~= before.push(self.entries@[i as int]@));
            assert(self@.take(i + 1) =~= self@.take(i as int).push(self@[i as int]));
            i = i + 1;
        }
        assert(self@.take(self@.len() as int) =~= self@);
        Hotlist { entries }
    }

    /// Removes the bookmark at `idx`, if there is one.
    pub fn remove_at(&mut self, idx: usize)
        ensures
            idx < old(self)@.len() ==> final(self)@ == old(self)@.remove(idx as int),
            idx >= old(self)@.len() ==> final(self)@ == old(self)@,
    {
        if idx < self.entries.len() {
            let ghost before = self@;
            self.entries.remove(idx);
            assert(self@ =~= before.remove(idx as int));
        }
    }
}

impl HotlistEntry {
    /// A copy of the entry.
    pub fn clone_entry(&self) -> (r: Self)
        ensures
            r@ == self@,
    {
        HotlistEntry { label: self.label.clone(), path: self.path.clone() }
    }
}

} // verus!
