//! The browser tab pool: a bounded set of open tabs with fresh ids.
use vstd::prelude::*;
use std::collections::HashMap;
use vstd::std_specs::iter::IteratorSpec;

verus! {

broadcast use vstd::std_specs::hash::group_hash_axioms;

/// One open tab.
#[derive(Debug, Clone)]
pub struct TabInfo {
    pub id: i32,
    pub url: String,
    pub title: String,
}

/// Open tabs by id, at most `max_tabs` of them; ids are handed out in
/// increasing order and never reused.
pub struct TabPool {
    tabs: HashMap<i32, TabInfo>,
    next_id: i32,
    max_tabs: usize,
}

impl TabPool {
    /// Each tab is stored under its own id, below `next_id`; the pool is
    /// within capacity.
    #[verifier::type_invariant]
    spec fn wf(&self) -> bool {
        &&& 0 <= self.next_id
        &&& self.tabs@.dom().finite()
        &&& self.tabs@.len() <= self.max_tabs
        &&& forall|id: i32| #[trigger] self.tabs@.contains_key(id) ==> 0 <= id < self.next_id
            && self.tabs@[id].id == id
    }

    /// The open tabs by id.
    pub closed spec fn view(&self) -> Map<i32, TabInfo> {
        self.tabs@
    }

    /// Number of open tabs.
    pub closed spec fn tab_count(&self) -> nat {
        self.tabs@.len()
    }

    /// Most tabs open at once.
    pub closed spec fn max_tabs(&self) -> nat {
        self.max_tabs as nat
    }

    /// The id the next tab will get.
    pub closed spec fn next_id(&self) -> int {
        self.next_id as int
    }

    /// Every open tab's id lies below the counter of the next id, so a tab
    /// id, once handed out, is never handed out again.
    pub open spec fn ids_below_next(&self) -> bool {
        forall|id: i32| #[trigger] self@.contains_key(id) ==> 0 <= id < self.next_id()
    }

    proof fn lemma_ids_below_next(&self)
        requires
            self.wf(),
        ensures
            self.ids_below_next(),
    {
    }

    /// An empty pool holding at most `max_tabs` tabs.
    pub fn new(max_tabs: usize) -> (r: Self)
        ensures
            r@ == Map::<i32, TabInfo>::empty(),
            r.tab_count() == 0,
            r.max_tabs() == max_tabs,
            r.next_id() == 0,
            r.ids_below_next(),
    {
        let r = TabPool { tabs: HashMap::new(), next_id: 0, max_tabs };
        proof { use_type_invariant(&r); r.lemma_ids_below_next(); }
        r
    }

    /// Opens a tab on `url` and returns its id, or `None` when the pool is
    /// full.
    pub fn create_tab(&mut self, url: &str) -> (r: Option<i32>)
        requires
            old(self).tab_count() < old(self).max_tabs() ==> old(self).next_id() < i32::MAX,
        ensures
            final(self).max_tabs() == old(self).max_tabs(),
            final(self).tab_count() <= final(self).max_tabs(),
            final(self).ids_below_next(),
            r matches Some(id) ==> forall|k: i32| #[trigger] old(self)@.contains_key(k) ==> k < id,
            old(self).tab_count() >= old(self).max_tabs() ==> {
                &&& r is None
                &&& final(self)@ == old(self)@
                &&& final(self).tab_count() == old(self).tab_count()
                &&& final(self).next_id() == old(self).next_id()
            },
            old(self).tab_count() < old(self).max_tabs() ==> {
                &&& r == Some(old(self).next_id() as i32)
                &&& !old(self)@.contains_key(r->0)
                &&& final(self)@ == old(self)@.insert(r->0, final(self)@[r->0])
                &&& final(self)@[r->0].id == r->0
                &&& final(self)@[r->0].url@ == url@
                &&& final(self)@[r->0].title@ == Seq::<char>::empty()
                &&& final(self).tab_count() == old(self).tab_count() + 1
                &&& final(self).next_id() == old(self).next_id() + 1
            },
    {
        proof { use_type_invariant(&*self); }
        if self.tabs.len() >= self.max_tabs {
            proof { self.lemma_ids_below_next(); }
            return None;
        }
        let id = self.next_id;
        let tab = TabInfo { id, url: crate::text::owned(url), title: String::new() };
        assert(!self.tabs@.contains_key(id));
        let mut tabs: HashMap<i32, TabInfo> = HashMap::new();
        std::mem::swap(&mut tabs, &mut self.tabs);
        tabs.insert(id, tab);
        self.next_id = id + 1;
        self.tabs = tabs;
        proof { use_type_invariant(&*self); self.lemma_ids_below_next(); }
        Some(id)
    }

    /// Closes tab `id` (nothing happens when it is not open).
    pub fn close_tab(&mut self, id: i32)
        ensures
            final(self)@ == old(self)@.remove(id),
            final(self).max_tabs() == old(self).max_tabs(),
            final(self).next_id() == old(self).next_id(),
            final(self).tab_count() <= old(self).tab_count(),
            final(self).ids_below_next(),
    {
        proof { use_type_invariant(&*self); }
        let mut tabs: HashMap<i32, TabInfo> = HashMap::new();
        std::mem::swap(&mut tabs, &mut self.tabs);
        tabs.remove(&id);
        self.tabs = tabs;
        proof { use_type_invariant(&*self); self.lemma_ids_below_next(); }
    }

    /// The tab with id `id`, if it is open.
    pub fn get_tab(&self, id: i32) -> (r: Option<&TabInfo>)
        ensures
            match r {
                Some(t) => self@.contains_key(id) && *t == self@[id],
                None => !self@.contains_key(id),
            },
    {
        self.tabs.get(&id)
    }

    /// Every open tab, once each, in the order the map walks its ids.
    pub fn list_tabs(&self) -> (r: Vec<&TabInfo>)
        ensures
            r@.len() == self.tab_count(),
            forall|i: int| 0 <= i < r@.len() ==> self@.contains_key(r@[i].id) && *r@[i] == self@[r@[i].id],
            forall|id: i32| self@.contains_key(id) ==> exists|i: int| 0 <= i < r@.len() && r@[i].id == id,
            forall|i: int, j: int| 0 <= i < j < r@.len() ==> r@[i].id != r@[j].id,
    {
        proof { use_type_invariant(self); }
        let ghost ks = vstd::std_specs::hash::spec_keys_iter(&self.tabs).remaining();
        let mut ids: Vec<i32> = Vec::new();
        for k in it: self.tabs.keys()
            invariant
                ids@.len() == it.index(),
                forall|i: int| 0 <= i < ids@.len() ==> ids@[i] == *it.seq()[i],
                it.seq() == ks,
        {
            ids.push(*k);
        }
        assert(ids@ =~= ks.unref());
        assert(ids@.to_set() == self.tabs@.dom());
        assert(ids@.no_duplicates()) by {
            assert forall|i: int, j: int| 0 <= i < ids@.len() && 0 <= j < ids@.len() && i != j implies ids@[i] != ids@[j] by {
                assert(ks[i] != ks[j]);
            }
        }
        let mut r: Vec<&TabInfo> = Vec::new();
        let mut n: usize = 0;
        while n < ids.len()
            invariant
                n <= ids@.len(),
                r@.len() == n,
                ids@.to_set() == self.tabs@.dom(),
                forall|i: int| 0 <= i < n ==> self.tabs@.contains_key(ids@[i]) && *r@[i] == self.tabs@[ids@[i]],
            decreases ids@.len() - n,
        {
            assert(ids@.to_set().contains(ids@[n as int]));
            match self.tabs.get(&ids[n]) {
                Some(t) => { r.push(t); },
                None => { assert(false); },
            }
            n = n + 1;
        }
        proof {
            use_type_invariant(self);
            assert forall|id: i32| self@.contains_key(id) implies exists|i: int| 0 <= i < r@.len() && r@[i].id == id by {
                assert(ids@.to_set().contains(id));
                let i = choose|i: int| 0 <= i < ids@.len() && ids@[i] == id;
                assert(r@[i].id == id);
            }
            assert forall|i: int, j: int| 0 <= i < j < r@.len() implies r@[i].id != r@[j].id by {
                assert(ids@[i] != ids@[j]);
            }
        }
        r
    }
}

impl Default for TabPool {
    /// A pool of at most three tabs.
    fn default() -> (r: Self)
        ensures
            r@ == Map::<i32, TabInfo>::empty(),
            r.tab_count() == 0,
            r.max_tabs() == 3,
            r.next_id() == 0,
    {
        Self::new(3)
    }
}

} // verus!
