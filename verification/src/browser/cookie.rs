//! Session cookies kept per domain, saved and restored with the session.
use vstd::prelude::*;
use crate::text::str_eq;

verus! {

/// One browser cookie.
#[derive(Debug, Clone)]
pub struct Cookie {
    pub name: String,
    pub value: String,
    pub domain: String,
    pub path: String,
    pub secure: bool,
    pub http_only: bool,
    pub expires: Option<u64>,
}

impl Cookie {
    /// A field-by-field copy of this cookie.
    pub fn copy(&self) -> (r: Cookie)
        ensures
            r == *self,
    {
        Cookie {
            name: self.name.clone(),
            value: self.value.clone(),
            domain: self.domain.clone(),
            path: self.path.clone(),
            secure: self.secure,
            http_only: self.http_only,
            expires: self.expires,
        }
    }
}

/// Cookies grouped by domain.
pub struct CookieStore {
    entries: Vec<(String, Vec<Cookie>)>,
}

/// The cookies a store gives for `domain`: the saved list, or nothing.
pub open spec fn cookies_for(m: Map<Seq<char>, Seq<Cookie>>, domain: Seq<char>) -> Seq<Cookie> {
    if m.contains_key(domain) {
        m[domain]
    } else {
        Seq::empty()
    }
}

impl CookieStore {
    /// No domain is stored twice.
    #[verifier::type_invariant]
    spec fn wf(&self) -> bool {
        forall|i: int, j: int|
            0 <= i < j < self.entries@.len() ==> (#[trigger] self.entries@[i]).0@
                != (#[trigger] self.entries@[j]).0@
    }

    /// The stored cookies, by domain.
    pub closed spec fn view(&self) -> Map<Seq<char>, Seq<Cookie>> {
        Map::new(
            |d: Seq<char>| exists|i: int| 0 <= i < self.entries@.len() && self.entries@[i].0@ == d,
            |d: Seq<char>|
                {
                    let i = choose|i: int| 0 <= i < self.entries@.len() && self.entries@[i].0@ == d;
                    self.entries@[i].1@
                },
        )
    }

    /// An empty store.
    pub fn new() -> (r: Self)
        ensures
            r@ == Map::<Seq<char>, Seq<Cookie>>::empty(),
    {
        let r = CookieStore { entries: Vec::new() };
        assert(r@ =~= Map::<Seq<char>, Seq<Cookie>>::empty());
        r
    }

    /// Where `domain` is stored, if it is.
    fn position(&self, domain: &str) -> (r: Option<usize>)
        ensures
            match r {
                Some(i) => i < self.entries@.len() && self.entries@[i as int].0@ == domain@,
                None => forall|i: int| 0 <= i < self.entries@.len() ==> self.entries@[i].0@ != domain@,
            },
    {
        let mut i: usize = 0;
        while i < self.entries.len()
            invariant
                i <= self.entries@.len(),
                forall|k: int| 0 <= k < i ==> self.entries@[k].0@ != domain@,
            decreases self.entries@.len() - i,
        {
            if str_eq(self.entries[i].0.as_str(), domain) {
                return Some(i);
            }
            i = i + 1;
        }
        None
    }

    proof fn lemma_view_at(&self, i: int)
        requires
            self.wf(),
            0 <= i < self.entries@.len(),
        ensures
            self@.contains_key(self.entries@[i].0@),
            self@[self.entries@[i].0@] == self.entries@[i].1@,
    {
        let d = self.entries@[i].0@;
        assert(exists|k: int| 0 <= k < self.entries@.len() && self.entries@[k].0@ == d);
        let k = choose|k: int| 0 <= k < self.entries@.len() && self.entries@[k].0@ == d;
        if k != i {
            if k < i {
                assert(self.entries@[k].0@ != self.entries@[i].0@);
            } else {
                assert(self.entries@[i].0@ != self.entries@[k].0@);
            }
        }
    }

    /// Saves the cookies of `domain`, replacing what was saved for it.
    pub fn save(&mut self, domain: &str, cookies: Vec<Cookie>)
        ensures
            final(self)@ == old(self)@.insert(domain@, cookies@),
    {
        proof { use_type_invariant(&*self); }
        let ghost old_view = self@;
        match self.position(domain) {
            Some(i) => {
                let ghost before = self.entries@;
                let key = self.entries[i].0.clone();
                let mut es: Vec<(String, Vec<Cookie>)> = Vec::new();
                std::mem::swap(&mut es, &mut self.entries);
                es.set(i, (key, cookies));
                self.entries = es;
                proof {
                    assert forall|a: int, b: int|
                        0 <= a < b < self.entries@.len() implies (#[trigger] self.entries@[a]).0@
                        != (#[trigger] self.entries@[b]).0@ by {
                        assert(before[a].0@ != before[b].0@);
                    }
                }
                proof {
                    assert forall|d: Seq<char>| #![auto]
                        self@.contains_key(d) == old_view.insert(domain@, cookies@).contains_key(d)
                        by {
                        if old_view.insert(domain@, cookies@).contains_key(d) {
                            if d == domain@ {
                                assert(self.entries@[i as int].0@ == d);
                            } else {
                                let k = choose|k: int| 0 <= k < before.len() && before[k].0@ == d;
                                assert(self.entries@[k].0@ == d);
                            }
                        }
                        if self@.contains_key(d) {
                            let k = choose|k: int| 0 <= k < self.entries@.len() && self.entries@[k].0@ == d;
                            if k != i {
                                assert(before[k].0@ == d);
                            }
                        }
                    }
                    assert forall|d: Seq<char>| #![auto] self@.contains_key(d) implies self@[d]
                        == old_view.insert(domain@, cookies@)[d] by {
                        let k = choose|k: int| 0 <= k < self.entries@.len() && self.entries@[k].0@ == d;
                        self.lemma_view_at(k);
                        if k != i {
                            assert(before[k] == self.entries@[k]);
                            let j = choose|j: int| 0 <= j < before.len() && before[j].0@ == d;
                            if j != k {
                                if j < k {
                                    assert(before[j].0@ != before[k].0@);
                                } else {
                                    assert(before[k].0@ != before[j].0@);
                                }
                            }
                        }
                    }
                    assert(self@ =~= old_view.insert(domain@, cookies@));
                }
            },
            None => {
                let ghost before = self.entries@;
                let mut es: Vec<(String, Vec<Cookie>)> = Vec::new();
                std::mem::swap(&mut es, &mut self.entries);
                es.push((crate::text::owned(domain), cookies));
                self.entries = es;
                proof {
                    assert forall|a: int, b: int|
                        0 <= a < b < self.entries@.len() implies (#[trigger] self.entries@[a]).0@
                        != (#[trigger] self.entries@[b]).0@ by {
                        if b < before.len() {
                            assert(before[a].0@ != before[b].0@);
                        }
                    }
                }
                proof {
                    assert forall|d: Seq<char>| #![auto]
                        self@.contains_key(d) == old_view.insert(domain@, cookies@).contains_key(d)
                        by {
                        if old_view.insert(domain@, cookies@).contains_key(d) {
                            if d == domain@ {
                                assert(self.entries@[before.len() as int].0@ == d);
                            } else {
                                let k = choose|k: int| 0 <= k < before.len() && before[k].0@ == d;
                                assert(self.entries@[k].0@ == d);
                            }
                        }
                        if self@.contains_key(d) {
                            let k = choose|k: int| 0 <= k < self.entries@.len() && self.entries@[k].0@ == d;
                            if k < before.len() {
                                assert(before[k].0@ == d);
                            }
                        }
                    }
                    assert forall|d: Seq<char>| #![auto] self@.contains_key(d) implies self@[d]
                        == old_view.insert(domain@, cookies@)[d] by {
                        let k = choose|k: int| 0 <= k < self.entries@.len() && self.entries@[k].0@ == d;
                        self.lemma_view_at(k);
                        if k < before.len() {
                            let j = choose|j: int| 0 <= j < before.len() && before[j].0@ == d;
                            if j != k {
                                if j < k {
                                    assert(before[j].0@ != before[k].0@);
                                } else {
                                    assert(before[k].0@ != before[j].0@);
                                }
                            }
                        }
                    }
                    assert(self@ =~= old_view.insert(domain@, cookies@));
                }
            },
        }
    }

    /// A copy of the cookies saved for `domain`, or an empty list.
    pub fn load(&self, domain: &str) -> (r: Vec<Cookie>)
        ensures
            r@ == cookies_for(self@, domain@),
    {
        proof { use_type_invariant(self); }
        match self.position(domain) {
            Some(i) => {
                proof { self.lemma_view_at(i as int); }
                let src = &self.entries[i].1;
                let mut out: Vec<Cookie> = Vec::new();
                let mut k: usize = 0;
                while k < src.len()
                    invariant
                        k <= src@.len(),
                        out@ == src@.take(k as int),
                    decreases src@.len() - k,
                {
                    out.push(src[k].copy());
                    assert(src@.take(k as int).push(src@[k as int]) =~= src@.take(k + 1));
                    k = k + 1;
                }
                assert(src@.take(src@.len() as int) =~= src@);
                out
            },
            None => {
                assert(!self@.contains_key(domain@));
                Vec::new()
            },
        }
    }

    /// Forgets the cookies of `domain`.
    pub fn clear_domain(&mut self, domain: &str)
        ensures
            final(self)@ == old(self)@.remove(domain@),
    {
        proof { use_type_invariant(&*self); }
        let ghost old_view = self@;
        match self.position(domain) {
            Some(i) => {
                let ghost before = self.entries@;
                let mut es: Vec<(String, Vec<Cookie>)> = Vec::new();
                std::mem::swap(&mut es, &mut self.entries);
                es.remove(i);
                self.entries = es;
                proof {
                    assert forall|a: int, b: int|
                        0 <= a < b < self.entries@.len() implies (#[trigger] self.entries@[a]).0@
                        != (#[trigger] self.entries@[b]).0@ by {
                        let a2 = if a < i { a } else { a + 1 };
                        let b2 = if b < i { b } else { b + 1 };
                        assert(self.entries@[a] == before[a2]);
                        assert(self.entries@[b] == before[b2]);
                        assert(before[a2].0@ != before[b2].0@);
                    }
                }
                proof {
                    assert forall|d: Seq<char>| #![auto]
                        self@.contains_key(d) == old_view.remove(domain@).contains_key(d) by {
                        if old_view.remove(domain@).contains_key(d) {
                            let k = choose|k: int| 0 <= k < before.len() && before[k].0@ == d;
                            if k < i {
                                assert(self.entries@[k].0@ == d);
                            } else {
                                assert(k != i);
                                assert(self.entries@[k - 1].0@ == d);
                            }
                        }
                        if self@.contains_key(d) {
                            let k = choose|k: int| 0 <= k < self.entries@.len() && self.entries@[k].0@ == d;
                            let k2 = if k < i { k } else { k + 1 };
                            assert(before[k2].0@ == d);
                            if d == domain@ {
                                if k2 < i {
                                    assert(before[k2].0@ != before[i as int].0@);
                                } else {
                                    assert(before[i as int].0@ != before[k2].0@);
                                }
                            }
                        }
                    }
                    assert forall|d: Seq<char>| #![auto] self@.contains_key(d) implies self@[d]
                        == old_view.remove(domain@)[d] by {
                        let k = choose|k: int| 0 <= k < self.entries@.len() && self.entries@[k].0@ == d;
                        self.lemma_view_at(k);
                        let k2 = if k < i { k } else { k + 1 };
                        assert(before[k2] == self.entries@[k]);
                        let j = choose|j: int| 0 <= j < before.len() && before[j].0@ == d;
                        if j != k2 {
                            if j < k2 {
                                assert(before[j].0@ != before[k2].0@);
                            } else {
                                assert(before[k2].0@ != before[j].0@);
                            }
                        }
                    }
                    assert(self@ =~= old_view.remove(domain@));
                }
            },
            None => {
                assert(self@ =~= old_view.remove(domain@));
            },
        }
    }
}

impl Default for CookieStore {
    fn default() -> (r: Self)
        ensures
            r@ == Map::<Seq<char>, Seq<Cookie>>::empty(),
    {
        Self::new()
    }
}

/// Loading a domain right after saving it gives exactly what was saved.
pub proof fn lemma_load_after_save(m: Map<Seq<char>, Seq<Cookie>>, domain: Seq<char>, cookies: Seq<Cookie>)
    ensures
        cookies_for(m.insert(domain, cookies), domain) == cookies,
{
}

/// Saving one domain leaves what every other domain loads unchanged.
pub proof fn lemma_save_keeps_other_domains(
    m: Map<Seq<char>, Seq<Cookie>>,
    domain: Seq<char>,
    other: Seq<char>,
    cookies: Seq<Cookie>,
)
    requires
        domain != other,
    ensures
        cookies_for(m.insert(domain, cookies), other) == cookies_for(m, other),
{
}

/// After clearing a domain, loading it gives no cookies, and other domains
/// are untouched.
pub proof fn lemma_load_after_clear(m: Map<Seq<char>, Seq<Cookie>>, domain: Seq<char>, other: Seq<char>)
    ensures
        cookies_for(m.remove(domain), domain) == Seq::<Cookie>::empty(),
        other != domain ==> cookies_for(m.remove(domain), other) == cookies_for(m, other),
{
}

} // verus!
