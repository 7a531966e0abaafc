//! The memory store: one Markdown log per day, named `YYYY-MM-DD.md`, in a
//! memory directory.
use vstd::prelude::*;
use crate::order::{lemma_lex_irreflexive, lemma_lex_total, lemma_lex_transitive, lex_less, lex_lt};
use crate::paths::{join_path, path_join};
use crate::text::{chars_of, ends_with, extend_str, slice_chars, string_of, texts};

verus! {

broadcast use vstd::string::group_string_axioms;

/// The extension of a day log.
pub open spec fn md_suffix() -> Seq<char> {
    seq!['.', 'm', 'd']
}

/// A file name without its trailing `.md`s (`str::trim_end_matches(".md")`).
pub open spec fn trim_md(s: Seq<char>) -> Seq<char>
    decreases s.len(),
{
    if ends_with(s, md_suffix()) {
        trim_md(s.take(s.len() - 3))
    } else {
        s
    }
}

/// The days named by the `.md` files among `names`, in the order found.
pub open spec fn day_names(names: Seq<Seq<char>>) -> Seq<Seq<char>>
    decreases names.len(),
{
    if names.len() == 0 {
        Seq::empty()
    } else if ends_with(names.last(), md_suffix()) {
        day_names(names.drop_last()).push(trim_md(names.last()))
    } else {
        day_names(names.drop_last())
    }
}

/// Latest first: no string comes before an earlier one.
pub open spec fn sorted_desc(v: Seq<Seq<char>>) -> bool {
    forall|i: int, j: int| 0 <= i < j < v.len() ==> !lex_lt(#[trigger] v[i], #[trigger] v[j])
}

/// The entry appended to a day log for a note written at `timestamp`.
pub open spec fn entry_text(timestamp: Seq<char>, content: Seq<char>) -> Seq<char> {
    "\n<!-- "@ + timestamp + " -->\n"@ + content + "\n"@
}

/// The memory directory and its day logs.
#[derive(Debug)]
pub struct MemoryStore {
    memory_dir: std::path::PathBuf,
}

impl MemoryStore {
    /// The directory of the logs.
    pub closed spec fn dir(&self) -> std::path::PathBuf {
        self.memory_dir
    }

    /// A store over `memory_dir`.
    pub fn new(memory_dir: std::path::PathBuf) -> (s: Self)
        ensures
            s.dir() == memory_dir,
    {
        MemoryStore { memory_dir }
    }

    /// The directory of the logs.
    pub fn memory_dir(&self) -> (d: &std::path::PathBuf)
        ensures
            *d == self.dir(),
    {
        &self.memory_dir
    }

    /// The file name of the log of `date`.
    pub fn day_file(date: &str) -> (f: String)
        ensures
            f@ == date@ + ".md"@,
    {
        let mut v = chars_of(date);
        extend_str(&mut v, ".md");
        string_of(&v)
    }

    /// The path of the log of `date`.
    pub fn day_path(&self, date: &str) -> (p: std::path::PathBuf)
        ensures
            p == path_join(self.dir(), date@ + ".md"@),
    {
        let f = Self::day_file(date);
        join_path(&self.memory_dir, f.as_str())
    }

    /// The text appended to a day log for `content` written at `timestamp`.
    pub fn entry_text(timestamp: &str, content: &str) -> (e: String)
        ensures
            e@ == entry_text(timestamp@, content@),
    {
        let mut v = chars_of("\n<!-- ");
        extend_str(&mut v, timestamp);
        extend_str(&mut v, " -->\n");
        extend_str(&mut v, content);
        extend_str(&mut v, "\n");
        string_of(&v)
    }

    /// The days that have a log, latest first, given the names of the
    /// entries of the memory directory: each `.md` name without its
    /// `.md`, sorted in descending order.
    pub fn days_from_names(names: &Vec<String>) -> (days: Vec<String>)
        ensures
            texts(days@).to_multiset() == day_names(texts(names@)).to_multiset(),
            sorted_desc(texts(days@)),
    {
        let mut days: Vec<String> = Vec::new();
        let mut i: usize = 0;
        assert(texts(names@).take(0) =~= Seq::<Seq<char>>::empty());
        assert(texts(days@) =~= Seq::<Seq<char>>::empty());
        while i < names.len()
            invariant
                i <= names@.len(),
                texts(days@).to_multiset() == day_names(texts(names@).take(i as int)).to_multiset(),
                sorted_desc(texts(days@)),
            decreases names@.len() - i,
        {
            let ghost ns = texts(names@).take(i + 1);
            assert(ns.drop_last() =~= texts(names@).take(i as int));
            assert(ns.last() == names@[i as int]@);
            let name = chars_of(names[i].as_str());
            if has_md_suffix(&name) {
                let day = string_of(&trim_md_exec(&name));
                insert_desc(&mut days, day);
                assert(day_names(ns) == day_names(ns.drop_last()).push(trim_md(ns.last())));
                proof {
                    vstd::seq_lib::to_multiset_build(day_names(ns.drop_last()), trim_md(ns.last()));
                }
            }
            i = i + 1;
        }
        assert(texts(names@).take(names@.len() as int) =~= texts(names@));
        days
    }
}

/// Whether `s` ends with `.md`.
fn has_md_suffix(s: &Vec<char>) -> (r: bool)
    ensures
        r == ends_with(s@, md_suffix()),
{
    let n = s.len();
    if n < 3 {
        return false;
    }
    let r = s[n - 3] == '.' && s[n - 2] == 'm' && s[n - 1] == 'd';
    proof {
        if r {
            assert(s@.subrange(n - 3, n as int) =~= md_suffix());
        } else {
            if ends_with(s@, md_suffix()) {
                assert(s@.subrange(n - 3, n as int)[0] == '.');
                assert(s@.subrange(n - 3, n as int)[1] == 'm');
                assert(s@.subrange(n - 3, n as int)[2] == 'd');
            }
        }
    }
    r
}

/// `s` without its trailing `.md`s.
fn trim_md_exec(s: &Vec<char>) -> (r: Vec<char>)
    ensures
        r@ == trim_md(s@),
{
    let mut cur = slice_chars(s, 0, s.len());
    assert(cur@ =~= s@);
    while has_md_suffix(&cur)
        invariant
            trim_md(cur@) == trim_md(s@),
        decreases cur@.len(),
    {
        let n = cur.len();
        cur = slice_chars(&cur, 0, n - 3);
    }
    cur
}

/// Inserting into a sequence adds the element to its multiset.
proof fn lemma_insert_to_multiset<A>(s: Seq<A>, i: int, a: A)
    requires
        0 <= i <= s.len(),
    ensures
        s.insert(i, a).to_multiset() == s.to_multiset().insert(a),
{
    let t = s.insert(i, a);
    assert(t.remove(i) =~= s);
    vstd::seq_lib::to_multiset_remove(t, i);
    assert(t[i] == a);
    vstd::seq_lib::to_multiset_contains(t, a);
    assert(t.contains(a));
    assert(t.to_multiset() =~= s.to_multiset().insert(a));
}

/// Inserts `x` into the descending list `v` after everything not below it.
fn insert_desc(v: &mut Vec<String>, x: String)
    requires
        sorted_desc(texts(old(v)@)),
    ensures
        texts(final(v)@).to_multiset() == texts(old(v)@).to_multiset().insert(x@),
        sorted_desc(texts(final(v)@)),
{
    let xv = chars_of(x.as_str());
    let mut p: usize = 0;
    let mut found = false;
    while p < v.len() && !found
        invariant
            p <= v@.len(),
            v@ == old(v)@,
            xv@ == x@,
            sorted_desc(texts(v@)),
            forall|k: int| 0 <= k < p ==> !lex_lt(#[trigger] texts(v@)[k], x@),
            found ==> p < v@.len() && lex_lt(texts(v@)[p as int], x@),
        decreases v@.len() - p, (if found { 0int } else { 1int }),
    {
        assert(texts(v@)[p as int] == v@[p as int]@);
        let cur = chars_of(v[p].as_str());
        if lex_less(&cur, &xv) {
            found = true;
        } else {
            p = p + 1;
        }
    }
    let ghost before = texts(v@);
    let ghost xs = x@;
    v.insert(p, x);
    proof {
        assert(texts(v@) =~= before.insert(p as int, xs));
        lemma_insert_to_multiset(before, p as int, xs);
        let after = texts(v@);
        assert forall|i: int, j: int| 0 <= i < j < after.len() implies !lex_lt(
            #[trigger] after[i],
            #[trigger] after[j],
        ) by {
            if j < p {
                assert(after[i] == before[i] && after[j] == before[j]);
            } else if j == p {
                assert(after[i] == before[i]);
            } else if i < p {
                assert(after[i] == before[i] && after[j] == before[j - 1]);
                lemma_lex_total(before[j - 1], xs);
                if lex_lt(before[i], before[j - 1]) {
                    lemma_lex_transitive(before[i], before[j - 1], xs);
                }
            } else if i == p {
                // everything from `p` on lies below `x`
                assert(after[j] == before[j - 1]);
                assert(lex_lt(before[p as int], xs));
                if j - 1 > p {
                    lemma_lex_total(before[p as int], before[j - 1]);
                    if lex_lt(before[j - 1], before[p as int]) {
                        lemma_lex_transitive(before[j - 1], before[p as int], xs);
                    }
                }
                lemma_lex_total(before[j - 1], xs);
            } else {
                assert(after[i] == before[i - 1] && after[j] == before[j - 1]);
            }
        }
    }
}

} // verus!
