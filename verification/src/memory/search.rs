//! Keyword search over the day logs: the lines holding every keyword,
//! ignoring case, with the lines around them; latest file first.
use vstd::prelude::*;
use crate::order::{lemma_lex_irreflexive, lemma_lex_transitive, lex_less, lex_lt};
use crate::text::{
    char_lines, chars_of, contains, contains_exec, lowercase, split_lines, split_lines_exec,
    string_of, texts, to_lowercase, is_ascii_text, ascii_lower,
};

verus! {

broadcast use vstd::string::group_string_axioms;

// ---------------------------------------------------------------------------
// Matching
// ---------------------------------------------------------------------------

/// The keywords as they are matched: each non-empty one lowercased, an
/// empty one left out (`None`).
pub open spec fn lowered(ks: Seq<Seq<char>>) -> Seq<Option<Seq<char>>> {
    ks.map_values(|k: Seq<char>| if k.len() > 0 { Some(lowercase(k)) } else { None })
}

/// Each non-empty ASCII text among `ts` lowercases as `ascii_lower` says:
/// what a search learns of the texts it lowered.
pub open spec fn ascii_lowering_known(ts: Seq<Seq<char>>) -> bool {
    forall|i: int|
        0 <= i < ts.len() && ts[i].len() > 0 && is_ascii_text(ts[i]) ==> lowercase(#[trigger] ts[i])
            == ascii_lower(ts[i])
}

/// How many keywords are given (not left out).
pub open spec fn given_count(lks: Seq<Option<Seq<char>>>) -> nat
    decreases lks.len(),
{
    if lks.len() == 0 {
        0
    } else {
        given_count(lks.drop_last()) + if lks.last() is Some { 1nat } else { 0nat }
    }
}

/// How many of the given keywords occur in `lower`.
pub open spec fn present_count(lower: Seq<char>, lks: Seq<Option<Seq<char>>>) -> nat
    decreases lks.len(),
{
    if lks.len() == 0 {
        0
    } else {
        present_count(lower, lks.drop_last()) + match lks.last() {
            Some(k) => if contains(lower, k) { 1nat } else { 0nat },
            None => 0nat,
        }
    }
}

/// How many keywords are not empty.
pub open spec fn nonempty_count(ks: Seq<Seq<char>>) -> nat {
    given_count(lowered(ks))
}

/// How many non-empty keywords occur, lowercased, in the lowercased line
/// `lower`.
pub open spec fn match_count(lower: Seq<char>, ks: Seq<Seq<char>>) -> nat {
    present_count(lower, lowered(ks))
}

/// A line is found when every non-empty keyword occurs in it, ignoring
/// case, and there is at least one.
pub open spec fn line_hit(line: Seq<char>, ks: Seq<Seq<char>>) -> bool {
    let m = match_count(lowercase(line), ks);
    m > 0 && m == nonempty_count(ks)
}

/// A found line, as a value.
pub struct SearchHit {
    pub file: Seq<char>,
    pub line: Seq<char>,
    pub line_number: int,
    pub context_before: Seq<char>,
    pub context_after: Seq<char>,
    pub match_count: u32,
}

/// The hit for line `i` (from 0) of the file `file` with lines `lines`.
pub open spec fn hit_at(file: Seq<char>, lines: Seq<Seq<char>>, i: int, ks: Seq<Seq<char>>) -> SearchHit {
    SearchHit {
        file,
        line: lines[i],
        line_number: i + 1,
        context_before: if i > 0 { lines[i - 1] } else { Seq::empty() },
        context_after: if i + 1 < lines.len() { lines[i + 1] } else { Seq::empty() },
        match_count: match_count(lowercase(lines[i]), ks) as u32,
    }
}

/// The hits among the first `n` lines, in order.
pub open spec fn hits_upto(file: Seq<char>, lines: Seq<Seq<char>>, ks: Seq<Seq<char>>, n: int) -> Seq<
    SearchHit,
>
    decreases n,
{
    if n <= 0 {
        Seq::empty()
    } else if line_hit(lines[n - 1], ks) {
        hits_upto(file, lines, ks, n - 1).push(hit_at(file, lines, n - 1, ks))
    } else {
        hits_upto(file, lines, ks, n - 1)
    }
}

/// The hits of all files, named and with their texts, in the order given.
pub open spec fn all_hits(files: Seq<(Seq<char>, Seq<char>)>, ks: Seq<Seq<char>>) -> Seq<SearchHit>
    decreases files.len(),
{
    if files.len() == 0 {
        Seq::empty()
    } else {
        let f = files.last();
        all_hits(files.drop_last(), ks) + hits_upto(f.0, split_lines(f.1), ks, split_lines(f.1).len() as int)
    }
}

/// `a` is listed before `b`: a later file name first, then a lower line
/// number.
pub open spec fn hit_before(a: SearchHit, b: SearchHit) -> bool {
    lex_lt(b.file, a.file) || (a.file == b.file && a.line_number < b.line_number)
}

/// No hit is listed after one it belongs before.
pub open spec fn hits_sorted(v: Seq<SearchHit>) -> bool {
    forall|i: int, j: int| 0 <= i < j < v.len() ==> !hit_before(#[trigger] v[j], #[trigger] v[i])
}

/// A found line with its neighbours.
#[derive(Debug, Clone)]
pub struct SearchResult {
    /// The name of the file.
    pub file: String,
    pub line: String,
    /// Counted from 1.
    pub line_number: usize,
    /// The line before, or empty.
    pub context_before: String,
    /// The line after, or empty.
    pub context_after: String,
    /// How many keywords the line holds.
    pub match_count: u32,
}

impl View for SearchResult {
    type V = SearchHit;

    open spec fn view(&self) -> SearchHit {
        SearchHit {
            file: self.file@,
            line: self.line@,
            line_number: self.line_number as int,
            context_before: self.context_before@,
            context_after: self.context_after@,
            match_count: self.match_count,
        }
    }
}

/// The values of a list of results.
pub open spec fn hit_views(v: Seq<SearchResult>) -> Seq<SearchHit> {
    v.map_values(|r: SearchResult| r@)
}

/// The names and texts of a list of files.
pub open spec fn file_views(v: Seq<(String, String)>) -> Seq<(Seq<char>, Seq<char>)> {
    v.map_values(|f: (String, String)| (f.0@, f.1@))
}

/// Every line found holds every non-empty keyword, ignoring case, and
/// there is at least one such keyword; so keywords that are all empty find
/// nothing.
pub proof fn lemma_hits_hold_all_keywords(files: Seq<(Seq<char>, Seq<char>)>, ks: Seq<Seq<char>>)
    ensures
        forall|i: int|
            0 <= i < all_hits(files, ks).len() ==> line_hit(#[trigger] all_hits(files, ks)[i].line, ks),
        nonempty_count(ks) == 0 ==> all_hits(files, ks).len() == 0,
    decreases files.len(),
{
    if files.len() > 0 {
        lemma_hits_hold_all_keywords(files.drop_last(), ks);
        let f = files.last();
        let ls = split_lines(f.1);
        lemma_hits_upto_hold(f.0, ls, ks, ls.len() as int);
        let a = all_hits(files.drop_last(), ks);
        let b = hits_upto(f.0, ls, ks, ls.len() as int);
        assert forall|i: int| 0 <= i < (a + b).len() implies line_hit(#[trigger] (a + b)[i].line, ks) by {
            if i >= a.len() {
                assert((a + b)[i] == b[i - a.len()]);
            }
        }
    }
}

/// The hits among the first `n` lines are lines that hold every keyword.
proof fn lemma_hits_upto_hold(file: Seq<char>, lines: Seq<Seq<char>>, ks: Seq<Seq<char>>, n: int)
    ensures
        forall|i: int|
            0 <= i < hits_upto(file, lines, ks, n).len() ==> line_hit(
                #[trigger] hits_upto(file, lines, ks, n)[i].line,
                ks,
            ),
        nonempty_count(ks) == 0 ==> hits_upto(file, lines, ks, n).len() == 0,
    decreases n,
{
    if n > 0 {
        lemma_hits_upto_hold(file, lines, ks, n - 1);
        let prev = hits_upto(file, lines, ks, n - 1);
        if line_hit(lines[n - 1], ks) {
            let cur = prev.push(hit_at(file, lines, n - 1, ks));
            assert(hits_upto(file, lines, ks, n) == cur);
            assert forall|i: int| 0 <= i < cur.len() implies line_hit(#[trigger] cur[i].line, ks) by {
                if i < prev.len() {
                    assert(cur[i] == prev[i]);
                } else {
                    assert(cur[i].line == lines[n - 1]);
                }
            }
        }
    }
}

/// Where `x` goes in a sorted list: before the first entry it belongs
/// before, else at the end (after every entry with the same key).
pub open spec fn hit_pos(v: Seq<SearchHit>, x: SearchHit) -> int
    decreases v.len(),
{
    if v.len() == 0 {
        0
    } else if hit_before(x, v[0]) {
        0
    } else {
        1 + hit_pos(v.drop_first(), x)
    }
}

/// `v` with each of `xs` inserted in turn at its place: a stable sort of
/// `xs` into `v`, so hits with the same file name and line number keep
/// the order in which they were found.
pub open spec fn insert_hits(v: Seq<SearchHit>, xs: Seq<SearchHit>) -> Seq<SearchHit>
    decreases xs.len(),
{
    if xs.len() == 0 {
        v
    } else {
        let w = insert_hits(v, xs.drop_last());
        w.insert(hit_pos(w, xs.last()), xs.last())
    }
}

/// The place found by scanning is `hit_pos`.
proof fn lemma_hit_pos(v: Seq<SearchHit>, x: SearchHit, p: int)
    requires
        0 <= p <= v.len(),
        forall|k: int| 0 <= k < p ==> !hit_before(x, #[trigger] v[k]),
        p == v.len() || hit_before(x, v[p]),
    ensures
        p == hit_pos(v, x),
    decreases v.len(),
{
    if v.len() > 0 && p > 0 {
        assert(!hit_before(x, v[0]));
        assert forall|k: int| 0 <= k < p - 1 implies !hit_before(x, #[trigger] v.drop_first()[k]) by {
            assert(v.drop_first()[k] == v[k + 1]);
        }
        if p < v.len() {
            assert(v.drop_first()[p - 1] == v[p]);
        }
        lemma_hit_pos(v.drop_first(), x, p - 1);
    }
}

/// Inserting two lists in turn inserts their concatenation.
proof fn lemma_insert_hits_append(v: Seq<SearchHit>, a: Seq<SearchHit>, b: Seq<SearchHit>)
    ensures
        insert_hits(v, a + b) == insert_hits(insert_hits(v, a), b),
    decreases b.len(),
{
    if b.len() == 0 {
        assert(a + b =~= a);
    } else {
        assert((a + b).drop_last() =~= a + b.drop_last());
        assert((a + b).last() == b.last());
        lemma_insert_hits_append(v, a, b.drop_last());
    }
}

/// Being listed before is a strict order.
proof fn lemma_hit_before_order(a: SearchHit, b: SearchHit, c: SearchHit)
    ensures
        !hit_before(a, a),
        hit_before(a, b) && hit_before(b, c) ==> hit_before(a, c),
{
    lemma_lex_irreflexive(a.file);
    if hit_before(a, b) && hit_before(b, c) {
        if lex_lt(b.file, a.file) && lex_lt(c.file, b.file) {
            lemma_lex_transitive(c.file, b.file, a.file);
        }
    }
}

/// Inserting into a sequence adds the element to its multiset.
proof fn lemma_insert_to_multiset<A>(s: Seq<A>, i: int, a: A)
    requires
        0 <= i <= s.len(),
    ensures
        s.insert(i, a).to_multiset() == s.to_multiset().insert(a),
{
    let t = s.insert(i, a);
    assert(t.remove(i) =~= s);
    vstd::seq_lib::to_multiset_remove(t, i);
    assert(t[i] == a);
    vstd::seq_lib::to_multiset_contains(t, a);
    assert(t.contains(a));
    assert(t.to_multiset() =~= s.to_multiset().insert(a));
}

/// Whether `a` is listed before `b`.
fn hit_before_exec(a: &SearchResult, b: &SearchResult) -> (r: bool)
    ensures
        r == hit_before(a@, b@),
{
    let fa = chars_of(a.file.as_str());
    let fb = chars_of(b.file.as_str());
    if lex_less(&fb, &fa) {
        true
    } else if lex_less(&fa, &fb) {
        false
    } else {
        proof { crate::order::lemma_lex_total(fa@, fb@); }
        a.line_number < b.line_number
    }
}

/// Inserts `x` after every result not listed after it.
fn insert_hit(v: &mut Vec<SearchResult>, x: SearchResult)
    requires
        hits_sorted(hit_views(old(v)@)),
    ensures
        hit_views(final(v)@) == hit_views(old(v)@).insert(hit_pos(hit_views(old(v)@), x@), x@),
        hit_views(final(v)@).to_multiset() == hit_views(old(v)@).to_multiset().insert(x@),
        hits_sorted(hit_views(final(v)@)),
{
    let mut p: usize = 0;
    let mut found = false;
    while p < v.len() && !found
        invariant
            p <= v@.len(),
            v@ == old(v)@,
            hits_sorted(hit_views(v@)),
            forall|k: int| 0 <= k < p ==> !hit_before(x@, #[trigger] hit_views(v@)[k]),
            found ==> p < v@.len() && hit_before(x@, hit_views(v@)[p as int]),
        decreases v@.len() - p, (if found { 0int } else { 1int }),
    {
        assert(hit_views(v@)[p as int] == v@[p as int]@);
        if hit_before_exec(&x, &v[p]) {
            found = true;
        } else {
            p = p + 1;
        }
    }
    let ghost before = hit_views(v@);
    let ghost xs = x@;
    v.insert(p, x);
    proof {
        lemma_hit_pos(before, xs, p as int);
        assert(hit_views(v@) =~= before.insert(p as int, xs));
        lemma_insert_to_multiset(before, p as int, xs);
        let after = hit_views(v@);
        assert forall|i: int, j: int| 0 <= i < j < after.len() implies !hit_before(
            #[trigger] after[j],
            #[trigger] after[i],
        ) by {
            if j < p {
                assert(after[i] == before[i] && after[j] == before[j]);
            } else if j == p {
                assert(after[i] == before[i]);
            } else if i < p {
                assert(after[i] == before[i] && after[j] == before[j - 1]);
            } else if i == p {
                assert(after[j] == before[j - 1]);
                lemma_hit_before_order(before[j - 1], xs, before[p as int]);
                lemma_hit_before_order(xs, before[p as int], xs);
            } else {
                assert(after[i] == before[i - 1] && after[j] == before[j - 1]);
            }
        }
    }
}

/// The values of lowered keywords.
pub open spec fn opt_texts(v: Seq<Option<Vec<char>>>) -> Seq<Option<Seq<char>>> {
    v.map_values(|k: Option<Vec<char>>| match k {
        Some(c) => Some(c@),
        None => None,
    })
}

/// The keywords as they are matched (see `lowered`), and how many are
/// given.
fn lower_keywords(keywords: &Vec<String>) -> (r: (Vec<Option<Vec<char>>>, usize))
    ensures
        opt_texts(r.0@) == lowered(texts(keywords@)),
        r.1 == nonempty_count(texts(keywords@)),
        ascii_lowering_known(texts(keywords@)),
{
    let mut lks: Vec<Option<Vec<char>>> = Vec::new();
    let mut n: usize = 0;
    let mut k: usize = 0;
    let ghost ks = texts(keywords@);
    assert(opt_texts(lks@) =~= lowered(ks.take(0)));
    while k < keywords.len()
        invariant
            k <= keywords@.len(),
            ks == texts(keywords@),
            n <= k,
            opt_texts(lks@) == lowered(ks.take(k as int)),
            n == given_count(lowered(ks.take(k as int))),
            ascii_lowering_known(ks.take(k as int)),
        decreases keywords@.len() - k,
    {
        let ghost before = lks@;
        assert(ks.take(k + 1).drop_last() =~= ks.take(k as int));
        assert(ks.take(k + 1).last() == keywords@[k as int]@);
        assert(lowered(ks.take(k + 1)).drop_last() =~= lowered(ks.take(k as int)));
        if keywords[k].as_str().is_empty() {
            lks.push(None);
        } else {
            lks.push(Some(chars_of(to_lowercase(keywords[k].as_str()).as_str())));
            n = n + 1;
        }
        assert(opt_texts(lks@) =~= opt_texts(before).push(lowered(ks.take(k + 1)).last()));
        assert(opt_texts(lks@) =~= lowered(ks.take(k + 1)));
        assert(ks.take(k + 1) =~= ks.take(k as int).push(ks[k as int]));
        k = k + 1;
    }
    assert(ks.take(keywords@.len() as int) =~= ks);
    (lks, n)
}

/// How many of the given keywords (lowercased; `None` for an empty one)
/// occur in the lowercased line `lower_line`.
pub fn matching_keywords(lower_line: &Vec<char>, lowered_keywords: &Vec<Option<Vec<char>>>) -> (m: usize)
    ensures
        m == present_count(lower_line@, opt_texts(lowered_keywords@)),
        m <= lowered_keywords@.len(),
{
    let ghost lks = opt_texts(lowered_keywords@);
    let mut m: usize = 0;
    let mut k: usize = 0;
    while k < lowered_keywords.len()
        invariant
            k <= lowered_keywords@.len(),
            lks == opt_texts(lowered_keywords@),
            m <= k,
            m == present_count(lower_line@, lks.take(k as int)),
        decreases lowered_keywords@.len() - k,
    {
        assert(lks.take(k + 1).drop_last() =~= lks.take(k as int));
        assert(lks.take(k + 1).last() == lks[k as int]);
        match &lowered_keywords[k] {
            Some(kw) => {
                if contains_exec(lower_line, kw) {
                    m = m + 1;
                }
            },
            None => {},
        }
        k = k + 1;
    }
    assert(lks.take(lowered_keywords@.len() as int) =~= lks);
    m
}

/// The hits in the lines of one file, inserted into `results`.
fn search_file(
    results: &mut Vec<SearchResult>,
    file: &String,
    content: &String,
    keywords: &Vec<String>,
    lower_kw: &Vec<Option<Vec<char>>>,
    wanted: usize,
)
    requires
        hits_sorted(hit_views(old(results)@)),
        opt_texts(lower_kw@) == lowered(texts(keywords@)),
        wanted == nonempty_count(texts(keywords@)),
    ensures
        hit_views(final(results)@) == insert_hits(
            hit_views(old(results)@),
            hits_upto(file@, split_lines(content@), texts(keywords@), split_lines(content@).len() as int),
        ),
        hits_sorted(hit_views(final(results)@)),
        hit_views(final(results)@).to_multiset() == (hit_views(old(results)@) + hits_upto(
            file@,
            split_lines(content@),
            texts(keywords@),
            split_lines(content@).len() as int,
        )).to_multiset(),
        ascii_lowering_known(split_lines(content@)),
{
    let lines = split_lines_exec(&chars_of(content.as_str()));
    let ghost ls = split_lines(content@);
    let ghost ks = texts(keywords@);
    let ghost start = hit_views(results@);
    let mut i: usize = 0;
    assert(start + hits_upto(file@, ls, ks, 0) =~= start);
    while i < lines.len()
        invariant
            i <= lines@.len(),
            char_lines(lines@) == ls,
            ks == texts(keywords@),
            start == hit_views(old(results)@),
            hits_sorted(hit_views(results@)),
            opt_texts(lower_kw@) == lowered(ks),
            wanted == nonempty_count(ks),
            hit_views(results@).to_multiset() == (start + hits_upto(file@, ls, ks, i as int)).to_multiset(),
            hit_views(results@) == insert_hits(start, hits_upto(file@, ls, ks, i as int)),
            ascii_lowering_known(ls.take(i as int)),
        decreases lines@.len() - i,
    {
        assert(ls[i as int] == lines@[i as int]@);
        let lower = chars_of(to_lowercase(string_of(&lines[i]).as_str()).as_str());
        let m = matching_keywords(&lower, lower_kw);
        if m > 0 && m == wanted {
            let before = if i > 0 {
                assert(ls[i - 1] == lines@[i - 1]@);
                string_of(&lines[i - 1])
            } else {
                String::new()
            };
            let after = if i + 1 < lines.len() {
                assert(ls[i + 1] == lines@[i + 1]@);
                string_of(&lines[i + 1])
            } else {
                String::new()
            };
            let hit = SearchResult {
                file: file.clone(),
                line: string_of(&lines[i]),
                line_number: i + 1,
                context_before: before,
                context_after: after,
                match_count: m as u32,
            };
            assert(hit@ == hit_at(file@, ls, i as int, ks));
            let ghost prev = hit_views(results@);
            insert_hit(results, hit);
            proof {
                let b = hits_upto(file@, ls, ks, i as int);
                let b1 = hits_upto(file@, ls, ks, i + 1);
                assert(b1 == b.push(hit_at(file@, ls, i as int, ks)));
                assert(b1.drop_last() =~= b);
                assert(b1.last() == hit_at(file@, ls, i as int, ks));
                assert(start + hits_upto(file@, ls, ks, i + 1) =~= (start + hits_upto(
                    file@,
                    ls,
                    ks,
                    i as int,
                )).push(hit_at(file@, ls, i as int, ks)));
                vstd::seq_lib::to_multiset_build(
                    start + hits_upto(file@, ls, ks, i as int),
                    hit_at(file@, ls, i as int, ks),
                );
            }
        } else {
            assert(!line_hit(ls[i as int], ks));
            assert(hits_upto(file@, ls, ks, i + 1) == hits_upto(file@, ls, ks, i as int));
        }
        assert(ls.take(i + 1) =~= ls.take(i as int).push(ls[i as int]));
        i = i + 1;
    }
    assert(ls.take(lines@.len() as int) =~= ls);
}

/// Searches the files, each given by its name and text in the order the
/// directory walk found them, for lines holding every non-empty keyword,
/// ignoring case. The results come latest file name first, then by line
/// number.
pub fn search_files(files: &Vec<(String, String)>, keywords: &Vec<String>) -> (r: Vec<SearchResult>)
    ensures
        hit_views(r@) == insert_hits(Seq::empty(), all_hits(file_views(files@), texts(keywords@))),
        hit_views(r@).to_multiset() == all_hits(file_views(files@), texts(keywords@)).to_multiset(),
        hits_sorted(hit_views(r@)),
        ascii_lowering_known(texts(keywords@)),
        forall|f: int| 0 <= f < files@.len() ==> ascii_lowering_known(split_lines(#[trigger] files@[f].1@)),
{
    let (lower_kw, wanted) = lower_keywords(keywords);
    let mut results: Vec<SearchResult> = Vec::new();
    let mut f: usize = 0;
    assert(file_views(files@).take(0) =~= Seq::<(Seq<char>, Seq<char>)>::empty());
    assert(hit_views(results@) =~= Seq::<SearchHit>::empty());
    while f < files.len()
        invariant
            f <= files@.len(),
            hits_sorted(hit_views(results@)),
            opt_texts(lower_kw@) == lowered(texts(keywords@)),
            wanted == nonempty_count(texts(keywords@)),
            hit_views(results@).to_multiset() == all_hits(file_views(files@).take(f as int), texts(keywords@)).to_multiset(),
            hit_views(results@) == insert_hits(Seq::empty(), all_hits(file_views(files@).take(f as int), texts(keywords@))),
            ascii_lowering_known(texts(keywords@)),
            forall|g: int| 0 <= g < f ==> ascii_lowering_known(split_lines(#[trigger] files@[g].1@)),
        decreases files@.len() - f,
    {
        let ghost fs = file_views(files@).take(f + 1);
        assert(fs.drop_last() =~= file_views(files@).take(f as int));
        assert(fs.last() == (files@[f as int].0@, files@[f as int].1@));
        let ghost prev = hit_views(results@);
        search_file(&mut results, &files[f].0, &files[f].1, keywords, &lower_kw, wanted);
        proof {
            let added = hits_upto(
                files@[f as int].0@,
                split_lines(files@[f as int].1@),
                texts(keywords@),
                split_lines(files@[f as int].1@).len() as int,
            );
            vstd::seq_lib::lemma_multiset_commutative(prev, added);
            vstd::seq_lib::lemma_multiset_commutative(all_hits(fs.drop_last(), texts(keywords@)), added);
            lemma_insert_hits_append(Seq::empty(), all_hits(fs.drop_last(), texts(keywords@)), added);
        }
        f = f + 1;
    }
    assert(file_views(files@).take(files@.len() as int) =~= file_views(files@));
    results
}

} // verus!
