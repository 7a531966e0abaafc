//! Character-level string helpers shared by the whole library.
//!
//! Strings are reasoned about through their view, the sequence of their
//! characters (`Seq<char>`); the executable helpers work on `Vec<char>`
//! and convert from and to `String` at the edges.
use vstd::prelude::*;
use vstd::string::*;

verus! {

broadcast use vstd::string::group_string_axioms;

// ---------------------------------------------------------------------------
// Specifications
// ---------------------------------------------------------------------------

/// The texts of a list of strings.
pub open spec fn texts(v: Seq<String>) -> Seq<Seq<char>> {
    v.map_values(|u: String| u@)
}

/// `p` is a prefix of `s`.
pub open spec fn starts_with(s: Seq<char>, p: Seq<char>) -> bool {
    p.len() <= s.len() && s.subrange(0, p.len() as int) == p
}

/// `p` is a suffix of `s`.
pub open spec fn ends_with(s: Seq<char>, p: Seq<char>) -> bool {
    p.len() <= s.len() && s.subrange(s.len() - p.len(), s.len() as int) == p
}

/// `p` occurs in `s` starting at position `i`.
pub open spec fn occurs_at(s: Seq<char>, p: Seq<char>, i: int) -> bool {
    0 <= i && i + p.len() <= s.len() && s.subrange(i, i + p.len()) == p
}

/// `p` occurs somewhere in `s` (the empty pattern occurs in every string).
pub open spec fn contains(s: Seq<char>, p: Seq<char>) -> bool {
    exists|i: int| occurs_at(s, p, i)
}

/// `c` occurs in `s`.
pub open spec fn has_char(s: Seq<char>, c: char) -> bool {
    exists|i: int| 0 <= i < s.len() && s[i] == c
}

/// Every occurrence of `p` in `s`, searched from the left and without
/// overlap, replaced by `r`. An empty pattern matches before every
/// character and at the end, as `str::replace` does.
pub open spec fn replace_all(s: Seq<char>, p: Seq<char>, r: Seq<char>) -> Seq<char>
    decreases s.len(),
{
    if p.len() == 0 {
        if s.len() == 0 {
            r
        } else {
            r + seq![s[0]] + replace_all(s.drop_first(), p, r)
        }
    } else if s.len() == 0 {
        s
    } else if starts_with(s, p) {
        r + replace_all(s.skip(p.len() as int), p, r)
    } else {
        seq![s[0]] + replace_all(s.drop_first(), p, r)
    }
}

/// Number of non-overlapping occurrences of `p` in `s`, searched from
/// the left, as `str::matches(..).count()` counts them.
pub open spec fn count_matches(s: Seq<char>, p: Seq<char>) -> nat
    decreases s.len(),
{
    if p.len() == 0 {
        s.len() + 1
    } else if s.len() == 0 {
        0
    } else if starts_with(s, p) {
        1 + count_matches(s.skip(p.len() as int), p)
    } else {
        count_matches(s.drop_first(), p)
    }
}

/// The first occurrence of `p` in `s` replaced by `r`, or `s` unchanged
/// when `p` does not occur (`str::replacen(p, r, 1)`).
pub open spec fn replace_first(s: Seq<char>, p: Seq<char>, r: Seq<char>) -> Seq<char>
    decreases s.len(),
{
    if starts_with(s, p) {
        r + s.skip(p.len() as int)
    } else if s.len() == 0 {
        s
    } else {
        seq![s[0]] + replace_first(s.drop_first(), p, r)
    }
}

/// The character of the decimal digit `d` (0 to 9).
pub open spec fn digit_char(d: nat) -> char {
    if d == 0 { '0' }
    else if d == 1 { '1' }
    else if d == 2 { '2' }
    else if d == 3 { '3' }
    else if d == 4 { '4' }
    else if d == 5 { '5' }
    else if d == 6 { '6' }
    else if d == 7 { '7' }
    else if d == 8 { '8' }
    else { '9' }
}

/// Decimal notation of a natural number, without leading zeros.
pub open spec fn dec_nat(n: nat) -> Seq<char>
    decreases n,
{
    if n < 10 {
        seq![digit_char(n)]
    } else {
        dec_nat(n / 10).push(digit_char(n % 10))
    }
}

/// Decimal notation of an integer, as `Display` writes it.
pub open spec fn dec_int(i: int) -> Seq<char> {
    if i < 0 {
        seq!['-'] + dec_nat((-i) as nat)
    } else {
        dec_nat(i as nat)
    }
}


/// Position of the first `c` in `s`, or the length of `s` when `c` does
/// not occur.
pub open spec fn char_pos(s: Seq<char>, c: char) -> int
    decreases s.len(),
{
    if s.len() == 0 {
        0
    } else if s[0] == c {
        0
    } else {
        1 + char_pos(s.drop_first(), c)
    }
}

/// `char_pos` is the first position holding `c`, or the length.
pub proof fn lemma_char_pos(s: Seq<char>, c: char)
    ensures
        0 <= char_pos(s, c) <= s.len(),
        forall|j: int| 0 <= j < char_pos(s, c) ==> s[j] != c,
        char_pos(s, c) < s.len() ==> s[char_pos(s, c)] == c,
        !has_char(s, c) <==> char_pos(s, c) == s.len(),
    decreases s.len(),
{
    if s.len() > 0 && s[0] != c {
        lemma_char_pos(s.drop_first(), c);
        assert forall|j: int| 0 <= j < char_pos(s, c) implies s[j] != c by {
            if j > 0 {
                assert(s[j] == s.drop_first()[j - 1]);
            }
        }
        if has_char(s, c) {
            let k = choose|k: int| 0 <= k < s.len() && s[k] == c;
            assert(s.drop_first()[k - 1] == c);
        }
        if has_char(s.drop_first(), c) {
            let k = choose|k: int| 0 <= k < s.drop_first().len() && s.drop_first()[k] == c;
            assert(s[k + 1] == c);
        }
    }
}


/// `s` without its leading run of `c` (`str::trim_start_matches(c)`).
pub open spec fn trim_leading(s: Seq<char>, c: char) -> Seq<char>
    decreases s.len(),
{
    if s.len() > 0 && s[0] == c {
        trim_leading(s.drop_first(), c)
    } else {
        s
    }
}

/// Trimming leaves a suffix of the string.
pub proof fn lemma_trim_leading_suffix(s: Seq<char>, c: char)
    ensures
        exists|k: int| 0 <= k <= s.len() && trim_leading(s, c) == s.skip(k),
    decreases s.len(),
{
    if s.len() > 0 && s[0] == c {
        lemma_trim_leading_suffix(s.drop_first(), c);
        let k = choose|k: int| 0 <= k <= s.drop_first().len() && trim_leading(s.drop_first(), c) == s.drop_first().skip(k);
        assert(s.drop_first().skip(k) =~= s.skip(k + 1));
    } else {
        assert(s.skip(0) =~= s);
    }
}

/// A pattern found in a suffix is found in the whole string.
pub proof fn lemma_contains_skip(s: Seq<char>, k: int, p: Seq<char>)
    requires
        0 <= k <= s.len(),
        contains(s.skip(k), p),
    ensures
        contains(s, p),
{
    let i = choose|i: int| occurs_at(s.skip(k), p, i);
    assert(s.skip(k).subrange(i, i + p.len()) =~= s.subrange(i + k, i + k + p.len()));
    assert(occurs_at(s, p, i + k));
}

/// Gluing a string without dots in front of a string without `..` makes
/// no `..`.
pub proof fn lemma_no_dotdot_concat(a: Seq<char>, t: Seq<char>)
    requires
        !has_char(a, '.'),
        !contains(t, seq!['.', '.']),
    ensures
        !contains(a + t, seq!['.', '.']),
{
    let dd = seq!['.', '.'];
    if contains(a + t, dd) {
        let i = choose|i: int| occurs_at(a + t, dd, i);
        let s = a + t;
        assert(s.subrange(i, i + 2)[0] == '.');
        assert(s[i] == '.');
        if i < a.len() {
            assert(a[i] == '.');
        } else {
            assert(s.subrange(i, i + 2) =~= t.subrange(i - a.len(), i - a.len() + 2));
            assert(occurs_at(t, dd, i - a.len()));
        }
    }
}


/// Bytes that `c` takes in UTF-8.
pub open spec fn utf8_width(c: char) -> nat {
    if (c as u32) <= 0x7f {
        1
    } else if (c as u32) <= 0x7ff {
        2
    } else if (c as u32) <= 0xffff {
        3
    } else {
        4
    }
}

/// Bytes that `s` takes in UTF-8 (what `str::len` returns).
pub open spec fn utf8_len(s: Seq<char>) -> nat
    decreases s.len(),
{
    if s.len() == 0 {
        0
    } else {
        utf8_len(s.drop_last()) + utf8_width(s.last())
    }
}

/// `sep` placed between the strings of `parts` (`join`).
pub open spec fn join(parts: Seq<Seq<char>>, sep: Seq<char>) -> Seq<char>
    decreases parts.len(),
{
    if parts.len() == 0 {
        Seq::empty()
    } else if parts.len() == 1 {
        parts[0]
    } else {
        join(parts.drop_last(), sep) + sep + parts.last()
    }
}

// ---------------------------------------------------------------------------
// Conversions
// ---------------------------------------------------------------------------

/// The characters of `s`, in order.
pub fn chars_of(s: &str) -> (v: Vec<char>)
    ensures
        v@ == s@,
{
    let mut v: Vec<char> = Vec::new();
    for c in it: s.chars()
        invariant
            it.seq() == s@,
            v@ == it.seq().take(it.index() as int),
    {
        v.push(c);
    }
    v
}

/// Appends one character to a string (`String::push`).
#[verifier::external_body]
fn push_char(s: &mut String, c: char)
    ensures
        final(s)@ == old(s)@.push(c),
{
    s.push(c);
}

/// The string made of the characters of `v`.
pub fn string_of(v: &Vec<char>) -> (s: String)
    ensures
        s@ == v@,
{
    let mut s = String::new();
    let mut i: usize = 0;
    while i < v.len()
        invariant
            i <= v.len(),
            s@ == v@.take(i as int),
        decreases v.len() - i,
    {
        push_char(&mut s, v[i]);
        assert(v@.take(i as int).push(v@[i as int]) =~= v@.take(i + 1));
        i = i + 1;
    }
    assert(v@.take(v.len() as int) =~= v@);
    s
}

/// A copy of `s` as an owned string.
pub fn owned(s: &str) -> (r: String)
    ensures
        r@ == s@,
{
    s.to_owned()
}

/// Lowercase form of a string as defined by Unicode (`str::to_lowercase`).
pub uninterp spec fn lowercase(s: Seq<char>) -> Seq<char>;

/// Every character is ASCII.
pub open spec fn is_ascii_text(s: Seq<char>) -> bool {
    forall|i: int| 0 <= i < s.len() ==> (#[trigger] s[i] as u32) < 128
}

/// An ASCII capital letter as small letter; any other character as is.
pub open spec fn ascii_lower_char(c: char) -> char {
    if 'A' <= c && c <= 'Z' {
        ((c as u32) + 32) as char
    } else {
        c
    }
}

/// The text with its ASCII capitals made small.
pub open spec fn ascii_lower(s: Seq<char>) -> Seq<char> {
    s.map_values(|c: char| ascii_lower_char(c))
}

/// Calls `str::to_lowercase`. Trusted: the result is `lowercase` of the
/// argument's characters, and on ASCII text, whose Unicode lowercase
/// mapping sends `A`..`Z` to `a`..`z` and keeps every other character, it
/// is that mapping. The rest of Unicode case mapping is not stated here.
#[verifier::external_body]
pub(crate) fn to_lowercase(s: &str) -> (r: String)
    ensures
        r@ == lowercase(s@),
        is_ascii_text(s@) ==> r@ == ascii_lower(s@),
{
    s.to_lowercase()
}

// ---------------------------------------------------------------------------
// Executable helpers on character vectors
// ---------------------------------------------------------------------------

/// Appends all of `r` to `out`.
pub fn extend_chars(out: &mut Vec<char>, r: &Vec<char>)
    ensures
        final(out)@ == old(out)@ + r@,
{
    let mut i: usize = 0;
    while i < r.len()
        invariant
            i <= r.len(),
            out@ == old(out)@ + r@.take(i as int),
        decreases r.len() - i,
    {
        out.push(r[i]);
        assert(r@.take(i as int).push(r@[i as int]) =~= r@.take(i + 1));
        i = i + 1;
    }
    assert(r@.take(r.len() as int) =~= r@);
}

/// Appends the characters of `t` to `out`.
pub fn extend_str(out: &mut Vec<char>, t: &str)
    ensures
        final(out)@ == old(out)@ + t@,
{
    let v = chars_of(t);
    extend_chars(out, &v);
}

/// Whether two character vectors are equal.
pub fn chars_eq(a: &Vec<char>, b: &Vec<char>) -> (r: bool)
    ensures
        r == (a@ == b@),
{
    if a.len() != b.len() {
        return false;
    }
    let mut i: usize = 0;
    while i < a.len()
        invariant
            a.len() == b.len(),
            i <= a.len(),
            forall|j: int| 0 <= j < i ==> a@[j] == b@[j],
        decreases a.len() - i,
    {
        if a[i] != b[i] {
            return false;
        }
        i = i + 1;
    }
    assert(a@ =~= b@);
    true
}

/// Whether two strings are equal.
pub fn str_eq(a: &str, b: &str) -> (r: bool)
    ensures
        r == (a@ == b@),
{
    let va = chars_of(a);
    let vb = chars_of(b);
    chars_eq(&va, &vb)
}

/// Whether `p` occurs in `s` at position `i`.
pub fn occurs_at_exec(s: &Vec<char>, p: &Vec<char>, i: usize) -> (r: bool)
    ensures
        r == occurs_at(s@, p@, i as int),
{
    if i > s.len() || p.len() > s.len() - i {
        return false;
    }
    let mut j: usize = 0;
    while j < p.len()
        invariant
            i + p.len() <= s.len(),
            j <= p.len(),
            forall|k: int| 0 <= k < j ==> s@[i + k] == p@[k],
        decreases p.len() - j,
    {
        if s[i + j] != p[j] {
            assert(s@.subrange(i as int, i + p.len())[j as int] != p@[j as int]);
            return false;
        }
        j = j + 1;
    }
    assert(s@.subrange(i as int, i + p.len()) =~= p@);
    true
}

/// Whether `s` begins with `p`.
pub fn starts_with_exec(s: &Vec<char>, p: &Vec<char>) -> (r: bool)
    ensures
        r == starts_with(s@, p@),
{
    occurs_at_exec(s, p, 0)
}

/// Whether `s` ends with `p`.
pub fn ends_with_exec(s: &Vec<char>, p: &Vec<char>) -> (r: bool)
    ensures
        r == ends_with(s@, p@),
{
    if p.len() > s.len() {
        return false;
    }
    occurs_at_exec(s, p, s.len() - p.len())
}

/// Position of the first occurrence of `p` in `s`, if any.
pub fn find_exec(s: &Vec<char>, p: &Vec<char>) -> (r: Option<usize>)
    ensures
        match r {
            Some(i) => occurs_at(s@, p@, i as int) && forall|j: int|
                0 <= j < i ==> !occurs_at(s@, p@, j),
            None => !contains(s@, p@),
        },
{
    if p.len() > s.len() {
        return None;
    }
    let last = s.len() - p.len();
    let mut i: usize = 0;
    while i <= last
        invariant
            last + p.len() == s.len(),
            i <= last + 1,
            forall|j: int| 0 <= j < i ==> !occurs_at(s@, p@, j),
        decreases last + 1 - i,
    {
        if occurs_at_exec(s, p, i) {
            return Some(i);
        }
        if i == last {
            return None;
        }
        i = i + 1;
    }
    None
}

/// Whether `p` occurs in `s`.
pub fn contains_exec(s: &Vec<char>, p: &Vec<char>) -> (r: bool)
    ensures
        r == contains(s@, p@),
{
    find_exec(s, p).is_some()
}

/// Whether the string `p` occurs in the string `s`.
pub fn str_contains(s: &str, p: &str) -> (r: bool)
    ensures
        r == contains(s@, p@),
{
    let vs = chars_of(s);
    let vp = chars_of(p);
    contains_exec(&vs, &vp)
}

/// Whether the string `s` begins with the string `p`.
pub fn str_starts_with(s: &str, p: &str) -> (r: bool)
    ensures
        r == starts_with(s@, p@),
{
    let vs = chars_of(s);
    let vp = chars_of(p);
    starts_with_exec(&vs, &vp)
}

/// Position of the first `c` in `s`, if any.
pub fn find_char_exec(s: &Vec<char>, c: char) -> (r: Option<usize>)
    ensures
        match r {
            Some(i) => i < s.len() && s@[i as int] == c && forall|j: int| 0 <= j < i ==> s@[j] != c,
            None => !has_char(s@, c),
        },
{
    let mut i: usize = 0;
    while i < s.len()
        invariant
            i <= s.len(),
            forall|j: int| 0 <= j < i ==> s@[j] != c,
        decreases s.len() - i,
    {
        if s[i] == c {
            return Some(i);
        }
        i = i + 1;
    }
    None
}

/// Position of the first `c` in `s`, or its length when there is none.
pub fn char_pos_exec(s: &Vec<char>, c: char) -> (r: usize)
    ensures
        r as int == char_pos(s@, c),
{
    proof { lemma_char_pos(s@, c); }
    match find_char_exec(s, c) {
        Some(i) => {
            assert(i as int == char_pos(s@, c)) by {
                if char_pos(s@, c) < i {
                    assert(s@[char_pos(s@, c)] == c);
                }
            }
            i
        },
        None => s.len(),
    }
}

/// `s` without its leading run of `c`.
pub fn trim_leading_exec(s: &Vec<char>, c: char) -> (r: Vec<char>)
    ensures
        r@ == trim_leading(s@, c),
{
    let mut i: usize = 0;
    assert(s@.skip(0) =~= s@);
    while i < s.len() && s[i] == c
        invariant
            i <= s.len(),
            trim_leading(s@, c) == trim_leading(s@.skip(i as int), c),
        decreases s.len() - i,
    {
        assert(s@.skip(i as int).drop_first() =~= s@.skip(i + 1));
        i = i + 1;
    }
    let r = slice_chars(s, i, s.len());
    assert(r@ =~= s@.skip(i as int));
    r
}

/// Bytes that `c` takes in UTF-8.
pub fn utf8_width_exec(c: char) -> (r: u128)
    ensures
        r == utf8_width(c),
{
    let u = c as u32;
    if u <= 0x7f {
        1
    } else if u <= 0x7ff {
        2
    } else if u <= 0xffff {
        3
    } else {
        4
    }
}

/// Bytes that `s` takes in UTF-8.
pub fn utf8_len_exec(s: &Vec<char>) -> (r: u128)
    ensures
        r == utf8_len(s@),
        r <= 4 * s@.len(),
{
    let mut acc: u128 = 0;
    let mut i: usize = 0;
    assert(s@.take(0) =~= Seq::<char>::empty());
    while i < s.len()
        invariant
            i <= s@.len(),
            acc == utf8_len(s@.take(i as int)),
            acc <= 4 * i,
        decreases s@.len() - i,
    {
        assert(s@.take(i + 1).drop_last() =~= s@.take(i as int));
        acc = acc + utf8_width_exec(s[i]);
        i = i + 1;
    }
    assert(s@.take(s@.len() as int) =~= s@);
    acc
}

/// Joins `parts` with `sep` between them.
pub fn join_exec(parts: &Vec<Vec<char>>, sep: &Vec<char>) -> (r: Vec<char>)
    ensures
        r@ == join(parts@.map_values(|p: Vec<char>| p@), sep@),
{
    let ghost ps = parts@.map_values(|p: Vec<char>| p@);
    let mut out: Vec<char> = Vec::new();
    let mut i: usize = 0;
    assert(ps.take(0) =~= Seq::<Seq<char>>::empty());
    while i < parts.len()
        invariant
            i <= parts@.len(),
            ps == parts@.map_values(|p: Vec<char>| p@),
            out@ == join(ps.take(i as int), sep@),
        decreases parts@.len() - i,
    {
        assert(ps.take(i + 1).drop_last() =~= ps.take(i as int));
        if i > 0 {
            extend_chars(&mut out, sep);
        } else {
            assert(ps.take(1).len() == 1);
        }
        extend_chars(&mut out, &parts[i]);
        proof {
            if i == 0 {
                assert(join(ps.take(1), sep@) == ps.take(1)[0]);
                assert(out@ =~= join(ps.take(1), sep@));
            } else {
                assert(out@ =~= join(ps.take(i + 1), sep@));
            }
        }
        i = i + 1;
    }
    assert(ps.take(parts@.len() as int) =~= ps);
    out
}

/// Decimal notation of `n`.
pub fn fmt_u128(n: u128) -> (v: Vec<char>)
    ensures
        v@ == dec_nat(n as nat),
    decreases n,
{
    if n < 10 {
        let mut v: Vec<char> = Vec::new();
        v.push(digit_exec(n as u64));
        assert(v@ =~= seq![digit_char(n as nat)]);
        v
    } else {
        let mut v = fmt_u128(n / 10);
        v.push(digit_exec((n % 10) as u64));
        v
    }
}

/// The characters of `s` from `lo` up to (not including) `hi`.
pub fn slice_chars(s: &Vec<char>, lo: usize, hi: usize) -> (r: Vec<char>)
    requires
        lo <= hi <= s.len(),
    ensures
        r@ == s@.subrange(lo as int, hi as int),
{
    let mut r: Vec<char> = Vec::new();
    let mut i: usize = lo;
    while i < hi
        invariant
            lo <= i <= hi <= s.len(),
            r@ == s@.subrange(lo as int, i as int),
        decreases hi - i,
    {
        r.push(s[i]);
        assert(s@.subrange(lo as int, i as int).push(s@[i as int]) =~= s@.subrange(lo as int, i + 1));
        i = i + 1;
    }
    r
}

/// Every occurrence of `p` in `s` replaced by `r` (`str::replace`).
pub fn replace_all_exec(s: &Vec<char>, p: &Vec<char>, r: &Vec<char>) -> (out: Vec<char>)
    ensures
        out@ == replace_all(s@, p@, r@),
{
    let mut out: Vec<char> = Vec::new();
    let mut i: usize = 0;
    assert(s@.skip(0) =~= s@);
    while i < s.len()
        invariant
            i <= s.len(),
            replace_all(s@, p@, r@) == out@ + replace_all(s@.skip(i as int), p@, r@),
        decreases s.len() - i,
    {
        let ghost rest = s@.skip(i as int);
        assert(rest.drop_first() =~= s@.skip(i + 1));
        assert(rest[0] == s@[i as int]);
        if p.len() == 0 {
            let ghost before = out@;
            extend_chars(&mut out, r);
            out.push(s[i]);
            assert(out@ =~= before + (r@ + seq![s@[i as int]]));
            assert(replace_all(rest, p@, r@) == r@ + seq![rest[0]] + replace_all(rest.drop_first(), p@, r@));
            i = i + 1;
            assert(replace_all(s@, p@, r@) =~= out@ + replace_all(s@.skip(i as int), p@, r@));
        } else if occurs_at_exec(s, p, i) {
            assert(rest.subrange(0, p@.len() as int) =~= s@.subrange(i as int, i + p@.len()));
            assert(rest.skip(p@.len() as int) =~= s@.skip(i + p@.len()));
            let ghost before = out@;
            extend_chars(&mut out, r);
            i = i + p.len();
            assert(replace_all(s@, p@, r@) =~= out@ + replace_all(s@.skip(i as int), p@, r@));
        } else {
            assert(!starts_with(rest, p@)) by {
                if starts_with(rest, p@) {
                    assert(rest.subrange(0, p@.len() as int) =~= s@.subrange(i as int, i + p@.len()));
                }
            }
            let ghost before = out@;
            out.push(s[i]);
            i = i + 1;
            assert(replace_all(s@, p@, r@) =~= out@ + replace_all(s@.skip(i as int), p@, r@));
        }
    }
    let ghost empty: Seq<char> = seq![];
    assert(s@.skip(i as int) =~= empty);
    if p.len() == 0 {
        let ghost before = out@;
        extend_chars(&mut out, r);
        assert(replace_all(s@, p@, r@) =~= out@);
    } else {
        assert(replace_all(s@, p@, r@) =~= out@);
    }
    out
}

/// Number of occurrences of `p` in `s` (`str::matches(p).count()`).
pub fn count_matches_exec(s: &Vec<char>, p: &Vec<char>) -> (n: usize)
    requires
        s@.len() < usize::MAX,
    ensures
        n == count_matches(s@, p@),
{
    if p.len() == 0 {
        return s.len() + 1;
    }
    let mut n: usize = 0;
    let mut i: usize = 0;
    assert(s@.skip(0) =~= s@);
    while i < s.len()
        invariant
            p@.len() > 0,
            i <= s.len(),
            n <= i,
            count_matches(s@, p@) == n + count_matches(s@.skip(i as int), p@),
        decreases s.len() - i,
    {
        let ghost rest = s@.skip(i as int);
        if occurs_at_exec(s, p, i) {
            assert(rest.subrange(0, p@.len() as int) =~= s@.subrange(i as int, i + p@.len()));
            assert(rest.skip(p@.len() as int) =~= s@.skip(i + p@.len()));
            n = n + 1;
            i = i + p.len();
        } else {
            assert(!starts_with(rest, p@)) by {
                if starts_with(rest, p@) {
                    assert(rest.subrange(0, p@.len() as int) =~= s@.subrange(i as int, i + p@.len()));
                }
            }
            assert(rest.drop_first() =~= s@.skip(i + 1));
            i = i + 1;
        }
    }
    let ghost empty: Seq<char> = seq![];
    assert(s@.skip(i as int) =~= empty);
    n
}

/// The first occurrence of `p` in `s` replaced by `r` (`str::replacen(p, r, 1)`).
pub fn replace_first_exec(s: &Vec<char>, p: &Vec<char>, r: &Vec<char>) -> (out: Vec<char>)
    ensures
        out@ == replace_first(s@, p@, r@),
{
    let mut out: Vec<char> = Vec::new();
    let mut i: usize = 0;
    assert(s@.skip(0) =~= s@);
    while i < s.len()
        invariant
            i <= s.len(),
            replace_first(s@, p@, r@) == out@ + replace_first(s@.skip(i as int), p@, r@),
            out@ == s@.take(i as int),
        decreases s.len() - i,
    {
        let ghost rest = s@.skip(i as int);
        if occurs_at_exec(s, p, i) {
            assert(rest.subrange(0, p@.len() as int) =~= s@.subrange(i as int, i + p@.len()));
            let tail = slice_chars(s, i + p.len(), s.len());
            assert(rest.skip(p@.len() as int) =~= tail@);
            extend_chars(&mut out, r);
            extend_chars(&mut out, &tail);
            assert(replace_first(s@, p@, r@) =~= out@);
            return out;
        }
        assert(!starts_with(rest, p@)) by {
            if starts_with(rest, p@) {
                assert(rest.subrange(0, p@.len() as int) =~= s@.subrange(i as int, i + p@.len()));
            }
        }
        assert(rest.drop_first() =~= s@.skip(i + 1));
        out.push(s[i]);
        assert(s@.take(i as int).push(s@[i as int]) =~= s@.take(i + 1));
        i = i + 1;
        assert(replace_first(s@, p@, r@) =~= out@ + replace_first(s@.skip(i as int), p@, r@));
    }
    let ghost empty: Seq<char> = seq![];
    assert(s@.skip(i as int) =~= empty);
    if p.len() == 0 {
        // the empty pattern matches at the end
        assert(empty.subrange(0, 0) =~= p@);
        extend_chars(&mut out, r);
        assert(replace_first(empty, p@, r@) =~= r@);
    }
    assert(replace_first(s@, p@, r@) =~= out@);
    out
}

/// The character of the decimal digit `d`.
pub fn digit_exec(d: u64) -> (c: char)
    requires
        d < 10,
    ensures
        c == digit_char(d as nat),
{
    if d == 0 { '0' }
    else if d == 1 { '1' }
    else if d == 2 { '2' }
    else if d == 3 { '3' }
    else if d == 4 { '4' }
    else if d == 5 { '5' }
    else if d == 6 { '6' }
    else if d == 7 { '7' }
    else if d == 8 { '8' }
    else { '9' }
}

/// Decimal notation of `n`.
pub fn fmt_u64(n: u64) -> (v: Vec<char>)
    ensures
        v@ == dec_nat(n as nat),
    decreases n,
{
    if n < 10 {
        let mut v: Vec<char> = Vec::new();
        v.push(digit_exec(n));
        assert(v@ =~= seq![digit_char(n as nat)]);
        v
    } else {
        let mut v = fmt_u64(n / 10);
        v.push(digit_exec(n % 10));
        v
    }
}

/// Decimal notation of `n`, with a leading `-` when negative.
pub fn fmt_i64(n: i64) -> (v: Vec<char>)
    ensures
        v@ == dec_int(n as int),
{
    if n < 0 {
        let m: u64 = if n == i64::MIN { 9223372036854775808u64 } else { (-n) as u64 };
        let digits = fmt_u64(m);
        let mut v: Vec<char> = Vec::new();
        v.push('-');
        extend_chars(&mut v, &digits);
        assert(v@ =~= seq!['-'] + digits@);
        v
    } else {
        fmt_u64(n as u64)
    }
}

// ---------------------------------------------------------------------------
// Lines
// ---------------------------------------------------------------------------

/// A line without the carriage return of a `\r\n` ending.
pub open spec fn strip_cr(l: Seq<char>) -> Seq<char> {
    if l.len() > 0 && l.last() == '\r' {
        l.drop_last()
    } else {
        l
    }
}

/// The lines of a text, as `str::lines` yields them: split at each `\n`,
/// a `\r` before it dropped, and no empty line after a final `\n`.
pub open spec fn split_lines(s: Seq<char>) -> Seq<Seq<char>>
    decreases s.len(),
{
    if s.len() == 0 {
        Seq::empty()
    } else {
        let i = char_pos(s, '\n');
        if 0 <= i < s.len() {
            seq![strip_cr(s.take(i))] + split_lines(s.skip(i + 1))
        } else {
            seq![s]
        }
    }
}

/// The texts of a list of character vectors.
pub open spec fn char_lines(v: Seq<Vec<char>>) -> Seq<Seq<char>> {
    v.map_values(|l: Vec<char>| l@)
}

/// The lines of `s`.
pub fn split_lines_exec(s: &Vec<char>) -> (r: Vec<Vec<char>>)
    ensures
        char_lines(r@) == split_lines(s@),
{
    let mut out: Vec<Vec<char>> = Vec::new();
    let mut rest = slice_chars(s, 0, s.len());
    assert(rest@ =~= s@);
    assert(char_lines(out@) =~= Seq::<Seq<char>>::empty());
    assert(split_lines(s@) =~= char_lines(out@) + split_lines(rest@));
    while rest.len() > 0
        invariant
            split_lines(s@) == char_lines(out@) + split_lines(rest@),
        decreases rest@.len(),
    {
        let i = char_pos_exec(&rest, '\n');
        proof { lemma_char_pos(rest@, '\n'); }
        let ghost before = char_lines(out@);
        if i < rest.len() {
            let mut line = slice_chars(&rest, 0, i);
            assert(line@ =~= rest@.take(i as int));
            if line.len() > 0 && line[line.len() - 1] == '\r' {
                line.pop();
            }
            let ghost l = line@;
            out.push(line);
            assert(char_lines(out@) =~= before.push(l));
            let next = slice_chars(&rest, i + 1, rest.len());
            assert(next@ =~= rest@.skip(i + 1));
            assert(before.push(l) + split_lines(next@) =~= before + (seq![l] + split_lines(next@)));
            rest = next;
        } else {
            let ghost r = rest@;
            let last = slice_chars(&rest, 0, rest.len());
            assert(last@ =~= r);
            out.push(last);
            assert(char_lines(out@) =~= before.push(r));
            rest = Vec::new();
            assert(split_lines(rest@) =~= Seq::<Seq<char>>::empty());
            assert(char_lines(out@) + split_lines(rest@) =~= before + seq![r]);
        }
    }
    assert(split_lines(rest@) =~= Seq::<Seq<char>>::empty());
    assert(char_lines(out@) + split_lines(rest@) =~= char_lines(out@));
    out
}


} // verus!
