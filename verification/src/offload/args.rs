//! Command-line style argument parsing for offload commands: `--flag`,
//! `--key value`, `--key=value`, `-f` and positional words.
use vstd::prelude::*;
use crate::params::{bool_param, lemma_lookup_push, lookup, str_param, ParamValue, Params};
use crate::text::{
    char_pos, char_pos_exec, chars_eq, chars_of, has_char, lowercase, owned, slice_chars,
    starts_with, starts_with_exec, str_eq, string_of, to_lowercase, is_ascii_text, ascii_lower,
};

verus! {

broadcast use vstd::string::group_string_axioms;

/// What the arguments say: positional words in order, the flags given, and
/// the value of each key (the last one given wins).
pub struct ArgsModel {
    pub positional: Seq<Seq<char>>,
    pub flags: Set<Seq<char>>,
    pub values: Map<Seq<char>, Seq<char>>,
}

/// Reads `argv[i..]` into `acc`, left to right:
/// `--key=value` sets a value; `--key` is a flag when `key` is declared
/// boolean, when it is the last word, or when the next word begins with
/// `-`, and otherwise takes the next word as its value; `-x` (longer than
/// `-`) is the flag `x`; anything else is positional.
pub open spec fn parse_from(
    argv: Seq<Seq<char>>,
    bools: Set<Seq<char>>,
    i: int,
    acc: ArgsModel,
) -> ArgsModel
    decreases argv.len() - i,
{
    if i < 0 || i >= argv.len() {
        acc
    } else {
        let a = argv[i];
        if starts_with(a, "--"@) && has_char(a, '=') {
            let eq = char_pos(a, '=');
            parse_from(
                argv,
                bools,
                i + 1,
                ArgsModel { values: acc.values.insert(a.subrange(2, eq), a.skip(eq + 1)), ..acc },
            )
        } else if starts_with(a, "--"@) {
            let key = a.skip(2);
            if bools.contains(key) || i + 1 >= argv.len() || starts_with(argv[i + 1], "-"@) {
                parse_from(argv, bools, i + 1, ArgsModel { flags: acc.flags.insert(key), ..acc })
            } else {
                parse_from(
                    argv,
                    bools,
                    i + 2,
                    ArgsModel { values: acc.values.insert(key, argv[i + 1]), ..acc },
                )
            }
        } else if starts_with(a, "-"@) && a.len() > 1 {
            parse_from(argv, bools, i + 1, ArgsModel { flags: acc.flags.insert(a.skip(1)), ..acc })
        } else {
            parse_from(argv, bools, i + 1, ArgsModel { positional: acc.positional.push(a), ..acc })
        }
    }
}

/// The model of parsing all of `argv` with the boolean flags `bools`.
pub open spec fn parse_args(argv: Seq<Seq<char>>, bools: Set<Seq<char>>) -> ArgsModel {
    parse_from(
        argv,
        bools,
        0,
        ArgsModel { positional: Seq::empty(), flags: Set::empty(), values: Map::empty() },
    )
}

/// The characters of each string.
pub open spec fn views(v: Seq<String>) -> Seq<Seq<char>> {
    v.map_values(|s: String| s@)
}

/// Whether `c` is an ASCII decimal digit.
pub open spec fn is_digit(c: char) -> bool {
    '0' <= c && c <= '9'
}

/// The value of a string of decimal digits.
pub open spec fn digits_value(d: Seq<char>) -> nat
    decreases d.len(),
{
    if d.len() == 0 {
        0
    } else {
        digits_value(d.drop_last()) * 10 + ((d.last() as u32 - '0' as u32) as nat)
    }
}

/// Length of the sign in front of a number: one for `+` or `-`.
pub open spec fn sign_len(s: Seq<char>) -> int {
    if s.len() > 0 && (s[0] == '-' || s[0] == '+') {
        1
    } else {
        0
    }
}

/// Every character is an ASCII digit.
pub open spec fn all_digits(d: Seq<char>) -> bool {
    forall|i: int| 0 <= i < d.len() ==> is_digit(#[trigger] d[i])
}

/// The value of a decimal number with an optional sign.
pub open spec fn signed_value(s: Seq<char>) -> int {
    if s.len() > 0 && s[0] == '-' {
        -(digits_value(s.skip(1)) as int)
    } else {
        digits_value(s.skip(sign_len(s))) as int
    }
}

/// What `str::parse::<i64>` gives: an optional `+` or `-`, then one or
/// more ASCII digits, whose value must fit in `i64`.
pub open spec fn parse_i64(s: Seq<char>) -> Option<i64> {
    let digits = s.skip(sign_len(s));
    if digits.len() == 0 || !all_digits(digits) {
        None
    } else if signed_value(s) < i64::MIN || signed_value(s) > i64::MAX {
        None
    } else {
        Some(signed_value(s) as i64)
    }
}

/// What `get_bool` makes of a value: true for `true`, `1` or `yes` in any
/// letter case.
pub open spec fn truthy(s: Seq<char>) -> bool {
    truthy_lower(lowercase(s))
}

/// Whether a lowercased value reads as true: `true`, `1` or `yes`.
pub open spec fn truthy_lower(l: Seq<char>) -> bool {
    l == "true"@ || l == "1"@ || l == "yes"@
}

/// Whether a lowercased value reads as true: `true`, `1` or `yes`.
pub fn is_truthy_lowercase(l: &str) -> (r: bool)
    ensures
        r == truthy_lower(l@),
{
    let lv = chars_of(l);
    chars_eq(&lv, &chars_of("true")) || chars_eq(&lv, &chars_of("1")) || chars_eq(&lv, &chars_of("yes"))
}

/// Parsed offload arguments.
pub struct OffloadArgs {
    pub positional: Vec<String>,
    flags: Vec<String>,
    values: Vec<(String, String)>,
}

impl OffloadArgs {
    /// Flags and keys are stored once each.
    pub closed spec fn wf(&self) -> bool {
        &&& forall|i: int, j: int|
            0 <= i < j < self.flags@.len() ==> (#[trigger] self.flags@[i])@ != (#[trigger] self.flags@[j])@
        &&& forall|i: int, j: int|
            0 <= i < j < self.values@.len() ==> (#[trigger] self.values@[i]).0@
                != (#[trigger] self.values@[j]).0@
    }

    /// What these arguments say.
    pub closed spec fn model(&self) -> ArgsModel {
        ArgsModel {
            positional: views(self.positional@),
            flags: Set::new(|k: Seq<char>| exists|i: int| 0 <= i < self.flags@.len() && self.flags@[i]@ == k),
            values: Map::new(
                |k: Seq<char>| exists|i: int| 0 <= i < self.values@.len() && self.values@[i].0@ == k,
                |k: Seq<char>|
                    {
                        let i = choose|i: int| 0 <= i < self.values@.len() && self.values@[i].0@ == k;
                        self.values@[i].1@
                    },
            ),
        }
    }
}

/// The set of the boolean flag names.
pub open spec fn bool_set(b: Seq<&str>) -> Set<Seq<char>> {
    Set::new(|k: Seq<char>| exists|i: int| 0 <= i < b.len() && b[i]@ == k)
}

/// Whether `key` is one of the boolean flag names.
fn is_bool_flag(key: &Vec<char>, boolean_flags: &[&str]) -> (r: bool)
    ensures
        r == bool_set(boolean_flags@).contains(key@),
{
    let mut i: usize = 0;
    while i < boolean_flags.len()
        invariant
            i <= boolean_flags@.len(),
            forall|k: int| 0 <= k < i ==> boolean_flags@[k]@ != key@,
        decreases boolean_flags@.len() - i,
    {
        let f = chars_of(boolean_flags[i]);
        if chars_eq(&f, key) {
            assert(bool_set(boolean_flags@).contains(key@));
            return true;
        }
        i = i + 1;
    }
    false
}

impl OffloadArgs {
    /// No arguments.
    fn empty() -> (r: Self)
        ensures
            r.wf(),
            r.model() == (ArgsModel { positional: Seq::empty(), flags: Set::empty(), values: Map::empty() }),
    {
        let r = OffloadArgs { positional: Vec::new(), flags: Vec::new(), values: Vec::new() };
        assert(r.model().positional =~= Seq::<Seq<char>>::empty());
        assert(r.model().flags =~= Set::<Seq<char>>::empty());
        assert(r.model().values =~= Map::<Seq<char>, Seq<char>>::empty());
        r
    }

    /// Where `key` is stored among the values, if it is.
    fn value_position(&self, key: &str) -> (r: Option<usize>)
        ensures
            match r {
                Some(i) => i < self.values@.len() && self.values@[i as int].0@ == key@,
                None => forall|i: int| 0 <= i < self.values@.len() ==> self.values@[i].0@ != key@,
            },
    {
        let mut i: usize = 0;
        while i < self.values.len()
            invariant
                i <= self.values@.len(),
                forall|k: int| 0 <= k < i ==> self.values@[k].0@ != key@,
            decreases self.values@.len() - i,
        {
            if str_eq(self.values[i].0.as_str(), key) {
                return Some(i);
            }
            i = i + 1;
        }
        None
    }

    /// Whether the flag `key` is stored.
    fn flag_position(&self, key: &str) -> (r: Option<usize>)
        ensures
            match r {
                Some(i) => i < self.flags@.len() && self.flags@[i as int]@ == key@,
                None => forall|i: int| 0 <= i < self.flags@.len() ==> self.flags@[i]@ != key@,
            },
    {
        let mut i: usize = 0;
        while i < self.flags.len()
            invariant
                i <= self.flags@.len(),
                forall|k: int| 0 <= k < i ==> self.flags@[k]@ != key@,
            decreases self.flags@.len() - i,
        {
            if str_eq(self.flags[i].as_str(), key) {
                return Some(i);
            }
            i = i + 1;
        }
        None
    }

    proof fn lemma_value_at(&self, i: int)
        requires
            self.wf(),
            0 <= i < self.values@.len(),
        ensures
            self.model().values.contains_key(self.values@[i].0@),
            self.model().values[self.values@[i].0@] == self.values@[i].1@,
    {
        let k = self.values@[i].0@;
        assert(exists|j: int| 0 <= j < self.values@.len() && self.values@[j].0@ == k);
        let j = choose|j: int| 0 <= j < self.values@.len() && self.values@[j].0@ == k;
        if j != i {
            if j < i {
                assert(self.values@[j].0@ != self.values@[i].0@);
            } else {
                assert(self.values@[i].0@ != self.values@[j].0@);
            }
        }
    }

    /// Sets `key` to `value`, replacing an earlier value.
    fn set_value(&mut self, key: String, value: String)
        requires
            old(self).wf(),
        ensures
            final(self).wf(),
            final(self).model() == (ArgsModel {
                values: old(self).model().values.insert(key@, value@),
                ..old(self).model()
            }),
    {
        let ghost old_model = self.model();
        let ghost before = self.values@;
        let ghost kv = key@;
        let ghost vv = value@;
        match self.value_position(key.as_str()) {
            Some(i) => {
                self.values.set(i, (key, value));
                assert(self.values@[i as int].0@ == kv);
                proof {
                    assert forall|a: int, b: int| 0 <= a < b < self.values@.len() implies
                        (#[trigger] self.values@[a]).0@ != (#[trigger] self.values@[b]).0@ by {
                        assert(before[a].0@ != before[b].0@);
                    }
                }
            },
            None => {
                self.values.push((key, value));
                assert(self.values@[before.len() as int].0@ == kv);
                proof {
                    assert forall|a: int, b: int| 0 <= a < b < self.values@.len() implies
                        (#[trigger] self.values@[a]).0@ != (#[trigger] self.values@[b]).0@ by {
                        if b < before.len() {
                            assert(before[a].0@ != before[b].0@);
                        }
                    }
                }
            },
        }
        proof {
            let m = self.model().values;
            let target = old_model.values.insert(kv, vv);
            assert forall|k: Seq<char>| #![auto] m.contains_key(k) == target.contains_key(k) by {
                if m.contains_key(k) {
                    let j = choose|j: int| 0 <= j < self.values@.len() && self.values@[j].0@ == k;
                    if k != kv {
                        assert(j < before.len() && before[j].0@ == k);
                    }
                }
                if target.contains_key(k) && k != kv {
                    let j = choose|j: int| 0 <= j < before.len() && before[j].0@ == k;
                    assert(self.values@[j].0@ == k);
                }
            }
            assert forall|k: Seq<char>| #![auto] m.contains_key(k) implies m[k] == target[k] by {
                let j = choose|j: int| 0 <= j < self.values@.len() && self.values@[j].0@ == k;
                self.lemma_value_at(j);
                if k != kv {
                    assert(before[j] == self.values@[j]);
                    let j2 = choose|j2: int| 0 <= j2 < before.len() && before[j2].0@ == k;
                    if j2 != j {
                        if j2 < j {
                            assert(before[j2].0@ != before[j].0@);
                        } else {
                            assert(before[j].0@ != before[j2].0@);
                        }
                    }
                }
            }
            assert(m =~= target);
            assert(self.model().flags =~= old_model.flags);
            assert(self.model().positional =~= old_model.positional);
        }
    }

    /// Sets the flag `key`.
    fn set_flag(&mut self, key: String)
        requires
            old(self).wf(),
        ensures
            final(self).wf(),
            final(self).model() == (ArgsModel {
                flags: old(self).model().flags.insert(key@),
                ..old(self).model()
            }),
    {
        let ghost old_model = self.model();
        let ghost before = self.flags@;
        let ghost kv = key@;
        match self.flag_position(key.as_str()) {
            Some(i) => {
                assert(self.model().flags.contains(kv));
            },
            None => {
                self.flags.push(key);
                proof {
                    assert forall|a: int, b: int| 0 <= a < b < self.flags@.len() implies
                        (#[trigger] self.flags@[a])@ != (#[trigger] self.flags@[b])@ by {
                        if b < before.len() {
                            assert(before[a]@ != before[b]@);
                        }
                    }
                }
            },
        }
        proof {
            let f = self.model().flags;
            assert forall|k: Seq<char>| #![auto] f.contains(k) == old_model.flags.insert(kv).contains(k) by {
                if f.contains(k) && k != kv {
                    let j = choose|j: int| 0 <= j < self.flags@.len() && self.flags@[j]@ == k;
                    assert(before[j]@ == k);
                }
                if old_model.flags.contains(k) {
                    let j = choose|j: int| 0 <= j < before.len() && before[j]@ == k;
                    assert(self.flags@[j]@ == k);
                }
                if k == kv && !old_model.flags.contains(kv) {
                    assert(self.flags@[before.len() as int]@ == kv);
                }
            }
            assert(f =~= old_model.flags.insert(kv));
            assert(self.model().values =~= old_model.values);
            assert(self.model().positional =~= old_model.positional);
        }
    }

    /// Parses `argv`; the names in `boolean_flags` never take a value.
    pub fn from_argv(argv: &[String], boolean_flags: &[&str]) -> (r: Self)
        ensures
            r.wf(),
            r.model() == parse_args(views(argv@), bool_set(boolean_flags@)),
    {
        let ghost av = views(argv@);
        let ghost bs = bool_set(boolean_flags@);
        let mut out = Self::empty();
        let dash2 = chars_of("--");
        let dash = chars_of("-");
        proof {
            reveal_strlit("--");
            reveal_strlit("-");
        }
        let mut i: usize = 0;
        while i < argv.len()
            invariant
                i <= argv@.len(),
                av == views(argv@),
                av.len() == argv@.len(),
                bs == bool_set(boolean_flags@),
                dash2@ == "--"@,
                dash@ == "-"@,
                out.wf(),
                parse_args(av, bs) == parse_from(av, bs, i as int, out.model()),
            decreases argv@.len() - i,
        {
            let a = chars_of(argv[i].as_str());
            assert(a@ == av[i as int]);
            proof {
                reveal_strlit("--");
                reveal_strlit("-");
                assert("--"@ =~= seq!['-', '-']);
                assert("-"@ =~= seq!['-']);
            }
            let ghost m = out.model();
            if starts_with_exec(&a, &dash2) && crate::text::find_char_exec(&a, '=').is_some() {
                let eq = char_pos_exec(&a, '=');
                proof {
                    crate::text::lemma_char_pos(a@, '=');
                    assert(a@.subrange(0, 2) =~= "--"@);
                    assert(a@[0] == '-' && a@[1] == '-');
                }
                let key = slice_chars(&a, 2, eq);
                let value = slice_chars(&a, eq + 1, a.len());
                out.set_value(string_of(&key), string_of(&value));
                assert(value@ =~= a@.skip(eq + 1));
                i = i + 1;
            } else if starts_with_exec(&a, &dash2) {
                let key = slice_chars(&a, 2, a.len());
                assert(key@ =~= a@.skip(2));
                let boolean = is_bool_flag(&key, boolean_flags);
                let is_flag = if boolean || i + 1 >= argv.len() {
                    true
                } else {
                    let next = chars_of(argv[i + 1].as_str());
                    assert(next@ == av[i + 1]);
                    starts_with_exec(&next, &dash)
                };
                if is_flag {
                    out.set_flag(string_of(&key));
                    i = i + 1;
                } else {
                    out.set_value(string_of(&key), argv[i + 1].clone());
                    i = i + 2;
                }
            } else if starts_with_exec(&a, &dash) && a.len() > 1 {
                let key = slice_chars(&a, 1, a.len());
                assert(key@ =~= a@.skip(1));
                out.set_flag(string_of(&key));
                i = i + 1;
            } else {
                let ghost before = out.positional@;
                out.positional.push(argv[i].clone());
                proof {
                    assert(views(out.positional@) =~= views(before).push(a@));
                    assert(out.model().flags =~= m.flags);
                    assert(out.model().values =~= m.values);
                    assert(out.wf());
                }
                i = i + 1;
            }
        }
        out
    }

    /// Whether the flag `name` was given.
    pub fn has_flag(&self, name: &str) -> (r: bool)
        ensures
            r == self.model().flags.contains(name@),
    {
        match self.flag_position(name) {
            Some(i) => true,
            None => {
                assert(!self.model().flags.contains(name@));
                false
            },
        }
    }

    /// The positional words, in the order given.
    pub fn positional(&self) -> (r: &Vec<String>)
        ensures
            views(r@) == self.model().positional,
    {
        &self.positional
    }

    /// The value given for `name`, if any.
    pub fn get(&self, name: &str) -> (r: Option<&str>)
        requires
            self.wf(),
        ensures
            match r {
                Some(v) => self.model().values.contains_key(name@) && v@ == self.model().values[name@],
                None => !self.model().values.contains_key(name@),
            },
    {
        match self.value_position(name) {
            Some(i) => {
                proof { self.lemma_value_at(i as int); }
                Some(self.values[i].1.as_str())
            },
            None => {
                assert(!self.model().values.contains_key(name@));
                None
            },
        }
    }
}

/// A longer string of digits is worth at least as much as its prefixes.
proof fn lemma_digits_value_prefix(d: Seq<char>, k: int)
    requires
        0 <= k <= d.len(),
    ensures
        digits_value(d.take(k)) <= digits_value(d),
    decreases d.len(),
{
    if k < d.len() {
        assert(d.drop_last().take(k) =~= d.take(k));
        lemma_digits_value_prefix(d.drop_last(), k);
    } else {
        assert(d.take(k) =~= d);
    }
}

/// The value of an ASCII digit character.
fn digit_value(c: char) -> (r: u128)
    requires
        is_digit(c),
    ensures
        r == (c as u32 - '0' as u32),
        r < 10,
{
    ((c as u32) - ('0' as u32)) as u128
}

/// Parses a decimal `i64` the way `str::parse::<i64>` does.
pub fn parse_i64_exec(s: &str) -> (r: Option<i64>)
    ensures
        r == parse_i64(s@),
{
    let v = chars_of(s);
    let neg = v.len() > 0 && v[0] == '-';
    let start: usize = if v.len() > 0 && (v[0] == '-' || v[0] == '+') {
        1
    } else {
        0
    };
    let d = slice_chars(&v, start, v.len());
    assert(d@ =~= s@.skip(sign_len(s@)));
    if d.len() == 0 {
        return None;
    }
    let limit: u128 = 9223372036854775808u128;
    let mut acc: u128 = 0;
    let mut k: usize = 0;
    assert(d@.take(0) =~= Seq::<char>::empty());
    while k < d.len()
        invariant
            k <= d@.len(),
            acc <= limit,
            limit == 9223372036854775808u128,
            acc == digits_value(d@.take(k as int)),
            forall|j: int| 0 <= j < k ==> is_digit(#[trigger] d@[j]),
            d@.len() > 0,
            neg == (s@.len() > 0 && s@[0] == '-'),
            d@ == s@.skip(sign_len(s@)),
        decreases d@.len() - k,
    {
        let c = d[k];
        if !(c >= '0' && c <= '9') {
            assert(!is_digit(d@[k as int]));
            assert(!all_digits(d@));
            assert(parse_i64(s@) is None);
            return None;
        }
        let x = digit_value(c);
        assert(d@.take(k + 1).drop_last() =~= d@.take(k as int));
        let next = acc * 10 + x;
        assert(next == digits_value(d@.take(k + 1)));
        if next > limit {
            proof {
                if all_digits(d@) {
                    lemma_digits_value_prefix(d@, k + 1);
                    assert(digits_value(d@) > 9223372036854775808);
                }
                assert(parse_i64(s@) is None);
            }
            return None;
        }
        acc = next;
        k = k + 1;
    }
    assert(d@.take(d@.len() as int) =~= d@);
    if neg {
        if acc == limit {
            Some(i64::MIN)
        } else {
            Some(-(acc as i64))
        }
    } else if acc > 9223372036854775807u128 {
        None
    } else {
        Some(acc as i64)
    }
}

impl OffloadArgs {
    /// The value of `name` read as a decimal `i64`, if given and valid.
    pub fn get_int(&self, name: &str) -> (r: Option<i64>)
        requires
            self.wf(),
        ensures
            r == (if self.model().values.contains_key(name@) {
                parse_i64(self.model().values[name@])
            } else {
                None
            }),
    {
        match self.get(name) {
            Some(v) => parse_i64_exec(v),
            None => None,
        }
    }

    /// The value of `name` read as a boolean (`true`, `1` or `yes` in any
    /// case), if given.
    pub fn get_bool(&self, name: &str) -> (r: Option<bool>)
        requires
            self.wf(),
        ensures
            r == (if self.model().values.contains_key(name@) {
                Some(truthy(self.model().values[name@]))
            } else {
                None
            }),
            self.model().values.contains_key(name@) && is_ascii_text(self.model().values[name@])
                ==> r == Some(truthy_lower(ascii_lower(self.model().values[name@]))),
    {
        match self.get(name) {
            Some(v) => Some(is_truthy_lowercase(to_lowercase(v).as_str())),
            None => None,
        }
    }
}

impl OffloadArgs {
    /// The arguments as the members of a JSON object, the form handlers
    /// take: each flag is `true`, each value its text, and the first
    /// positional word, if any, is the `subcommand`. A flag overrides a
    /// value of the same name, and both override the subcommand.
    pub fn to_params(&self) -> (r: Params)
        requires
            self.wf(),
        ensures
            forall|k: Seq<char>| #[trigger] self.model().flags.contains(k) ==> bool_param(r.entries@, k) == Some(true),
            forall|k: Seq<char>|
                !self.model().flags.contains(k) && #[trigger] self.model().values.contains_key(k) ==> str_param(
                    r.entries@,
                    k,
                ) == Some(self.model().values[k]),
            forall|k: Seq<char>|
                !self.model().flags.contains(k) && !self.model().values.contains_key(k) ==> ((#[trigger] lookup(
                    r.entries@,
                    k,
                )) is Some <==> (k == "subcommand"@ && self.model().positional.len() > 0)),
            !self.model().flags.contains("subcommand"@) && !self.model().values.contains_key("subcommand"@)
                && self.model().positional.len() > 0 ==> str_param(r.entries@, "subcommand"@) == Some(
                self.model().positional[0],
            ),
    {
        let mut entries: Vec<(String, ParamValue)> = Vec::new();
        let mut i: usize = 0;
        while i < self.flags.len()
            invariant
                i <= self.flags@.len(),
                forall|k: Seq<char>|
                    #[trigger] lookup(entries@, k) == (if exists|j: int| 0 <= j < i && self.flags@[j]@ == k {
                        Some(ParamValue::Bool(true))
                    } else {
                        None
                    }),
            decreases self.flags@.len() - i,
        {
            let ghost before = entries@;
            let e = (self.flags[i].clone(), ParamValue::Bool(true));
            entries.push(e);
            proof {
                assert forall|k: Seq<char>|
                    #[trigger] lookup(entries@, k) == (if exists|j: int| 0 <= j < i + 1 && self.flags@[j]@ == k {
                        Some(ParamValue::Bool(true))
                    } else {
                        None
                    }) by {
                    lemma_lookup_push(before, e, k);
                    if self.flags@[i as int]@ == k {
                        assert(exists|j: int| 0 <= j < i + 1 && self.flags@[j]@ == k);
                    }
                    if exists|j: int| 0 <= j < i + 1 && self.flags@[j]@ == k {
                        let j = choose|j: int| 0 <= j < i + 1 && self.flags@[j]@ == k;
                        if j < i {
                            assert(exists|j: int| 0 <= j < i && self.flags@[j]@ == k);
                        }
                    }
                }
            }
            i = i + 1;
        }
        let ghost after_flags = entries@;
        let mut i: usize = 0;
        while i < self.values.len()
            invariant
                self.wf(),
                i <= self.values@.len(),
                forall|k: Seq<char>|
                    #[trigger] lookup(entries@, k) == (if self.model().flags.contains(k) {
                        Some(ParamValue::Bool(true))
                    } else if exists|j: int| 0 <= j < i && self.values@[j].0@ == k {
                        Some(ParamValue::Str(self.values@[choose|j: int| 0 <= j < i && self.values@[j].0@ == k].1))
                    } else {
                        None
                    }),
            decreases self.values@.len() - i,
        {
            let ghost before = entries@;
            let e = (self.values[i].0.clone(), ParamValue::Str(self.values[i].1.clone()));
            entries.push(e);
            proof {
                assert forall|k: Seq<char>|
                    #[trigger] lookup(entries@, k) == (if self.model().flags.contains(k) {
                        Some(ParamValue::Bool(true))
                    } else if exists|j: int| 0 <= j < i + 1 && self.values@[j].0@ == k {
                        Some(ParamValue::Str(self.values@[choose|j: int| 0 <= j < i + 1 && self.values@[j].0@ == k].1))
                    } else {
                        None
                    }) by {
                    lemma_lookup_push(before, e, k);
                    if exists|j: int| 0 <= j < i + 1 && self.values@[j].0@ == k {
                        let j = choose|j: int| 0 <= j < i + 1 && self.values@[j].0@ == k;
                        if j < i {
                            assert(exists|j: int| 0 <= j < i && self.values@[j].0@ == k);
                            let j0 = choose|j: int| 0 <= j < i && self.values@[j].0@ == k;
                            if j0 != j {
                                if j0 < j {
                                    assert(self.values@[j0].0@ != self.values@[j].0@);
                                } else {
                                    assert(self.values@[j].0@ != self.values@[j0].0@);
                                }
                            }
                        } else {
                            if exists|j: int| 0 <= j < i && self.values@[j].0@ == k {
                                let j0 = choose|j: int| 0 <= j < i && self.values@[j].0@ == k;
                                assert(self.values@[j0].0@ != self.values@[i as int].0@);
                            }
                        }
                    }
                }
            }
            i = i + 1;
        }
        let ghost after_values = entries@;
        proof { reveal_strlit("subcommand"); }
        if self.positional.len() > 0 {
            let e = (owned("subcommand"), ParamValue::Str(self.positional[0].clone()));
            entries.push(e);
            proof {
                assert forall|k: Seq<char>| true implies #[trigger] lookup(entries@, k) == (if lookup(after_values, k) is Some {
                    lookup(after_values, k)
                } else if k == "subcommand"@ {
                    Some(ParamValue::Str(self.positional@[0]))
                } else {
                    None
                }) by {
                    lemma_lookup_push(after_values, e, k);
                }
            }
        }
        let r = Params { entries };
        proof {
            assert forall|k: Seq<char>| #[trigger] self.model().values.contains_key(k) implies (exists|j: int|
                0 <= j < self.values@.len() && self.values@[j].0@ == k) && self.model().values[k]
                == self.values@[choose|j: int| 0 <= j < self.values@.len() && self.values@[j].0@ == k].1@ by {
            }
        }
        r
    }
}

/// A value reads as true exactly when, lowercased, it is `true`, `1` or
/// `yes`; so every ASCII spelling of these words, in any letter case, reads
/// as true, and every other value as false.
pub proof fn lemma_truthy_words(s: Seq<char>)
    ensures
        truthy_lower(seq!['t', 'r', 'u', 'e']),
        truthy_lower(seq!['1']),
        truthy_lower(seq!['y', 'e', 's']),
        truthy_lower(s) <==> (s == seq!['t', 'r', 'u', 'e'] || s == seq!['1'] || s == seq!['y', 'e', 's']),
        is_ascii_text(s) && (ascii_lower(s) == seq!['t', 'r', 'u', 'e'] || ascii_lower(s) == seq!['y', 'e', 's'])
            ==> truthy_lower(ascii_lower(s)),
{
    reveal_strlit("true");
    reveal_strlit("1");
    reveal_strlit("yes");
    assert("true"@ =~= seq!['t', 'r', 'u', 'e']);
    assert("1"@ =~= seq!['1']);
    assert("yes"@ =~= seq!['y', 'e', 's']);
}

} // verus!
