//! The settings registry: every configurable field, found by its dotted
//! path.
use vstd::prelude::*;
use crate::text::{chars_of, extend_str, str_eq, string_of};

verus! {

broadcast use vstd::string::group_string_axioms;

/// The value of a setting.
#[derive(Debug, Clone)]
pub enum ConfigValue {
    Bool(bool),
    Int(i64),
    /// A floating-point value, held as the bits of its `f64`
    /// (`f64::to_bits`); the registry stores such values and hands them
    /// back unchanged.
    Float(u64),
    Str(String),
    Null,
}

/// How careful one must be in changing a setting.
#[derive(Debug, Clone, Copy, PartialEq, Eq, Structural)]
pub enum ConfigRisk {
    Normal,
    Sensitive,
    Dangerous,
}

/// A setting value as a value.
pub enum ValueView {
    Bool(bool),
    Int(i64),
    Float(u64),
    Str(Seq<char>),
    Null,
}

impl View for ConfigValue {
    type V = ValueView;

    open spec fn view(&self) -> ValueView {
        match self {
            ConfigValue::Bool(b) => ValueView::Bool(*b),
            ConfigValue::Int(i) => ValueView::Int(*i),
            ConfigValue::Float(f) => ValueView::Float(*f),
            ConfigValue::Str(s) => ValueView::Str(s@),
            ConfigValue::Null => ValueView::Null,
        }
    }
}

impl ConfigValue {
    /// A copy of this value.
    pub fn copy(&self) -> (r: ConfigValue)
        ensures
            r@ == self@,
    {
        match self {
            ConfigValue::Bool(b) => ConfigValue::Bool(*b),
            ConfigValue::Int(i) => ConfigValue::Int(*i),
            ConfigValue::Float(f) => ConfigValue::Float(*f),
            ConfigValue::Str(s) => ConfigValue::Str(s.clone()),
            ConfigValue::Null => ConfigValue::Null,
        }
    }
}

/// One setting: where it lives, how it is shown, its current and default
/// values, its risk, and whether a change can be undone.
#[derive(Debug, Clone)]
pub struct ConfigField {
    pub path: String,
    pub display_name: String,
    pub description: String,
    pub value: ConfigValue,
    pub default: ConfigValue,
    pub risk: ConfigRisk,
    pub revertable: bool,
}

/// A setting as a value.
pub struct FieldView {
    pub path: Seq<char>,
    pub display_name: Seq<char>,
    pub description: Seq<char>,
    pub value: ValueView,
    pub default: ValueView,
    pub risk: ConfigRisk,
    pub revertable: bool,
}

impl View for ConfigField {
    type V = FieldView;

    open spec fn view(&self) -> FieldView {
        FieldView {
            path: self.path@,
            display_name: self.display_name@,
            description: self.description@,
            value: self.value@,
            default: self.default@,
            risk: self.risk,
            revertable: self.revertable,
        }
    }
}

/// `f` with its current value replaced by `v`.
pub open spec fn with_value(f: FieldView, v: ValueView) -> FieldView {
    FieldView { value: v, ..f }
}

/// Why a setting could not be changed.
#[derive(Debug, Clone)]
pub struct ConfigError {
    pub message: String,
}

/// The settings, one per path.
#[derive(Debug)]
pub struct ConfigRegistry {
    fields: Vec<ConfigField>,
}

impl ConfigRegistry {
    /// No path is registered twice.
    #[verifier::type_invariant]
    spec fn wf(&self) -> bool {
        forall|i: int, j: int|
            0 <= i < j < self.fields@.len() ==> (#[trigger] self.fields@[i]).path@
                != (#[trigger] self.fields@[j]).path@
    }

    /// The registered settings, by path.
    pub closed spec fn view(&self) -> Map<Seq<char>, FieldView> {
        Map::new(
            |p: Seq<char>| exists|i: int| 0 <= i < self.fields@.len() && self.fields@[i].path@ == p,
            |p: Seq<char>|
                {
                    let i = choose|i: int| 0 <= i < self.fields@.len() && self.fields@[i].path@ == p;
                    self.fields@[i]@
                },
        )
    }

    proof fn lemma_view_at(&self, i: int)
        requires
            self.wf(),
            0 <= i < self.fields@.len(),
        ensures
            self@.contains_key(self.fields@[i].path@),
            self@[self.fields@[i].path@] == self.fields@[i]@,
    {
        let p = self.fields@[i].path@;
        assert(exists|k: int| 0 <= k < self.fields@.len() && self.fields@[k].path@ == p);
        let k = choose|k: int| 0 <= k < self.fields@.len() && self.fields@[k].path@ == p;
        if k != i {
            if k < i {
                assert(self.fields@[k].path@ != self.fields@[i].path@);
            } else {
                assert(self.fields@[i].path@ != self.fields@[k].path@);
            }
        }
    }

    /// An empty registry.
    pub fn new() -> (r: Self)
        ensures
            r@ == Map::<Seq<char>, FieldView>::empty(),
    {
        let r = ConfigRegistry { fields: Vec::new() };
        assert(r@ =~= Map::<Seq<char>, FieldView>::empty());
        r
    }

    /// Where `path` is registered, if it is.
    fn position(&self, path: &str) -> (r: Option<usize>)
        ensures
            match r {
                Some(i) => i < self.fields@.len() && self.fields@[i as int].path@ == path@,
                None => forall|i: int| 0 <= i < self.fields@.len() ==> self.fields@[i].path@ != path@,
            },
    {
        let mut i: usize = 0;
        while i < self.fields.len()
            invariant
                i <= self.fields@.len(),
                forall|k: int| 0 <= k < i ==> self.fields@[k].path@ != path@,
            decreases self.fields@.len() - i,
        {
            if str_eq(self.fields[i].path.as_str(), path) {
                return Some(i);
            }
            i = i + 1;
        }
        None
    }

    /// Puts `field` in place of what stands at `i`, which has its path.
    fn replace_at(&mut self, i: usize, field: ConfigField)
        requires
            i < old(self).fields@.len(),
            old(self).fields@[i as int].path@ == field.path@,
        ensures
            final(self)@ == old(self)@.insert(field.path@, field@),
    {
        proof { use_type_invariant(&*self); }
        let ghost old_view = self@;
        let ghost before = self.fields@;
        let ghost p = field.path@;
        let ghost fv = field@;
        let mut fs: Vec<ConfigField> = Vec::new();
        std::mem::swap(&mut fs, &mut self.fields);
        fs.set(i, field);
        self.fields = fs;
        proof {
            assert forall|a: int, b: int|
                0 <= a < b < self.fields@.len() implies (#[trigger] self.fields@[a]).path@
                != (#[trigger] self.fields@[b]).path@ by {
                assert(before[a].path@ != before[b].path@);
            }
        }
        proof {
            assert forall|d: Seq<char>| #![auto]
                self@.contains_key(d) == old_view.insert(p, fv).contains_key(d) by {
                if old_view.insert(p, fv).contains_key(d) {
                    if d == p {
                        assert(self.fields@[i as int].path@ == d);
                    } else {
                        let k = choose|k: int| 0 <= k < before.len() && before[k].path@ == d;
                        assert(self.fields@[k].path@ == d);
                    }
                }
                if self@.contains_key(d) {
                    let k = choose|k: int| 0 <= k < self.fields@.len() && self.fields@[k].path@ == d;
                    if k != i {
                        assert(before[k].path@ == d);
                    }
                }
            }
            assert forall|d: Seq<char>| #![auto] self@.contains_key(d) implies self@[d] == old_view.insert(
                p,
                fv,
            )[d] by {
                let k = choose|k: int| 0 <= k < self.fields@.len() && self.fields@[k].path@ == d;
                self.lemma_view_at(k);
                if k != i {
                    assert(before[k] == self.fields@[k]);
                    let j = choose|j: int| 0 <= j < before.len() && before[j].path@ == d;
                    if j != k {
                        if j < k {
                            assert(before[j].path@ != before[k].path@);
                        } else {
                            assert(before[k].path@ != before[j].path@);
                        }
                    }
                }
            }
            assert(self@ =~= old_view.insert(p, fv));
        }
    }

    /// Registers `field` under its path, replacing any field registered
    /// there before.
    pub fn register(&mut self, field: ConfigField)
        ensures
            final(self)@ == old(self)@.insert(field.path@, field@),
    {
        proof { use_type_invariant(&*self); }
        let ghost old_view = self@;
        match self.position(field.path.as_str()) {
            Some(i) => self.replace_at(i, field),
            None => {
                let ghost before = self.fields@;
                let ghost p = field.path@;
                let ghost fv = field@;
                let mut fs: Vec<ConfigField> = Vec::new();
                std::mem::swap(&mut fs, &mut self.fields);
                fs.push(field);
                self.fields = fs;
                proof {
                    assert forall|a: int, b: int|
                        0 <= a < b < self.fields@.len() implies (#[trigger] self.fields@[a]).path@
                        != (#[trigger] self.fields@[b]).path@ by {
                        if b < before.len() {
                            assert(before[a].path@ != before[b].path@);
                        }
                    }
                }
                proof {
                    let n = before.len() as int;
                    assert forall|d: Seq<char>| #![auto]
                        self@.contains_key(d) == old_view.insert(p, fv).contains_key(d) by {
                        if old_view.insert(p, fv).contains_key(d) {
                            if d == p {
                                assert(self.fields@[n].path@ == d);
                            } else {
                                let k = choose|k: int| 0 <= k < before.len() && before[k].path@ == d;
                                assert(self.fields@[k].path@ == d);
                            }
                        }
                        if self@.contains_key(d) {
                            let k = choose|k: int| 0 <= k < self.fields@.len() && self.fields@[k].path@ == d;
                            if k < n {
                                assert(before[k].path@ == d);
                            }
                        }
                    }
                    assert forall|d: Seq<char>| #![auto] self@.contains_key(d) implies self@[d]
                        == old_view.insert(p, fv)[d] by {
                        let k = choose|k: int| 0 <= k < self.fields@.len() && self.fields@[k].path@ == d;
                        self.lemma_view_at(k);
                        if k < n {
                            assert(before[k] == self.fields@[k]);
                            let j = choose|j: int| 0 <= j < before.len() && before[j].path@ == d;
                            if j != k {
                                if j < k {
                                    assert(before[j].path@ != before[k].path@);
                                } else {
                                    assert(before[k].path@ != before[j].path@);
                                }
                            }
                        }
                    }
                    assert(self@ =~= old_view.insert(p, fv));
                }
            },
        }
    }

    /// The field registered under `path`, if any.
    pub fn get(&self, path: &str) -> (r: Option<&ConfigField>)
        ensures
            match r {
                Some(f) => self@.contains_key(path@) && f@ == self@[path@],
                None => !self@.contains_key(path@),
            },
    {
        proof { use_type_invariant(self); }
        match self.position(path) {
            Some(i) => {
                proof { self.lemma_view_at(i as int); }
                Some(&self.fields[i])
            },
            None => None,
        }
    }

    /// Changes the current value of the setting at `path`; an unknown path
    /// is refused with `Unknown config path: {path}` and nothing changes.
    pub fn set(&mut self, path: &str, value: ConfigValue) -> (r: Result<(), ConfigError>)
        ensures
            old(self)@.contains_key(path@) <==> r is Ok,
            r is Ok ==> final(self)@ == old(self)@.insert(path@, with_value(old(self)@[path@], value@)),
            r matches Err(e) ==> final(self)@ == old(self)@ && e.message@ == "Unknown config path: "@ + path@,
    {
        proof { use_type_invariant(&*self); }
        match self.position(path) {
            Some(i) => {
                proof { self.lemma_view_at(i as int); }
                let f = &self.fields[i];
                let updated = ConfigField {
                    path: f.path.clone(),
                    display_name: f.display_name.clone(),
                    description: f.description.clone(),
                    value,
                    default: f.default.copy(),
                    risk: f.risk,
                    revertable: f.revertable,
                };
                assert(updated@ == with_value(self@[path@], updated.value@));
                self.replace_at(i, updated);
                Ok(())
            },
            None => {
                assert(!self@.contains_key(path@));
                let mut m = chars_of("Unknown config path: ");
                extend_str(&mut m, path);
                Err(ConfigError { message: string_of(&m) })
            },
        }
    }

    /// Every registered field, once each.
    pub fn list(&self) -> (r: Vec<&ConfigField>)
        ensures
            r@.len() == self@.dom().len(),
            forall|i: int| 0 <= i < r@.len() ==> self@.contains_key(r@[i].path@) && self@[r@[i].path@] == r@[i]@,
            forall|p: Seq<char>| #[trigger] self@.contains_key(p) ==> exists|i: int| 0 <= i < r@.len() && r@[i].path@ == p,
            forall|i: int, j: int| 0 <= i < j < r@.len() ==> r@[i].path@ != r@[j].path@,
    {
        proof { use_type_invariant(self); }
        let mut out: Vec<&ConfigField> = Vec::new();
        let mut i: usize = 0;
        while i < self.fields.len()
            invariant
                self.wf(),
                i <= self.fields@.len(),
                out@.len() == i,
                forall|k: int| 0 <= k < i ==> out@[k] == &self.fields@[k],
            decreases self.fields@.len() - i,
        {
            out.push(&self.fields[i]);
            i = i + 1;
        }
        proof {
            assert forall|k: int| 0 <= k < out@.len() implies self@.contains_key(out@[k].path@)
                && self@[out@[k].path@] == out@[k]@ by {
                self.lemma_view_at(k);
            }
            assert forall|p: Seq<char>| #[trigger] self@.contains_key(p) implies exists|k: int|
                0 <= k < out@.len() && out@[k].path@ == p by {
                let k = choose|k: int| 0 <= k < self.fields@.len() && self.fields@[k].path@ == p;
                assert(out@[k].path@ == p);
            }
            let paths = Seq::new(self.fields@.len(), |k: int| self.fields@[k].path@);
            assert forall|k: int, j: int| 0 <= k < j < paths.len() implies paths[k] != paths[j] by {
                assert(self.fields@[k].path@ != self.fields@[j].path@);
            }
            assert(paths.no_duplicates());
            assert forall|p: Seq<char>| self@.dom().contains(p) <==> paths.to_set().contains(p) by {
                if self@.dom().contains(p) {
                    let k = choose|k: int| 0 <= k < self.fields@.len() && self.fields@[k].path@ == p;
                    assert(paths[k] == p);
                }
                if paths.to_set().contains(p) {
                    assert(paths.contains(p));
                    let k = choose|k: int| 0 <= k < paths.len() && paths[k] == p;
                    assert(self.fields@[k].path@ == p);
                }
            }
            assert(self@.dom() =~= paths.to_set());
            paths.unique_seq_to_set();
        }
        out
    }
}

impl Default for ConfigRegistry {
    /// An empty registry.
    fn default() -> (r: Self)
        ensures
            r@ == Map::<Seq<char>, FieldView>::empty(),
    {
        Self::new()
    }
}

/// Reading a path right after registering a field there gives that field.
pub proof fn lemma_get_after_register(m: Map<Seq<char>, FieldView>, f: FieldView)
    ensures
        m.insert(f.path, f).contains_key(f.path),
        m.insert(f.path, f)[f.path] == f,
{
}

/// Changing a setting changes only its current value: the field keeps its
/// path, names, default, risk and revertability, and other paths are
/// untouched.
pub proof fn lemma_set_changes_only_value(
    m: Map<Seq<char>, FieldView>,
    path: Seq<char>,
    v: ValueView,
    other: Seq<char>,
)
    requires
        m.contains_key(path),
    ensures
        ({
            let n = m.insert(path, with_value(m[path], v));
            &&& n[path].value == v
            &&& n[path].path == m[path].path
            &&& n[path].display_name == m[path].display_name
            &&& n[path].description == m[path].description
            &&& n[path].default == m[path].default
            &&& n[path].risk == m[path].risk
            &&& n[path].revertable == m[path].revertable
            &&& other != path ==> n.contains_key(other) == m.contains_key(other) && (m.contains_key(other)
                ==> n[other] == m[other])
        }),
{
}

} // verus!
