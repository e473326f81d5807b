use vstd::prelude::*;
use vstd::pervasive::VecAdditionalExecFns;

use crate::eval_type::Type;
use crate::float64::Float64;
use crate::text::str_eq;
use crate::value::Value;
use crate::value::ValueView;
use crate::value::spec_concrete_type;

verus! {

/// One validation finding: the variable's name, the declared type, and the
/// type actually found in the context (`None` when the variable is absent).
pub type ContextSchemaMismatch = (String, Type, Option<Type>);

/// The view of a [`ContextError`].
pub enum ContextErrorView {
    SchemaMismatch { fields: Seq<(Seq<char>, Type, Option<Type>)> },
}

/// Error from validating a [`Context`] against a [`ContextSchema`]: every
/// declared variable that is missing or has the wrong type, not only the
/// first.
#[derive(Debug)]
pub enum ContextError {
    SchemaMismatch { fields: Vec<ContextSchemaMismatch> },
}

impl View for ContextError {
    type V = ContextErrorView;

    open spec fn view(&self) -> ContextErrorView {
        match self {
            ContextError::SchemaMismatch { fields } => ContextErrorView::SchemaMismatch {
                fields: fields@.map_values(|m: ContextSchemaMismatch| (m.0@, m.1, m.2)),
            },
        }
    }
}

/// The map described by a sequence of bindings, a later binding for a name
/// overriding an earlier one.
pub open spec fn entries_map(s: Seq<(String, Value)>) -> Map<Seq<char>, ValueView>
    decreases s.len(),
{
    if s.len() == 0 {
        Map::empty()
    } else {
        entries_map(s.drop_last()).insert(s.last().0@, s.last().1@)
    }
}

/// A binding from a sequence of entries that all lie at or beyond `i` and
/// none of which binds `k` cannot affect a lookup of `k`.
proof fn lemma_entries_map_unbound_tail(s: Seq<(String, Value)>, i: int, k: Seq<char>)
    requires
        0 <= i <= s.len(),
        forall|j: int| i <= j < s.len() ==> s[j].0@ != k,
    ensures
        entries_map(s).contains_key(k) == entries_map(s.take(i)).contains_key(k),
        entries_map(s).contains_key(k) ==> entries_map(s)[k] == entries_map(s.take(i))[k],
    decreases s.len() - i,
{
    if i < s.len() {
        assert(s.last().0@ != k);
        lemma_entries_map_unbound_tail(s.drop_last(), i, k);
        assert(s.drop_last().take(i) =~= s.take(i));
    } else {
        assert(s.take(i) =~= s);
    }
}

/// A mapping of variable names to [`Value`]s, built through chained setters
/// that each yield an updated context; a later setting of a name overrides
/// an earlier one.
#[derive(Debug)]
pub struct Context {
    entries: Vec<(String, Value)>,
}

impl View for Context {
    type V = Map<Seq<char>, ValueView>;

    closed spec fn view(&self) -> Map<Seq<char>, ValueView> {
        entries_map(self.entries@)
    }
}

impl Context {
    /// The empty context.
    pub fn new() -> (r: Self)
        ensures
            r@ == Map::<Seq<char>, ValueView>::empty(),
    {
        Context { entries: Vec::new() }
    }

    fn set_value(self, name: &str, value: Value) -> (r: Self)
        ensures
            r@ == self@.insert(name@, value@),
    {
        let ghost orig = self.entries@;
        let mut entries = self.entries;
        entries.push((name.to_owned(), value));
        proof {
            assert(entries@.drop_last() =~= orig);
        }
        Context { entries }
    }

    pub fn set_bool(self, name: &str, value: bool) -> (r: Self)
        ensures
            r@ == self@.insert(name@, ValueView::Bool(value)),
    {
        self.set_value(name, Value::Bool(value))
    }

    pub fn set_bool_array(self, name: &str, value: Vec<bool>) -> (r: Self)
        ensures
            r@ == self@.insert(name@, ValueView::BoolArray(value@)),
    {
        self.set_value(name, Value::BoolArray(value))
    }

    pub fn set_int(self, name: &str, value: i64) -> (r: Self)
        ensures
            r@ == self@.insert(name@, ValueView::Int(value)),
    {
        self.set_value(name, Value::Int(value))
    }

    pub fn set_int_array(self, name: &str, value: Vec<i64>) -> (r: Self)
        ensures
            r@ == self@.insert(name@, ValueView::IntArray(value@)),
    {
        self.set_value(name, Value::IntArray(value))
    }

    pub fn set_float(self, name: &str, value: Float64) -> (r: Self)
        ensures
            r@ == self@.insert(name@, ValueView::Float(value@)),
    {
        self.set_value(name, Value::Float(value))
    }

    pub fn set_float_array(self, name: &str, value: Vec<Float64>) -> (r: Self)
        ensures
            r@ == self@.insert(name@, ValueView::FloatArray(value@.map_values(|f: Float64| f@))),
    {
        self.set_value(name, Value::FloatArray(value))
    }

    pub fn set_str(self, name: &str, value: &str) -> (r: Self)
        ensures
            r@ == self@.insert(name@, ValueView::Str(value@)),
    {
        self.set_value(name, Value::Str(value.to_owned()))
    }

    pub fn set_str_array(self, name: &str, value: Vec<String>) -> (r: Self)
        ensures
            r@ == self@.insert(name@, ValueView::StrArray(value@.map_values(|s: String| s@))),
    {
        self.set_value(name, Value::StrArray(value))
    }

    /// The current value bound to `name`, if any.
    pub fn get(&self, name: &str) -> (r: Option<&Value>)
        ensures
            match r {
                Some(v) => self@.contains_key(name@) && v@ == self@[name@],
                None => !self@.contains_key(name@),
            },
    {
        let mut i: usize = self.entries.len();
        loop
            invariant
                i <= self.entries.len(),
                forall|j: int| i <= j < self.entries@.len() ==> self.entries@[j].0@ != name@,
            decreases i,
        {
            if i == 0 {
                proof {
                    lemma_entries_map_unbound_tail(self.entries@, 0, name@);
                    assert(self.entries@.take(0) =~= Seq::<(String, Value)>::empty());
                }
                return None;
            }
            i = i - 1;
            let entry = &self.entries[i];
            if str_eq(entry.0.as_str(), name) {
                proof {
                    lemma_entries_map_unbound_tail(self.entries@, i + 1, name@);
                    assert(self.entries@.take(i + 1).drop_last() =~= self.entries@.take(i as int));
                    assert(self.entries@.take(i + 1).last() == self.entries@[i as int]);
                }
                return Some(&entry.1);
            }
        }
    }
}

/// The map described by a sequence of declarations, a later declaration for
/// a name overriding an earlier one.
pub open spec fn schema_map(s: Seq<(Seq<char>, Type)>) -> Map<Seq<char>, Type>
    decreases s.len(),
{
    if s.len() == 0 {
        Map::empty()
    } else {
        schema_map(s.drop_last()).insert(s.last().0, s.last().1)
    }
}

proof fn lemma_schema_map_unbound_tail(s: Seq<(Seq<char>, Type)>, i: int, k: Seq<char>)
    requires
        0 <= i <= s.len(),
        forall|j: int| i <= j < s.len() ==> s[j].0 != k,
    ensures
        schema_map(s).contains_key(k) == schema_map(s.take(i)).contains_key(k),
        schema_map(s).contains_key(k) ==> schema_map(s)[k] == schema_map(s.take(i))[k],
    decreases s.len() - i,
{
    if i < s.len() {
        lemma_schema_map_unbound_tail(s.drop_last(), i, k);
        assert(s.drop_last().take(i) =~= s.take(i));
    } else {
        assert(s.take(i) =~= s);
    }
}

/// The declarations after redeclaring `k` with type `t`: the first
/// declaration of `k` is replaced in place, or the new one is appended when
/// `k` was not declared yet.
pub open spec fn spec_declare(s: Seq<(Seq<char>, Type)>, k: Seq<char>, t: Type) -> Seq<
    (Seq<char>, Type),
>
    decreases s.len(),
{
    if s.len() == 0 {
        seq![(k, t)]
    } else if s[0].0 == k {
        seq![(k, t)] + s.skip(1)
    } else {
        seq![s[0]] + spec_declare(s.skip(1), k, t)
    }
}

proof fn lemma_spec_declare_found(s: Seq<(Seq<char>, Type)>, k: Seq<char>, t: Type, i: int)
    requires
        0 <= i < s.len(),
        s[i].0 == k,
        forall|j: int| 0 <= j < i ==> s[j].0 != k,
    ensures
        spec_declare(s, k, t) == s.update(i, (k, t)),
    decreases i,
{
    if i == 0 {
        assert(seq![(k, t)] + s.skip(1) =~= s.update(0, (k, t)));
    } else {
        lemma_spec_declare_found(s.skip(1), k, t, i - 1);
        assert(seq![s[0]] + s.skip(1).update(i - 1, (k, t)) =~= s.update(i, (k, t)));
    }
}

proof fn lemma_spec_declare_absent(s: Seq<(Seq<char>, Type)>, k: Seq<char>, t: Type)
    requires
        forall|j: int| 0 <= j < s.len() ==> s[j].0 != k,
    ensures
        spec_declare(s, k, t) == s.push((k, t)),
    decreases s.len(),
{
    if s.len() == 0 {
        assert(seq![(k, t)] =~= s.push((k, t)));
    } else {
        lemma_spec_declare_absent(s.skip(1), k, t);
        assert(seq![s[0]] + s.skip(1).push((k, t)) =~= s.push((k, t)));
    }
}

/// A declared mapping of variable names to [`Type`]s, built through chained
/// `declare` calls; used to validate candidate [`Context`]s.
#[derive(Debug)]
pub struct ContextSchema {
    entries: Vec<(String, Type)>,
}

impl View for ContextSchema {
    type V = Map<Seq<char>, Type>;

    closed spec fn view(&self) -> Map<Seq<char>, Type> {
        schema_map(self.declared())
    }
}

impl ContextSchema {
    /// The declarations in declaration order, each name at most once.
    pub closed spec fn declared(&self) -> Seq<(Seq<char>, Type)> {
        self.entries@.map_values(|e: (String, Type)| (e.0@, e.1))
    }

    /// Each name is declared at most once.
    pub closed spec fn wf(&self) -> bool {
        forall|i: int, j: int|
            0 <= i < j < self.declared().len() ==> self.declared()[i].0 != self.declared()[j].0
    }

    /// The empty schema.
    pub fn new() -> (r: Self)
        ensures
            r@ == Map::<Seq<char>, Type>::empty(),
            r.declared() == Seq::<(Seq<char>, Type)>::empty(),
            r.wf(),
    {
        let r = ContextSchema { entries: Vec::new() };
        proof {
            assert(r.declared() =~= Seq::<(Seq<char>, Type)>::empty());
        }
        r
    }

    /// The declared type of `name`, if any.
    pub fn get(&self, name: &str) -> (r: Option<&Type>)
        ensures
            match r {
                Some(t) => self@.contains_key(name@) && *t == self@[name@],
                None => !self@.contains_key(name@),
            },
    {
        let ghost d = self.declared();
        let mut i: usize = self.entries.len();
        loop
            invariant
                d == self.declared(),
                d.len() == self.entries@.len(),
                i <= self.entries.len(),
                forall|j: int| i <= j < d.len() ==> d[j].0 != name@,
            decreases i,
        {
            if i == 0 {
                proof {
                    lemma_schema_map_unbound_tail(d, 0, name@);
                    assert(d.take(0) =~= Seq::<(Seq<char>, Type)>::empty());
                }
                return None;
            }
            i = i - 1;
            let entry = &self.entries[i];
            proof {
                assert(d[i as int] == (self.entries@[i as int].0@, self.entries@[i as int].1));
            }
            if str_eq(entry.0.as_str(), name) {
                proof {
                    lemma_schema_map_unbound_tail(d, i + 1, name@);
                    assert(d.take(i + 1).drop_last() =~= d.take(i as int));
                    assert(d.take(i + 1).last() == d[i as int]);
                }
                return Some(&entry.1);
            }
        }
    }

    /// Declare (or redeclare) `name` with the given type.
    #[verifier::loop_isolation(false)]
    pub fn declare(self, name: &str, eval_type: Type) -> (r: Self)
        requires
            self.wf(),
        ensures
            r.declared() == spec_declare(self.declared(), name@, eval_type),
            r@ == self@.insert(name@, eval_type),
            r.wf(),
    {
        let ghost d = self.declared();
        let mut entries = self.entries;
        let mut i: usize = 0;
        while i < entries.len()
            invariant
                d == entries@.map_values(|e: (String, Type)| (e.0@, e.1)),
                d.len() == entries@.len(),
                i <= entries@.len(),
                forall|p: int, q: int| 0 <= p < q < d.len() ==> d[p].0 != d[q].0,
                forall|j: int| 0 <= j < i ==> d[j].0 != name@,
            decreases entries@.len() - i,
        {
            proof {
                assert(d[i as int] == (entries@[i as int].0@, entries@[i as int].1));
            }
            if str_eq(entries[i].0.as_str(), name) {
                entries.set(i, (name.to_owned(), eval_type));
                let r = ContextSchema { entries };
                proof {
                    assert(r.declared() =~= d.update(i as int, (name@, eval_type)));
                    lemma_spec_declare_found(d, name@, eval_type, i as int);
                    lemma_declare_map(d, name@, eval_type, i as int);
                    assert forall|p: int, q: int|
                        0 <= p < q < r.declared().len() implies r.declared()[p].0
                        != r.declared()[q].0 by {
                        assert(r.declared()[p].0 == d[p].0);
                        assert(r.declared()[q].0 == d[q].0);
                    }
                }
                return r;
            }
            i = i + 1;
        }
        entries.push((name.to_owned(), eval_type));
        let r = ContextSchema { entries };
        proof {
            assert(r.declared() =~= d.push((name@, eval_type)));
            lemma_spec_declare_absent(d, name@, eval_type);
            assert(r.declared().drop_last() =~= d);
            assert(schema_map(r.declared()) == schema_map(d).insert(name@, eval_type));
            lemma_declared_wf_push(d, name@, eval_type);
        }
        r
    }
}

/// The finding for one declared variable: absent from the context, present
/// with the wrong type, or (`None`) conforming.
pub open spec fn spec_mismatch_of(k: Seq<char>, t: Type, c: Map<Seq<char>, ValueView>) -> Option<
    (Seq<char>, Type, Option<Type>),
> {
    if !c.contains_key(k) {
        Some((k, t, None))
    } else if spec_concrete_type(c[k]) != t {
        Some((k, t, Some(spec_concrete_type(c[k]))))
    } else {
        None
    }
}

/// All findings for a sequence of declarations, in declaration order.
pub open spec fn spec_mismatches(s: Seq<(Seq<char>, Type)>, c: Map<Seq<char>, ValueView>) -> Seq<
    (Seq<char>, Type, Option<Type>),
>
    decreases s.len(),
{
    if s.len() == 0 {
        Seq::empty()
    } else {
        match spec_mismatch_of(s[0].0, s[0].1, c) {
            Some(m) => seq![m] + spec_mismatches(s.skip(1), c),
            None => spec_mismatches(s.skip(1), c),
        }
    }
}

/// Validation finds nothing exactly when the context holds every declared
/// variable with a value of its declared type.
pub proof fn lemma_validation_complete(s: Seq<(Seq<char>, Type)>, c: Map<Seq<char>, ValueView>)
    ensures
        spec_mismatches(s, c).len() == 0 <==> (forall|j: int|
            0 <= j < s.len() ==> c.contains_key((#[trigger] s[j]).0) && spec_concrete_type(
                c[s[j].0],
            ) == s[j].1),
    decreases s.len(),
{
    if s.len() > 0 {
        let rest = s.skip(1);
        lemma_validation_complete(rest, c);
        let all_of_s = (forall|j: int|
            0 <= j < s.len() ==> c.contains_key((#[trigger] s[j]).0) && spec_concrete_type(
                c[s[j].0],
            ) == s[j].1);
        let all_of_rest = (forall|j: int|
            0 <= j < rest.len() ==> c.contains_key((#[trigger] rest[j]).0) && spec_concrete_type(
                c[rest[j].0],
            ) == rest[j].1);
        if all_of_s {
            assert forall|j: int|
                0 <= j < rest.len() implies c.contains_key((#[trigger] rest[j]).0)
                && spec_concrete_type(c[rest[j].0]) == rest[j].1 by {
                assert(rest[j] == s[j + 1]);
            }
        }
        if all_of_rest && spec_mismatch_of(s[0].0, s[0].1, c) is None {
            assert forall|j: int|
                0 <= j < s.len() implies c.contains_key((#[trigger] s[j]).0) && spec_concrete_type(
                    c[s[j].0],
                ) == s[j].1 by {
                if j > 0 {
                    assert(rest[j - 1] == s[j]);
                }
            }
        }
        if spec_mismatch_of(s[0].0, s[0].1, c) is Some {
            assert(!all_of_s) by {
                if all_of_s {
                    assert(c.contains_key(s[0].0) && spec_concrete_type(c[s[0].0]) == s[0].1);
                }
            }
        }
    }
}

impl ContextSchema {
    /// Every declared variable that the context is missing or holds with
    /// the wrong type, as `(name, declared type, found type or None)`, in
    /// declaration order.
    pub fn validation_errors(&self, context: &Context) -> (r: Vec<ContextSchemaMismatch>)
        ensures
            r@.map_values(|m: ContextSchemaMismatch| (m.0@, m.1, m.2)) == spec_mismatches(
                self.declared(),
                context@,
            ),
    {
        let ghost d = self.declared();
        let ghost c = context@;
        let mut r: Vec<ContextSchemaMismatch> = Vec::new();
        let mut i: usize = 0;
        proof {
            assert(d.skip(0) =~= d);
            assert(r@.map_values(|m: ContextSchemaMismatch| (m.0@, m.1, m.2)) =~= Seq::<
                (Seq<char>, Type, Option<Type>),
            >::empty());
        }
        while i < self.entries.len()
            invariant
                d == self.declared(),
                c == context@,
                d.len() == self.entries@.len(),
                i <= d.len(),
                r@.map_values(|m: ContextSchemaMismatch| (m.0@, m.1, m.2)) + spec_mismatches(
                    d.skip(i as int),
                    c,
                ) == spec_mismatches(d, c),
            decreases d.len() - i,
        {
            let ghost racc = r@.map_values(|m: ContextSchemaMismatch| (m.0@, m.1, m.2));
            proof {
                assert(d[i as int] == (self.entries@[i as int].0@, self.entries@[i as int].1));
                assert(d.skip(i as int)[0] == d[i as int]);
                assert(d.skip(i as int).skip(1) =~= d.skip(i + 1));
            }
            let entry = &self.entries[i];
            match context.get(entry.0.as_str()) {
                Some(value) => {
                    let found = value.concrete_type();
                    if found != entry.1 {
                        r.push((entry.0.clone(), entry.1, Some(found)));
                        proof {
                            assert(r@.map_values(|m: ContextSchemaMismatch| (m.0@, m.1, m.2)) =~=
                                racc + seq![(d[i as int].0, d[i as int].1, Some(found))]);
                            assert((racc + seq![(d[i as int].0, d[i as int].1, Some(found))])
                                + spec_mismatches(d.skip(i + 1), c) =~= racc + spec_mismatches(
                                d.skip(i as int),
                                c,
                            ));
                        }
                    }
                },
                None => {
                    r.push((entry.0.clone(), entry.1, None));
                    proof {
                        assert(r@.map_values(|m: ContextSchemaMismatch| (m.0@, m.1, m.2)) =~= racc
                            + seq![(d[i as int].0, d[i as int].1, None)]);
                        assert((racc + seq![(d[i as int].0, d[i as int].1, None)])
                            + spec_mismatches(d.skip(i + 1), c) =~= racc + spec_mismatches(
                            d.skip(i as int),
                            c,
                        ));
                    }
                },
            }
            i = i + 1;
        }
        proof {
            assert(d.skip(d.len() as int) =~= Seq::<(Seq<char>, Type)>::empty());
            assert(r@.map_values(|m: ContextSchemaMismatch| (m.0@, m.1, m.2)) + Seq::<
                (Seq<char>, Type, Option<Type>),
            >::empty() =~= r@.map_values(|m: ContextSchemaMismatch| (m.0@, m.1, m.2)));
        }
        r
    }

    /// Succeeds exactly when the context conforms to every declaration;
    /// otherwise reports every mismatch, not only the first.
    pub fn validate(&self, context: &Context) -> (r: Result<(), ContextError>)
        ensures
            match r {
                Ok(_) => spec_mismatches(self.declared(), context@).len() == 0,
                Err(e) => {
                    &&& e@ == (ContextErrorView::SchemaMismatch {
                        fields: spec_mismatches(self.declared(), context@),
                    })
                    &&& spec_mismatches(self.declared(), context@).len() > 0
                },
            },
    {
        let errors = self.validation_errors(context);
        if errors.len() == 0 {
            proof {
                assert(errors@.map_values(|m: ContextSchemaMismatch| (m.0@, m.1, m.2)).len()
                    == errors@.len());
            }
            Ok(())
        } else {
            proof {
                assert(errors@.map_values(|m: ContextSchemaMismatch| (m.0@, m.1, m.2)).len()
                    == errors@.len());
            }
            Err(ContextError::SchemaMismatch { fields: errors })
        }
    }
}

/// Replacing the one declaration of `k` in place changes the described map
/// exactly as an `insert` of the new type does.
proof fn lemma_declare_map(d: Seq<(Seq<char>, Type)>, k: Seq<char>, t: Type, i: int)
    requires
        0 <= i < d.len(),
        d[i].0 == k,
        forall|p: int, q: int| 0 <= p < q < d.len() ==> d[p].0 != d[q].0,
    ensures
        schema_map(d.update(i, (k, t))) == schema_map(d).insert(k, t),
    decreases d.len(),
{
    let d2 = d.update(i, (k, t));
    if i == d.len() - 1 {
        assert(d2.drop_last() =~= d.drop_last());
        assert(schema_map(d2) == schema_map(d.drop_last()).insert(k, t));
        assert(d.last().0 == k);
        assert(schema_map(d) == schema_map(d.drop_last()).insert(k, d.last().1));
        assert(schema_map(d.drop_last()).insert(k, d.last().1).insert(k, t) =~= schema_map(
            d.drop_last(),
        ).insert(k, t));
    } else {
        lemma_declare_map(d.drop_last(), k, t, i);
        assert(d2.drop_last() =~= d.drop_last().update(i, (k, t)));
        assert(d2.last() == d.last());
        assert(d.last().0 != k);
        assert(schema_map(d.drop_last()).insert(k, t).insert(d.last().0, d.last().1) =~= schema_map(
            d.drop_last(),
        ).insert(d.last().0, d.last().1).insert(k, t));
    }
}

/// Appending a declaration for a fresh name keeps the declarations free of
/// duplicates.
proof fn lemma_declared_wf_push(d: Seq<(Seq<char>, Type)>, k: Seq<char>, t: Type)
    requires
        forall|j: int| 0 <= j < d.len() ==> d[j].0 != k,
        forall|p: int, q: int| 0 <= p < q < d.len() ==> d[p].0 != d[q].0,
    ensures
        forall|p: int, q: int|
            0 <= p < q < d.push((k, t)).len() ==> d.push((k, t))[p].0 != d.push((k, t))[q].0,
{
    let d2 = d.push((k, t));
    assert forall|p: int, q: int| 0 <= p < q < d2.len() implies d2[p].0 != d2[q].0 by {
        if q == d.len() {
            assert(d2[p] == d[p]);
            assert(d2[q] == (k, t));
        } else {
            assert(d2[p] == d[p]);
            assert(d2[q] == d[q]);
        }
    }
}

} // verus!
