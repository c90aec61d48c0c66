use vstd::prelude::*;

use crate::error::AnonTargetsError;

verus! {

/// An attribute value handed to an anonymous target.
#[derive(Debug, Clone, PartialEq, Eq)]
pub enum AttrValue {
    Bool(bool),
    Int(i64),
    Str(String),
    /// An ordered list, compared position by position.
    StrList(Vec<String>),
    /// A reference to a concrete artifact.
    Artifact(u64),
    /// A reference to a promise that is not resolved yet; such a value has no
    /// canonical form and cannot be part of a target's identity.
    Promise(u64),
}

pub enum AttrModel {
    Bool(bool),
    Int(i64),
    Str(Seq<char>),
    StrList(Seq<Seq<char>>),
    Artifact(u64),
    Promise(u64),
}

pub open spec fn strings_view(v: Seq<String>) -> Seq<Seq<char>> {
    Seq::new(v.len(), |i: int| v[i]@)
}

impl View for AttrValue {
    type V = AttrModel;

    open spec fn view(&self) -> AttrModel {
        match self {
            AttrValue::Bool(b) => AttrModel::Bool(*b),
            AttrValue::Int(i) => AttrModel::Int(*i),
            AttrValue::Str(s) => AttrModel::Str(s@),
            AttrValue::StrList(l) => AttrModel::StrList(strings_view(l@)),
            AttrValue::Artifact(a) => AttrModel::Artifact(*a),
            AttrValue::Promise(p) => AttrModel::Promise(*p),
        }
    }
}

/// An attribute mapping as handed in: names with their values, in the
/// caller's order.
pub open spec fn attrs_view(a: Seq<(String, AttrValue)>) -> Seq<(Seq<char>, AttrModel)> {
    Seq::new(a.len(), |i: int| (a[i].0@, a[i].1@))
}

/// The attribute at index `i` repeats an earlier name or holds an unresolved promise.
pub open spec fn invalid_at(a: Seq<(Seq<char>, AttrModel)>, i: int) -> bool {
    a[i].1 is Promise || exists|j: int| 0 <= j < i && a[j].0 == a[i].0
}

pub open spec fn attrs_valid(a: Seq<(Seq<char>, AttrModel)>) -> bool {
    forall|i: int| 0 <= i < a.len() ==> !invalid_at(a, i)
}

pub open spec fn names_unique(a: Seq<(Seq<char>, AttrModel)>) -> bool {
    forall|i: int, j: int| 0 <= i < a.len() && 0 <= j < a.len() && a[i].0 == a[j].0 ==> i == j
}

/// The normalized form of an attribute mapping: its (name, value) pairs,
/// whatever order they came in.
pub open spec fn attr_set(a: Seq<(Seq<char>, AttrModel)>) -> Set<(Seq<char>, AttrModel)> {
    Set::new(|p: (Seq<char>, AttrModel)| exists|i: int| 0 <= i < a.len() && a[i] == p)
}

/// The identity of an anonymous target.
pub struct KeyModel {
    pub rule: u64,
    pub attrs: Set<(Seq<char>, AttrModel)>,
}

pub open spec fn key_model(rule: u64, a: Seq<(Seq<char>, AttrModel)>) -> KeyModel {
    KeyModel { rule, attrs: attr_set(a) }
}

/// The identity of an anonymous target: its rule and its normalized attributes.
pub struct AnonTargetKey {
    rule: u64,
    attrs: Vec<(String, AttrValue)>,
}

impl View for AnonTargetKey {
    type V = KeyModel;

    closed spec fn view(&self) -> KeyModel {
        key_model(self.rule, attrs_view(self.attrs@))
    }
}

impl AnonTargetKey {
    pub closed spec fn wf(&self) -> bool {
        attrs_valid(attrs_view(self.attrs@))
    }

    /// The attributes, in the order they were handed in.
    pub fn attrs(&self) -> (r: &Vec<(String, AttrValue)>)
        requires
            self.wf(),
        ensures
            attr_set(attrs_view(r@)) == self@.attrs,
            attrs_valid(attrs_view(r@)),
    {
        &self.attrs
    }

    pub fn rule(&self) -> (r: u64)
        ensures
            r == self@.rule,
    {
        self.rule
    }

    /// Computes the key of a target from its rule and attributes. Fails with
    /// `InvalidAttribute` naming the first attribute that repeats an earlier
    /// name or holds an unresolved promise.
    pub fn compute(rule: u64, attrs: &Vec<(String, AttrValue)>) -> (r: Result<
        AnonTargetKey,
        AnonTargetsError,
    >)
        ensures
            match r {
                Ok(k) => attrs_valid(attrs_view(attrs@)) && k.wf() && k@ == key_model(
                    rule,
                    attrs_view(attrs@),
                ),
                Err(e) => exists|i: int|
                    0 <= i < attrs@.len() && invalid_at(attrs_view(attrs@), i) && (forall|j: int|
                        0 <= j < i ==> !invalid_at(attrs_view(attrs@), j))
                        && e is InvalidAttribute && e->InvalidAttribute_0@ == attrs@[i].0@,
            },
    {
        let ghost av = attrs_view(attrs@);
        let mut copy: Vec<(String, AttrValue)> = Vec::new();
        let mut i: usize = 0;
        while i < attrs.len()
            invariant
                0 <= i <= attrs@.len(),
                av == attrs_view(attrs@),
                forall|k: int| 0 <= k < i ==> !invalid_at(av, k),
                attrs_view(copy@) == av.subrange(0, i as int),
            decreases attrs@.len() - i,
        {
            let name = &attrs[i].0;
            let value = &attrs[i].1;
            if let AttrValue::Promise(_) = value {
                assert(invalid_at(av, i as int));
                return Err(AnonTargetsError::InvalidAttribute(name.clone()));
            }
            let mut j: usize = 0;
            while j < i
                invariant
                    0 <= j <= i < attrs@.len(),
                    av == attrs_view(attrs@),
                    name@ == av[i as int].0,
                    forall|k: int| 0 <= k < i ==> !invalid_at(av, k),
                    forall|k: int| 0 <= k < j ==> av[k].0 != av[i as int].0,
                decreases i - j,
            {
                if attrs[j].0 == *name {
                    assert(av[j as int].0 == attrs@[j as int].0@);
                    assert(invalid_at(av, i as int));
                    return Err(AnonTargetsError::InvalidAttribute(name.clone()));
                }
                j = j + 1;
            }
            let n = name.clone();
            let v = copy_value(value);
            assert(n@ == av[i as int].0 && v@ == av[i as int].1);
            let ghost before = copy@;
            copy.push((n, v));
            assert(copy@ == before.push((n, v)));
            assert(attrs_view(before).len() == i);
            assert(before.len() == i);
            assert(copy@.len() == i + 1);
            assert forall|k: int| 0 <= k < i + 1 implies attrs_view(copy@)[k] == av[k] by {
                if k < i {
                    assert(attrs_view(before)[k] == av.subrange(0, i as int)[k]);
                }
            }
            assert(attrs_view(copy@) =~= av.subrange(0, i + 1));
            i = i + 1;
        }
        assert(av.subrange(0, attrs@.len() as int) =~= av);
        Ok(AnonTargetKey { rule, attrs: copy })
    }

    /// Whether two keys name the same target.
    pub fn same_target(&self, other: &AnonTargetKey) -> (r: bool)
        requires
            self.wf(),
            other.wf(),
        ensures
            r == (self@ == other@),
    {
        proof {
            lemma_valid_names_unique(attrs_view(self.attrs@));
            lemma_valid_names_unique(attrs_view(other.attrs@));
        }
        if self.rule != other.rule {
            return false;
        }
        let a = contained_in(&self.attrs, &other.attrs);
        let b = contained_in(&other.attrs, &self.attrs);
        if a && b {
            assert(self@.attrs =~= other@.attrs);
            true
        } else {
            false
        }
    }
}

/// Two attribute mappings that hold the same pairs, in whatever order they
/// were written, yield the same key for a rule.
pub proof fn lemma_key_ignores_order(
    rule: u64,
    a1: Seq<(Seq<char>, AttrModel)>,
    a2: Seq<(Seq<char>, AttrModel)>,
)
    requires
        a1.to_multiset() == a2.to_multiset(),
    ensures
        key_model(rule, a1) == key_model(rule, a2),
{
    a1.to_multiset_ensures();
    a2.to_multiset_ensures();
    assert forall|p: (Seq<char>, AttrModel)| attr_set(a1).contains(p) == attr_set(a2).contains(p) by {
        if attr_set(a1).contains(p) {
            let i = choose|i: int| 0 <= i < a1.len() && a1[i] == p;
            assert(a1.contains(p));
            assert(a1.to_multiset().count(p) > 0);
            assert(a2.to_multiset().count(p) > 0);
            let j = choose|j: int| 0 <= j < a2.len() && a2[j] == p;
            assert(attr_set(a2).contains(p));
        }
        if attr_set(a2).contains(p) {
            let i = choose|i: int| 0 <= i < a2.len() && a2[i] == p;
            assert(a2.contains(p));
            assert(a2.to_multiset().count(p) > 0);
            assert(a1.to_multiset().count(p) > 0);
            let j = choose|j: int| 0 <= j < a1.len() && a1[j] == p;
            assert(attr_set(a1).contains(p));
        }
    }
    assert(attr_set(a1) =~= attr_set(a2));
}

/// Two keys of one rule are equal exactly when their attribute mappings hold
/// the same pairs.
pub proof fn lemma_key_identity(
    rule: u64,
    a1: Seq<(Seq<char>, AttrModel)>,
    a2: Seq<(Seq<char>, AttrModel)>,
)
    ensures
        (key_model(rule, a1) == key_model(rule, a2)) == (attr_set(a1) == attr_set(a2)),
{
}

proof fn lemma_valid_names_unique(a: Seq<(Seq<char>, AttrModel)>)
    requires
        attrs_valid(a),
    ensures
        names_unique(a),
{
    assert forall|i: int, j: int|
        0 <= i < a.len() && 0 <= j < a.len() && a[i].0 == a[j].0 implies i == j by {
        if i < j {
            assert(invalid_at(a, j));
        } else if j < i {
            assert(invalid_at(a, i));
        }
    }
}

fn copy_value(v: &AttrValue) -> (r: AttrValue)
    ensures
        r@ == v@,
{
    match v {
        AttrValue::Bool(b) => AttrValue::Bool(*b),
        AttrValue::Int(i) => AttrValue::Int(*i),
        AttrValue::Str(s) => AttrValue::Str(s.clone()),
        AttrValue::StrList(l) => {
            let mut out: Vec<String> = Vec::new();
            let mut i: usize = 0;
            while i < l.len()
                invariant
                    0 <= i <= l@.len(),
                    strings_view(out@) == strings_view(l@).subrange(
                        0,
                        i as int,
                    ),
                decreases l@.len() - i,
            {
                let item = l[i].clone();
                assert(item@ == strings_view(l@)[i as int]);
                let ghost before = out@;
                out.push(item);
                assert(strings_view(before).len() == i);
                assert(before.len() == i);
                assert(out@.len() == i + 1);
                assert forall|k: int| 0 <= k < i + 1 implies strings_view(out@)[k]
                    == strings_view(l@)[k] by {
                    if k < i {
                        assert(strings_view(before)[k] == strings_view(l@).subrange(0, i as int)[k]);
                    }
                }
                assert(strings_view(out@) =~= strings_view(l@).subrange(
                    0,
                    i + 1,
                ));
                i = i + 1;
            }
            assert(strings_view(l@).subrange(0, l@.len() as int) =~= strings_view(l@));
            AttrValue::StrList(out)
        },
        AttrValue::Artifact(a) => AttrValue::Artifact(*a),
        AttrValue::Promise(p) => AttrValue::Promise(*p),
    }
}

fn strings_eq(a: &Vec<String>, b: &Vec<String>) -> (r: bool)
    ensures
        r == (strings_view(a@) == strings_view(b@)),
{
    let ghost va = strings_view(a@);
    let ghost vb = strings_view(b@);
    if a.len() != b.len() {
        assert(va.len() != vb.len());
        return false;
    }
    let mut i: usize = 0;
    while i < a.len()
        invariant
            a@.len() == b@.len(),
            0 <= i <= a@.len(),
            va == strings_view(a@),
            vb == strings_view(b@),
            forall|k: int| 0 <= k < i ==> va[k] == vb[k],
        decreases a@.len() - i,
    {
        if a[i] != b[i] {
            assert(va[i as int] != vb[i as int]);
            return false;
        }
        i = i + 1;
    }
    assert(va =~= vb);
    true
}

fn value_eq(a: &AttrValue, b: &AttrValue) -> (r: bool)
    ensures
        r == (a@ == b@),
{
    match (a, b) {
        (AttrValue::Bool(x), AttrValue::Bool(y)) => *x == *y,
        (AttrValue::Int(x), AttrValue::Int(y)) => *x == *y,
        (AttrValue::Str(x), AttrValue::Str(y)) => *x == *y,
        (AttrValue::StrList(x), AttrValue::StrList(y)) => strings_eq(x, y),
        (AttrValue::Artifact(x), AttrValue::Artifact(y)) => *x == *y,
        (AttrValue::Promise(x), AttrValue::Promise(y)) => *x == *y,
        _ => false,
    }
}

fn find_name(a: &Vec<(String, AttrValue)>, name: &String) -> (r: Option<usize>)
    ensures
        match r {
            Some(i) => i < a@.len() && a@[i as int].0@ == name@,
            None => forall|j: int| 0 <= j < a@.len() ==> a@[j].0@ != name@,
        },
{
    let mut i: usize = 0;
    while i < a.len()
        invariant
            0 <= i <= a@.len(),
            forall|j: int| 0 <= j < i ==> a@[j].0@ != name@,
        decreases a@.len() - i,
    {
        if a[i].0 == *name {
            return Some(i);
        }
        i = i + 1;
    }
    None
}

fn contained_in(a: &Vec<(String, AttrValue)>, b: &Vec<(String, AttrValue)>) -> (r: bool)
    requires
        names_unique(attrs_view(b@)),
    ensures
        r == attr_set(attrs_view(a@)).subset_of(attr_set(attrs_view(b@))),
{
    let ghost va = attrs_view(a@);
    let ghost vb = attrs_view(b@);
    let mut i: usize = 0;
    while i < a.len()
        invariant
            0 <= i <= a@.len(),
            va == attrs_view(a@),
            vb == attrs_view(b@),
            names_unique(vb),
            forall|k: int| 0 <= k < i ==> #[trigger] attr_set(vb).contains(va[k]),
        decreases a@.len() - i,
    {
        match find_name(b, &a[i].0) {
            None => {
                assert(attr_set(va).contains(va[i as int]));
                assert(!attr_set(vb).contains(va[i as int]));
                return false;
            },
            Some(j) => {
                if !value_eq(&a[i].1, &b[j].1) {
                    assert(attr_set(va).contains(va[i as int]));
                    assert forall|k: int| 0 <= k < vb.len() implies vb[k] != va[i as int] by {
                        if vb[k] == va[i as int] {
                            assert(vb[k].0 == vb[j as int].0);
                        }
                    }
                    assert(!attr_set(vb).contains(va[i as int]));
                    return false;
                }
                assert(vb[j as int] == va[i as int]);
                assert(attr_set(vb).contains(va[i as int]));
            },
        }
        i = i + 1;
    }
    assert forall|p| attr_set(va).contains(p) implies attr_set(vb).contains(p) by {
        let k = choose|k: int| 0 <= k < va.len() && va[k] == p;
        assert(attr_set(vb).contains(va[k]));
    }
    true
}

} // verus!
