use vstd::prelude::*;

use crate::error::AnonTargetsError;
use crate::key::{attrs_valid, attrs_view, key_model, AnonTargetKey, AttrValue, KeyModel};

verus! {

/// Where an anonymous target's evaluation stands.
#[derive(Debug, Clone, PartialEq, Eq)]
pub enum TargetState {
    /// Evaluation has been scheduled and has not finished.
    Requested,
    /// Evaluation produced these providers and these named artifacts.
    Resolved { providers: u64, artifacts: Vec<(String, u64)> },
    /// Evaluation failed with this message.
    Failed(String),
}

pub enum TargetStateModel {
    Requested,
    Resolved { providers: u64, artifacts: Seq<(Seq<char>, u64)> },
    Failed(Seq<char>),
}

pub open spec fn artifacts_view(a: Seq<(String, u64)>) -> Seq<(Seq<char>, u64)> {
    Seq::new(a.len(), |i: int| (a[i].0@, a[i].1))
}

impl View for TargetState {
    type V = TargetStateModel;

    open spec fn view(&self) -> TargetStateModel {
        match self {
            TargetState::Requested => TargetStateModel::Requested,
            TargetState::Resolved { providers, artifacts } => TargetStateModel::Resolved {
                providers: *providers,
                artifacts: artifacts_view(artifacts@),
            },
            TargetState::Failed(e) => TargetStateModel::Failed(e@),
        }
    }
}

/// An artifact promised by an anonymous target, known once the target resolves.
#[derive(Debug, Clone, PartialEq, Eq)]
pub struct PromiseArtifact {
    /// The target that declared it.
    pub target: usize,
    pub name: String,
    /// The artifact that backs it.
    pub artifact: u64,
}

/// What a caller's promise has settled to.
#[derive(Debug, Clone, PartialEq, Eq)]
pub enum PromiseStatus {
    Unresolved,
    Resolved(u64),
    Rejected(String),
}

pub enum PromiseStatusModel {
    Unresolved,
    Resolved(u64),
    Rejected(Seq<char>),
}

impl View for PromiseStatus {
    type V = PromiseStatusModel;

    open spec fn view(&self) -> PromiseStatusModel {
        match self {
            PromiseStatus::Unresolved => PromiseStatusModel::Unresolved,
            PromiseStatus::Resolved(p) => PromiseStatusModel::Resolved(*p),
            PromiseStatus::Rejected(e) => PromiseStatusModel::Rejected(e@),
        }
    }
}

/// What the promise of a batch registration has settled to.
#[derive(Debug, Clone, PartialEq, Eq)]
pub enum AggregateStatus {
    Pending,
    Resolved(Vec<u64>),
    Rejected(String),
}

pub enum AggregateStatusModel {
    Pending,
    Resolved(Seq<u64>),
    Rejected(Seq<char>),
}

impl View for AggregateStatus {
    type V = AggregateStatusModel;

    open spec fn view(&self) -> AggregateStatusModel {
        match self {
            AggregateStatus::Pending => AggregateStatusModel::Pending,
            AggregateStatus::Resolved(v) => AggregateStatusModel::Resolved(v@),
            AggregateStatus::Rejected(e) => AggregateStatusModel::Rejected(e@),
        }
    }
}

/// The state of a registry: one key and one state per target, the target
/// each promise waits on, the promises of each batch, and the targets whose
/// evaluation was scheduled, in order.
pub struct RegistryModel {
    pub keys: Seq<KeyModel>,
    pub states: Seq<TargetStateModel>,
    pub promises: Seq<usize>,
    pub aggregates: Seq<Seq<usize>>,
    pub scheduled: Seq<usize>,
}

pub open spec fn keys_distinct(keys: Seq<KeyModel>) -> bool {
    forall|i: int, j: int| 0 <= i < keys.len() && 0 <= j < keys.len() && keys[i] == keys[j] ==> i == j
}

pub open spec fn model_wf(m: RegistryModel) -> bool {
    &&& m.keys.len() == m.states.len()
    &&& keys_distinct(m.keys)
    &&& forall|p: int| 0 <= p < m.promises.len() ==> m.promises[p] < m.keys.len()
    &&& forall|a: int, i: int|
        0 <= a < m.aggregates.len() && 0 <= i < m.aggregates[a].len() ==> m.aggregates[a][i]
            < m.promises.len()
}

/// The target registered under `k`, if any.
pub open spec fn find_key(keys: Seq<KeyModel>, k: KeyModel) -> Option<int> {
    if exists|i: int| 0 <= i < keys.len() && keys[i] == k {
        Some(choose|i: int| 0 <= i < keys.len() && keys[i] == k)
    } else {
        None
    }
}

/// Registering a request for the target `k`: a new promise on the existing
/// target, or a new target, scheduled for evaluation, with its first promise.
pub open spec fn register_spec(m: RegistryModel, k: KeyModel) -> RegistryModel {
    match find_key(m.keys, k) {
        Some(t) => RegistryModel { promises: m.promises.push(t as usize), ..m },
        None => RegistryModel {
            keys: m.keys.push(k),
            states: m.states.push(TargetStateModel::Requested),
            promises: m.promises.push(m.keys.len() as usize),
            scheduled: m.scheduled.push(m.keys.len() as usize),
            ..m
        },
    }
}

/// Registering several requests in order.
pub open spec fn register_all_spec(m: RegistryModel, ks: Seq<KeyModel>) -> RegistryModel
    decreases ks.len(),
{
    if ks.len() == 0 {
        m
    } else {
        register_spec(register_all_spec(m, ks.drop_last()), ks.last())
    }
}

/// Settling target `t` with `outcome`, which every promise on it then sees.
pub open spec fn settle_spec(m: RegistryModel, t: int, outcome: TargetStateModel) -> RegistryModel {
    RegistryModel { states: m.states.update(t, outcome), ..m }
}

pub open spec fn promise_status_spec(m: RegistryModel, p: int) -> PromiseStatusModel {
    match m.states[m.promises[p] as int] {
        TargetStateModel::Requested => PromiseStatusModel::Unresolved,
        TargetStateModel::Resolved { providers, .. } => PromiseStatusModel::Resolved(providers),
        TargetStateModel::Failed(e) => PromiseStatusModel::Rejected(e),
    }
}

/// The error of the lowest-placed member of a batch that failed, if any.
pub open spec fn first_failure(m: RegistryModel, members: Seq<usize>) -> Option<Seq<char>>
    decreases members.len(),
{
    if members.len() == 0 {
        None
    } else {
        match promise_status_spec(m, members[0] as int) {
            PromiseStatusModel::Rejected(e) => Some(e),
            _ => first_failure(m, members.drop_first()),
        }
    }
}

pub open spec fn resolved_providers(m: RegistryModel, p: int) -> u64 {
    match promise_status_spec(m, p) {
        PromiseStatusModel::Resolved(v) => v,
        _ => 0,
    }
}

/// A batch is pending until every member has settled; it then rejects with
/// the error of its lowest-placed failed member, or resolves to the members'
/// providers in the order of the batch.
pub open spec fn aggregate_status_spec(m: RegistryModel, members: Seq<usize>) -> AggregateStatusModel {
    if exists|i: int|
        0 <= i < members.len() && promise_status_spec(m, members[i] as int) is Unresolved {
        AggregateStatusModel::Pending
    } else {
        match first_failure(m, members) {
            Some(e) => AggregateStatusModel::Rejected(e),
            None => AggregateStatusModel::Resolved(
                Seq::new(members.len(), |i: int| resolved_providers(m, members[i] as int)),
            ),
        }
    }
}

/// The first artifact declared under `name`.
pub open spec fn find_artifact(arts: Seq<(Seq<char>, u64)>, name: Seq<char>) -> Option<u64>
    decreases arts.len(),
{
    if arts.len() == 0 {
        None
    } else if arts[0].0 == name {
        Some(arts[0].1)
    } else {
        find_artifact(arts.drop_first(), name)
    }
}

pub open spec fn requests_valid(reqs: Seq<(u64, Vec<(String, AttrValue)>)>) -> bool {
    forall|i: int| 0 <= i < reqs.len() ==> attrs_valid(#[trigger] attrs_view(reqs[i].1@))
}

pub open spec fn requests_keys(reqs: Seq<(u64, Vec<(String, AttrValue)>)>) -> Seq<KeyModel> {
    Seq::new(reqs.len(), |i: int| key_model(reqs[i].0, attrs_view(reqs[i].1@)))
}

/// The promises that a batch of `n` requests, registered on `m`, receives.
pub open spec fn batch_members(m: RegistryModel, n: int) -> Seq<usize> {
    Seq::new(n as nat, |i: int| (m.promises.len() + i) as usize)
}

/// Registering a batch of requests for the targets `ks`, in order, with a
/// promise for the whole batch.
pub open spec fn batch_spec(m: RegistryModel, ks: Seq<KeyModel>) -> RegistryModel {
    let r = register_all_spec(m, ks);
    RegistryModel { aggregates: r.aggregates.push(batch_members(m, ks.len() as int)), ..r }
}

/// Registering the same target twice before it settles schedules its
/// evaluation at most once (exactly once when the target is new), and the
/// two promises wait on one target, so they settle with the same outcome.
pub proof fn lemma_register_twice(m: RegistryModel, k: KeyModel, outcome: TargetStateModel)
    requires
        model_wf(m),
        m.keys.len() < usize::MAX,
        match find_key(m.keys, k) {
            Some(t) => m.states[t] is Requested,
            None => true,
        },
    ensures
        ({
            let m1 = register_spec(m, k);
            let m2 = register_spec(m1, k);
            let first = m.promises.len() as int;
            let second = first + 1;
            let t = m2.promises[first] as int;
            &&& m1.scheduled == (if find_key(m.keys, k) is None {
                m.scheduled.push(m.keys.len() as usize)
            } else {
                m.scheduled
            })
            &&& m2.scheduled == m1.scheduled
            &&& m2.promises[second] == m2.promises[first]
            &&& promise_status_spec(m2, first) is Unresolved
            &&& promise_status_spec(m2, second) is Unresolved
            &&& promise_status_spec(settle_spec(m2, t, outcome), first) == promise_status_spec(
                settle_spec(m2, t, outcome),
                second,
            )
        }),
{
    let m1 = register_spec(m, k);
    let m2 = register_spec(m1, k);
    let first = m.promises.len() as int;
    let t: int = match find_key(m.keys, k) {
        Some(t) => t,
        None => m.keys.len() as int,
    };
    match find_key(m.keys, k) {
        Some(t0) => {
            assert(m1.keys == m.keys);
            assert(find_key(m1.keys, k) == Some(t0));
        },
        None => {
            let n = m.keys.len() as int;
            assert(m1.keys[n] == k);
            let c = choose|i: int| 0 <= i < m1.keys.len() && m1.keys[i] == k;
            if c < n {
                assert(m.keys[c] == k);
            }
            assert(find_key(m1.keys, k) == Some(n));
        },
    }
    assert(m1.states[t] is Requested);
    assert(m2.states == m1.states);
    assert(m2.promises[first] as int == t);
    assert(m2.promises[first + 1] as int == t);
}

/// Once every member of a batch has settled, the batch rejects with the
/// error of its lowest-placed failed member, whatever the others settled to.
pub proof fn lemma_batch_rejects_with_lowest_failure(
    m: RegistryModel,
    members: Seq<usize>,
    i: int,
    e: Seq<char>,
)
    requires
        model_wf(m),
        forall|j: int| 0 <= j < members.len() ==> members[j] < m.promises.len(),
        forall|j: int|
            0 <= j < members.len() ==> !(promise_status_spec(m, #[trigger] members[j] as int) is Unresolved),
        0 <= i < members.len(),
        promise_status_spec(m, members[i] as int) == PromiseStatusModel::Rejected(e),
        forall|j: int| 0 <= j < i ==> !(promise_status_spec(m, #[trigger] members[j] as int) is Rejected),
    ensures
        aggregate_status_spec(m, members) == AggregateStatusModel::Rejected(e),
{
    lemma_first_failure_at(m, members, i, e);
}

proof fn lemma_first_failure_at(m: RegistryModel, members: Seq<usize>, i: int, e: Seq<char>)
    requires
        0 <= i < members.len(),
        promise_status_spec(m, members[i] as int) == PromiseStatusModel::Rejected(e),
        forall|j: int| 0 <= j < i ==> !(promise_status_spec(m, #[trigger] members[j] as int) is Rejected),
    ensures
        first_failure(m, members) == Some(e),
    decreases i,
{
    if i > 0 {
        let rest = members.drop_first();
        assert forall|j: int| 0 <= j < i - 1 implies !(promise_status_spec(m, #[trigger] rest[j] as int) is Rejected) by {
            assert(rest[j] == members[j + 1]);
        }
        assert(!(promise_status_spec(m, members[0] as int) is Rejected));
        lemma_first_failure_at(m, rest, i - 1, e);
    }
}

/// The anonymous targets of one analysis session, with the promises waiting on them.
pub struct AnonTargetsRegistry {
    keys: Vec<AnonTargetKey>,
    states: Vec<TargetState>,
    promises: Vec<usize>,
    aggregates: Vec<Vec<usize>>,
    scheduled: Vec<usize>,
}

impl View for AnonTargetsRegistry {
    type V = RegistryModel;

    closed spec fn view(&self) -> RegistryModel {
        RegistryModel {
            keys: Seq::new(self.keys@.len(), |i: int| self.keys@[i]@),
            states: Seq::new(self.states@.len(), |i: int| self.states@[i]@),
            promises: self.promises@,
            aggregates: Seq::new(self.aggregates@.len(), |i: int| self.aggregates@[i]@),
            scheduled: self.scheduled@,
        }
    }
}

impl AnonTargetsRegistry {
    pub closed spec fn wf(&self) -> bool {
        &&& model_wf(self@)
        &&& forall|i: int| 0 <= i < self.keys@.len() ==> #[trigger] self.keys@[i].wf()
    }

    /// The state of a well-formed registry is a well-formed model.
    pub proof fn lemma_wf_model(&self)
        requires
            self.wf(),
        ensures
            model_wf(self@),
    {
    }

    pub fn new() -> (r: AnonTargetsRegistry)
        ensures
            r.wf(),
            r@.keys.len() == 0,
            r@.promises.len() == 0,
            r@.aggregates.len() == 0,
            r@.scheduled.len() == 0,
    {
        let r = AnonTargetsRegistry {
            keys: Vec::new(),
            states: Vec::new(),
            promises: Vec::new(),
            aggregates: Vec::new(),
            scheduled: Vec::new(),
        };
        assert(r@.keys =~= Seq::<KeyModel>::empty());
        r
    }

    /// Attaches a new promise to the target `key`, creating the target and
    /// scheduling its evaluation the first time the key is seen.
    fn register_key(&mut self, key: AnonTargetKey) -> (r: usize)
        requires
            old(self).wf(),
            key.wf(),
        ensures
            final(self).wf(),
            final(self)@ == register_spec(old(self)@, key@),
            r == old(self)@.promises.len(),
    {
        let ghost m = self@;
        let mut i: usize = 0;
        while i < self.keys.len()
            invariant
                self.wf(),
                self@ == m,
                m == old(self)@,
                key.wf(),
                0 <= i <= self.keys@.len(),
                forall|j: int| 0 <= j < i ==> m.keys[j] != key@,
            decreases self.keys@.len() - i,
        {
            if self.keys[i].same_target(&key) {
                assert(m.keys[i as int] == key@);
                proof {
                    let t = choose|t: int| 0 <= t < m.keys.len() && m.keys[t] == key@;
                    assert(t == i);
                }
                let p = self.promises.len();
                self.promises.push(i);
                assert(self@.promises == register_spec(m, key@).promises);
                assert(self@ =~= register_spec(m, key@));
                return p;
            }
            i = i + 1;
        }
        assert(find_key(m.keys, key@) is None);
        let t = self.keys.len();
        let p = self.promises.len();
        self.keys.push(key);
        self.states.push(TargetState::Requested);
        self.promises.push(t);
        self.scheduled.push(t);
        assert(self@.keys =~= m.keys.push(key@));
        assert(self@.states =~= m.states.push(TargetStateModel::Requested));
        assert(self@.aggregates =~= m.aggregates);
        assert(self@ =~= register_spec(m, key@));
        p
    }

    /// Registers one request for the target of `rule` with `attrs` and
    /// returns the new promise. Fails, changing nothing, when the attributes
    /// cannot form a key.
    pub fn register_one(&mut self, rule: u64, attrs: &Vec<(String, AttrValue)>) -> (r: Result<
        usize,
        AnonTargetsError,
    >)
        requires
            old(self).wf(),
        ensures
            final(self).wf(),
            match r {
                Ok(p) => attrs_valid(attrs_view(attrs@)) && p == old(self)@.promises.len()
                    && final(self)@ == register_spec(
                    old(self)@,
                    key_model(rule, attrs_view(attrs@)),
                ),
                Err(e) => !attrs_valid(attrs_view(attrs@)) && e is InvalidAttribute && final(self)@
                    == old(self)@,
            },
    {
        match AnonTargetKey::compute(rule, attrs) {
            Ok(key) => Ok(self.register_key(key)),
            Err(e) => Err(e),
        }
    }

    /// Registers a batch of requests, in order, and returns the batch's
    /// promise. Fails, changing nothing, when any request's attributes cannot
    /// form a key.
    pub fn register_many(&mut self, requests: &Vec<(u64, Vec<(String, AttrValue)>)>) -> (r: Result<
        usize,
        AnonTargetsError,
    >)
        requires
            old(self).wf(),
        ensures
            final(self).wf(),
            match r {
                Ok(a) => requests_valid(requests@) && a == old(self)@.aggregates.len()
                    && final(self)@ == batch_spec(old(self)@, requests_keys(requests@)),
                Err(e) => !requests_valid(requests@) && e is InvalidAttribute && final(self)@
                    == old(self)@,
            },
    {
        let ghost ks = requests_keys(requests@);
        let mut i: usize = 0;
        while i < requests.len()
            invariant
                0 <= i <= requests@.len(),
                self.wf(),
                self@ == old(self)@,
                forall|j: int| 0 <= j < i ==> attrs_valid(#[trigger] attrs_view(requests@[j].1@)),
            decreases requests@.len() - i,
        {
            match AnonTargetKey::compute(requests[i].0, &requests[i].1) {
                Ok(_) => {},
                Err(e) => {
                    return Err(e);
                },
            }
            i = i + 1;
        }
        let ghost m0 = self@;
        let mut members: Vec<usize> = Vec::new();
        let mut i: usize = 0;
        while i < requests.len()
            invariant
                0 <= i <= requests@.len(),
                requests_valid(requests@),
                ks == requests_keys(requests@),
                m0 == old(self)@,
                self.wf(),
                self@ == register_all_spec(m0, ks.subrange(0, i as int)),
                self@.promises.len() == m0.promises.len() + i,
                self@.aggregates == m0.aggregates,
                members@ == batch_members(m0, i as int),
            decreases requests@.len() - i,
        {
            let key = match AnonTargetKey::compute(requests[i].0, &requests[i].1) {
                Ok(k) => k,
                Err(e) => {
                    assert(attrs_valid(attrs_view(requests@[i as int].1@)));
                    return Err(e);
                },
            };
            assert(ks.subrange(0, i + 1).drop_last() =~= ks.subrange(0, i as int));
            let p = self.register_key(key);
            members.push(p);
            assert(members@ =~= batch_members(m0, i + 1));
            i = i + 1;
        }
        assert(ks.subrange(0, requests@.len() as int) =~= ks);
        let a = self.aggregates.len();
        let ghost before = self@;
        self.aggregates.push(members);
        assert(self@.aggregates =~= before.aggregates.push(batch_members(m0, requests@.len() as int)));
        assert(self@ =~= batch_spec(m0, ks));
        Ok(a)
    }

    /// Records that the evaluation of `target` produced `providers` and
    /// `artifacts`; every promise on the target then resolves to them.
    pub fn resolve(&mut self, target: usize, providers: u64, artifacts: Vec<(String, u64)>) -> (r:
        Result<(), AnonTargetsError>)
        requires
            old(self).wf(),
            target < old(self)@.keys.len(),
        ensures
            final(self).wf(),
            match old(self)@.states[target as int] {
                TargetStateModel::Requested => r is Ok && final(self)@ == settle_spec(
                    old(self)@,
                    target as int,
                    TargetStateModel::Resolved { providers, artifacts: artifacts_view(artifacts@) },
                ),
                _ => r is Err && r->Err_0 is DuplicateResolution && final(self)@ == old(self)@,
            },
    {
        self.settle(target, TargetState::Resolved { providers, artifacts })
    }

    /// Records that the evaluation of `target` failed with `error`; every
    /// promise on the target then rejects with it.
    pub fn fail(&mut self, target: usize, error: String) -> (r: Result<(), AnonTargetsError>)
        requires
            old(self).wf(),
            target < old(self)@.keys.len(),
        ensures
            final(self).wf(),
            match old(self)@.states[target as int] {
                TargetStateModel::Requested => r is Ok && final(self)@ == settle_spec(
                    old(self)@,
                    target as int,
                    TargetStateModel::Failed(error@),
                ),
                _ => r is Err && r->Err_0 is DuplicateResolution && final(self)@ == old(self)@,
            },
    {
        self.settle(target, TargetState::Failed(error))
    }

    fn settle(&mut self, target: usize, outcome: TargetState) -> (r: Result<(), AnonTargetsError>)
        requires
            old(self).wf(),
            target < old(self)@.keys.len(),
        ensures
            final(self).wf(),
            match old(self)@.states[target as int] {
                TargetStateModel::Requested => r is Ok && final(self)@ == settle_spec(
                    old(self)@,
                    target as int,
                    outcome@,
                ),
                _ => r is Err && r->Err_0 is DuplicateResolution && final(self)@ == old(self)@,
            },
    {
        let requested = match &self.states[target] {
            TargetState::Requested => true,
            _ => false,
        };
        if !requested {
            return Err(AnonTargetsError::DuplicateResolution);
        }
        let ghost before = self@;
        self.states.set(target, outcome);
        assert(self@.states =~= before.states.update(target as int, outcome@));
        assert(self@ =~= settle_spec(before, target as int, outcome@));
        Ok(())
    }

    /// What the promise `p` has settled to.
    pub fn promise_status(&self, p: usize) -> (r: PromiseStatus)
        requires
            self.wf(),
            p < self@.promises.len(),
        ensures
            r@ == promise_status_spec(self@, p as int),
    {
        let t = self.promises[p];
        match &self.states[t] {
            TargetState::Requested => PromiseStatus::Unresolved,
            TargetState::Resolved { providers, .. } => PromiseStatus::Resolved(*providers),
            TargetState::Failed(e) => PromiseStatus::Rejected(e.clone()),
        }
    }

    /// What the promise of the batch `a` has settled to.
    pub fn aggregate_status(&self, a: usize) -> (r: AggregateStatus)
        requires
            self.wf(),
            a < self@.aggregates.len(),
        ensures
            r@ == aggregate_status_spec(self@, self@.aggregates[a as int]),
    {
        let members = &self.aggregates[a];
        let ghost m = self@;
        let ghost ms = members@;
        assert(ms == m.aggregates[a as int]);
        let mut i: usize = 0;
        while i < members.len()
            invariant
                self.wf(),
                m == self@,
                ms == members@,
                ms == m.aggregates[a as int],
                a < m.aggregates.len(),
                0 <= i <= ms.len(),
                forall|j: int| 0 <= j < i ==> !(promise_status_spec(m, #[trigger] ms[j] as int) is Unresolved),
            decreases ms.len() - i,
        {
            let st = self.promise_status(members[i]);
            if let PromiseStatus::Unresolved = st {
                return AggregateStatus::Pending;
            }
            i = i + 1;
        }
        let mut out: Vec<u64> = Vec::new();
        let mut i: usize = 0;
        assert(ms.subrange(0, ms.len() as int) =~= ms);
        while i < members.len()
            invariant
                self.wf(),
                m == self@,
                ms == members@,
                ms == m.aggregates[a as int],
                a < m.aggregates.len(),
                0 <= i <= ms.len(),
                forall|j: int| 0 <= j < ms.len() ==> !(promise_status_spec(m, #[trigger] ms[j] as int) is Unresolved),
                first_failure(m, ms) == first_failure(m, ms.subrange(i as int, ms.len() as int)),
                out@ == Seq::new(i as nat, |j: int| resolved_providers(m, ms[j] as int)),
            decreases ms.len() - i,
        {
            let ghost rest = ms.subrange(i as int, ms.len() as int);
            assert(rest.drop_first() =~= ms.subrange(i + 1, ms.len() as int));
            assert(rest[0] == ms[i as int]);
            match self.promise_status(members[i]) {
                PromiseStatus::Rejected(e) => {
                    return AggregateStatus::Rejected(e);
                },
                PromiseStatus::Resolved(v) => {
                    out.push(v);
                },
                PromiseStatus::Unresolved => {
                    out.push(0);
                },
            }
            assert(out@ =~= Seq::new((i + 1) as nat, |j: int| resolved_providers(m, ms[j] as int)));
            i = i + 1;
        }
        assert(ms.subrange(ms.len() as int, ms.len() as int) =~= Seq::<usize>::empty());
        AggregateStatus::Resolved(out)
    }

    /// The artifact that `target` declared under `name`. Fails with
    /// `NotYetResolved` before the target resolves, with `EvaluationFailed`
    /// when it failed, and with `ArtifactNotFound` when it declared no such name.
    pub fn lookup_artifact(&self, target: usize, name: &str) -> (r: Result<
        PromiseArtifact,
        AnonTargetsError,
    >)
        requires
            self.wf(),
            target < self@.keys.len(),
        ensures
            match self@.states[target as int] {
                TargetStateModel::Requested => r is Err && r->Err_0 is NotYetResolved,
                TargetStateModel::Failed(e) => r is Err && r->Err_0 is EvaluationFailed
                    && r->Err_0->EvaluationFailed_0@ == e,
                TargetStateModel::Resolved { artifacts, .. } => match find_artifact(
                    artifacts,
                    name@,
                ) {
                    Some(x) => r is Ok && r->Ok_0.target == target && r->Ok_0.name@ == name@
                        && r->Ok_0.artifact == x,
                    None => r is Err && r->Err_0 is ArtifactNotFound
                        && r->Err_0->ArtifactNotFound_0@ == name@,
                },
            },
    {
        assert(self@.states[target as int] == self.states@[target as int]@);
        let wanted = name.to_owned();
        match &self.states[target] {
            TargetState::Requested => Err(AnonTargetsError::NotYetResolved),
            TargetState::Failed(e) => Err(AnonTargetsError::EvaluationFailed(e.clone())),
            TargetState::Resolved { artifacts, .. } => {
                let ghost av = artifacts_view(artifacts@);
                assert(self@.states[target as int] is Resolved && self@.states[target as int]->artifacts == av);
                let mut i: usize = 0;
                assert(av.subrange(0, av.len() as int) =~= av);
                while i < artifacts.len()
                    invariant
                        0 <= i <= artifacts@.len(),
                        av == artifacts_view(artifacts@),
                        wanted@ == name@,
                        self@.states[target as int] is Resolved,
                        self@.states[target as int]->artifacts == av,
                        find_artifact(av, name@) == find_artifact(
                            av.subrange(i as int, av.len() as int),
                            name@,
                        ),
                    decreases artifacts@.len() - i,
                {
                    let ghost rest = av.subrange(i as int, av.len() as int);
                    assert(rest.drop_first() =~= av.subrange(i + 1, av.len() as int));
                    assert(rest[0] == av[i as int]);
                    assert(av[i as int].0 == artifacts@[i as int].0@);
                    assert(av[i as int].1 == artifacts@[i as int].1);
                    if artifacts[i].0 == wanted {
                        assert(rest.len() > 0 && rest[0].0 == name@);
                        assert(find_artifact(rest, name@) == Some(av[i as int].1));
                        return Ok(
                            PromiseArtifact {
                                target,
                                name: artifacts[i].0.clone(),
                                artifact: artifacts[i].1,
                            },
                        );
                    }
                    i = i + 1;
                }
                assert(av.subrange(av.len() as int, av.len() as int) =~= Seq::<(Seq<char>, u64)>::empty());
                Err(AnonTargetsError::ArtifactNotFound(wanted))
            },
        }
    }

    /// Every artifact that `target` declared, in the order it declared them.
    /// Fails as `lookup_artifact` does before resolution or after failure.
    pub fn artifacts(&self, target: usize) -> (r: Result<Vec<PromiseArtifact>, AnonTargetsError>)
        requires
            self.wf(),
            target < self@.keys.len(),
        ensures
            match self@.states[target as int] {
                TargetStateModel::Requested => r is Err && r->Err_0 is NotYetResolved,
                TargetStateModel::Failed(e) => r is Err && r->Err_0 is EvaluationFailed
                    && r->Err_0->EvaluationFailed_0@ == e,
                TargetStateModel::Resolved { artifacts, .. } => r is Ok && r->Ok_0@.len()
                    == artifacts.len() && forall|i: int|
                    0 <= i < artifacts.len() ==> (#[trigger] r->Ok_0@[i]).target == target
                        && r->Ok_0@[i].name@ == artifacts[i].0 && r->Ok_0@[i].artifact
                        == artifacts[i].1,
            },
    {
        assert(self@.states[target as int] == self.states@[target as int]@);
        match &self.states[target] {
            TargetState::Requested => Err(AnonTargetsError::NotYetResolved),
            TargetState::Failed(e) => Err(AnonTargetsError::EvaluationFailed(e.clone())),
            TargetState::Resolved { artifacts, .. } => {
                let ghost av = artifacts_view(artifacts@);
                let mut out: Vec<PromiseArtifact> = Vec::new();
                let mut i: usize = 0;
                while i < artifacts.len()
                    invariant
                        0 <= i <= artifacts@.len(),
                        av == artifacts_view(artifacts@),
                        out@.len() == i,
                        forall|j: int|
                            0 <= j < i ==> (#[trigger] out@[j]).target == target && out@[j].name@
                                == av[j].0 && out@[j].artifact == av[j].1,
                    decreases artifacts@.len() - i,
                {
                    out.push(
                        PromiseArtifact {
                            target,
                            name: artifacts[i].0.clone(),
                            artifact: artifacts[i].1,
                        },
                    );
                    i = i + 1;
                }
                Ok(out)
            },
        }
    }

    /// The target that promise `p` waits on.
    pub fn target_of(&self, p: usize) -> (r: usize)
        requires
            self.wf(),
            p < self@.promises.len(),
        ensures
            r == self@.promises[p as int],
            r < self@.keys.len(),
    {
        self.promises[p]
    }

    /// The targets whose evaluation was scheduled, in the order scheduled.
    pub fn scheduled_targets(&self) -> (r: &Vec<usize>)
        ensures
            r@ == self@.scheduled,
    {
        &self.scheduled
    }

    /// The identity of `target`, for the evaluator to read its rule and attributes.
    pub fn target_key(&self, target: usize) -> (r: &AnonTargetKey)
        requires
            self.wf(),
            target < self@.keys.len(),
        ensures
            r@ == self@.keys[target as int],
            r.wf(),
    {
        &self.keys[target]
    }

    /// The number of targets registered.
    pub fn target_count(&self) -> (r: usize)
        ensures
            r == self@.keys.len(),
    {
        self.keys.len()
    }
}

} // verus!
