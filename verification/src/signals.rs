//! Current values of control signals, keyed by signal id, and the guard
//! semantics of controller transitions.
use vstd::prelude::*;
use crate::floatbits::{bits_le, bits_lt, f64_eq, f64_le, f64_lt, is_nan};
use crate::text::str_eq;
use crate::types::{
    signal_value_eq, signal_values_equal, SignalAssignment, SignalComparator, SignalCondition,
    SignalDefinition, SignalKind, SignalValue,
};

verus! {

/// The map that a sequence of `(key, value)` writes leaves, later writes winning.
pub open spec fn map_of(entries: Seq<(Seq<char>, SignalValue)>) -> Map<Seq<char>, SignalValue>
    decreases entries.len(),
{
    if entries.len() == 0 {
        Map::empty()
    } else {
        map_of(entries.drop_last()).insert(entries.last().0, entries.last().1)
    }
}

pub open spec fn keys_unique(entries: Seq<(Seq<char>, SignalValue)>) -> bool {
    forall|a: int, b: int| 0 <= a < b < entries.len() ==> #[trigger] entries[a].0 != #[trigger] entries[b].0
}

proof fn lemma_map_of_dom(entries: Seq<(Seq<char>, SignalValue)>, k: Seq<char>)
    ensures
        map_of(entries).dom().contains(k) <==> exists|i: int| 0 <= i < entries.len() && #[trigger] entries[i].0 == k,
    decreases entries.len(),
{
    if entries.len() > 0 {
        let d = entries.drop_last();
        lemma_map_of_dom(d, k);
        if map_of(d).dom().contains(k) {
            let i = choose|i: int| 0 <= i < d.len() && #[trigger] d[i].0 == k;
            assert(entries[i].0 == k);
        }
        if exists|i: int| 0 <= i < entries.len() && #[trigger] entries[i].0 == k {
            let i = choose|i: int| 0 <= i < entries.len() && #[trigger] entries[i].0 == k;
            if i < entries.len() - 1 {
                assert(d[i].0 == k);
            }
        }
    }
}

proof fn lemma_map_of_index(entries: Seq<(Seq<char>, SignalValue)>, i: int)
    requires
        keys_unique(entries),
        0 <= i < entries.len(),
    ensures
        map_of(entries).dom().contains(entries[i].0),
        map_of(entries)[entries[i].0] == entries[i].1,
    decreases entries.len(),
{
    if i < entries.len() - 1 {
        let d = entries.drop_last();
        assert(keys_unique(d)) by {
            assert forall|a: int, b: int| 0 <= a < b < d.len() implies #[trigger] d[a].0 != #[trigger] d[b].0 by {
                assert(entries[a].0 != entries[b].0);
            }
        }
        lemma_map_of_index(d, i);
        assert(entries[i].0 != entries[entries.len() - 1].0);
    }
}

proof fn lemma_map_of_update(entries: Seq<(Seq<char>, SignalValue)>, i: int, v: SignalValue)
    requires
        keys_unique(entries),
        0 <= i < entries.len(),
    ensures
        map_of(entries.update(i, (entries[i].0, v))) == map_of(entries).insert(entries[i].0, v),
    decreases entries.len(),
{
    let u = entries.update(i, (entries[i].0, v));
    let d = entries.drop_last();
    if i == entries.len() - 1 {
        assert(u.drop_last() =~= d);
        assert(map_of(u) =~= map_of(entries).insert(entries[i].0, v));
    } else {
        assert(keys_unique(d)) by {
            assert forall|a: int, b: int| 0 <= a < b < d.len() implies #[trigger] d[a].0 != #[trigger] d[b].0 by {
                assert(entries[a].0 != entries[b].0);
            }
        }
        lemma_map_of_update(d, i, v);
        assert(u.drop_last() =~= d.update(i, (d[i].0, v)));
        assert(entries[i].0 != entries.last().0);
        assert(map_of(u) =~= map_of(entries).insert(entries[i].0, v));
    }
}

/// Current signal values, keyed by signal id.
#[derive(Debug)]
pub struct SignalValues {
    entries: Vec<(String, SignalValue)>,
}

impl SignalValues {
    pub closed spec fn entry_views(&self) -> Seq<(Seq<char>, SignalValue)> {
        self.entries@.map_values(|e: (String, SignalValue)| (e.0@, e.1))
    }

    /// No signal id is held twice.
    pub closed spec fn wf(&self) -> bool {
        keys_unique(self.entry_views())
    }
}

impl View for SignalValues {
    type V = Map<Seq<char>, SignalValue>;

    closed spec fn view(&self) -> Map<Seq<char>, SignalValue> {
        map_of(self.entry_views())
    }
}

impl SignalValues {
    pub fn new() -> (r: Self)
        ensures
            r@ == Map::<Seq<char>, SignalValue>::empty(),
            r.wf(),
    {
        let r = SignalValues { entries: Vec::new() };
        assert(r.entry_views() =~= Seq::<(Seq<char>, SignalValue)>::empty());
        r
    }

    fn position(&self, key: &str) -> (r: Option<usize>)
        requires
            self.wf(),
        ensures
            r is None ==> !self@.dom().contains(key@),
            r matches Some(i) ==> i < self.entries@.len() && self.entry_views()[i as int].0 == key@,
    {
        let n = self.entries.len();
        let mut i: usize = 0;
        while i < n
            invariant
                n == self.entries@.len(),
                i <= n,
                forall|j: int| 0 <= j < i ==> self.entries@[j].0@ != key@,
            decreases n - i,
        {
            if str_eq(self.entries[i].0.as_str(), key) {
                return Some(i);
            }
            i = i + 1;
        }
        proof {
            lemma_map_of_dom(self.entry_views(), key@);
            if self@.dom().contains(key@) {
                let j = choose|j: int| 0 <= j < self.entry_views().len() && #[trigger] self.entry_views()[j].0 == key@;
                assert(self.entries@[j].0@ == key@);
            }
        }
        None
    }

    /// The value held for `key`.
    pub fn get(&self, key: &str) -> (r: Option<&SignalValue>)
        requires
            self.wf(),
        ensures
            r is None <==> !self@.dom().contains(key@),
            r matches Some(v) ==> *v == self@[key@],
    {
        match self.position(key) {
            None => None,
            Some(i) => {
                proof {
                    lemma_map_of_index(self.entry_views(), i as int);
                }
                Some(&self.entries[i].1)
            },
        }
    }

    /// Writes `value` for `key`.
    pub fn insert(&mut self, key: String, value: SignalValue)
        requires
            old(self).wf(),
        ensures
            final(self).wf(),
            final(self)@ == old(self)@.insert(key@, value),
    {
        let ghost old_views = self.entry_views();
        match self.position(key.as_str()) {
            Some(i) => {
                let ghost k = self.entry_views()[i as int].0;
                self.entries.set(i, (key, value));
                proof {
                    assert(self.entry_views() =~= old_views.update(i as int, (k, value)));
                    lemma_map_of_update(old_views, i as int, value);
                    assert forall|a: int, b: int| 0 <= a < b < self.entry_views().len() implies #[trigger] self.entry_views()[a].0
                        != #[trigger] self.entry_views()[b].0 by {
                        assert(old_views[a].0 != old_views[b].0);
                    }
                }
            },
            None => {
                let ghost kv = key@;
                self.entries.push((key, value));
                proof {
                    assert(self.entry_views() =~= old_views.push((kv, value)));
                    assert(self.entry_views().drop_last() =~= old_views);
                    lemma_map_of_dom(old_views, kv);
                    assert forall|a: int, b: int| 0 <= a < b < self.entry_views().len() implies #[trigger] self.entry_views()[a].0
                        != #[trigger] self.entry_views()[b].0 by {
                        if b == old_views.len() {
                            assert(old_views[a].0 != kv);
                        } else {
                            assert(old_views[a].0 != old_views[b].0);
                        }
                    }
                }
            },
        }
    }
}

/// A value of the declared kind.
pub open spec fn value_matches_kind(kind: SignalKind, value: SignalValue) -> bool {
    match (kind, value) {
        (SignalKind::Boolean, SignalValue::Bool(_)) => true,
        (SignalKind::Scalar, SignalValue::Scalar(_)) => true,
        (SignalKind::Text, SignalValue::Text(_)) => true,
        _ => false,
    }
}

pub fn signal_value_matches_kind(kind: &SignalKind, value: &SignalValue) -> (b: bool)
    ensures
        b == value_matches_kind(*kind, *value),
{
    match (kind, value) {
        (SignalKind::Boolean, SignalValue::Bool(_)) => true,
        (SignalKind::Scalar, SignalValue::Scalar(_)) => true,
        (SignalKind::Text, SignalValue::Text(_)) => true,
        _ => false,
    }
}

/// Comparators a signal of `kind` may be guarded with: any on scalars,
/// equality and inequality on the others.
pub open spec fn comparator_supported(kind: SignalKind, comparator: SignalComparator) -> bool {
    match kind {
        SignalKind::Scalar => true,
        _ => comparator == SignalComparator::Equal || comparator == SignalComparator::NotEqual,
    }
}

pub fn signal_comparator_supported(kind: &SignalKind, comparator: &SignalComparator) -> (b: bool)
    ensures
        b == comparator_supported(*kind, *comparator),
{
    match kind {
        SignalKind::Scalar => true,
        _ => match comparator {
            SignalComparator::Equal => true,
            SignalComparator::NotEqual => true,
            _ => false,
        },
    }
}

/// The initial values of `signals`, a later definition of an id winning.
pub open spec fn initial_values(signals: Seq<SignalDefinition>) -> Map<Seq<char>, SignalValue>
    decreases signals.len(),
{
    if signals.len() == 0 {
        Map::empty()
    } else {
        initial_values(signals.drop_last()).insert(signals.last().id@, signals.last().initial_value)
    }
}

/// `values` after the assignments, applied in order.
pub open spec fn assign_all(values: Map<Seq<char>, SignalValue>, assignments: Seq<SignalAssignment>) -> Map<Seq<char>, SignalValue>
    decreases assignments.len(),
{
    if assignments.len() == 0 {
        values
    } else {
        assign_all(values, assignments.drop_last()).insert(assignments.last().signal_id@, assignments.last().value)
    }
}

/// Whether the guard holds on the current values: a missing signal never
/// matches, ordering comparators only hold between scalars.
pub open spec fn condition_holds(condition: SignalCondition, values: Map<Seq<char>, SignalValue>) -> bool {
    if !values.dom().contains(condition.signal_id@) {
        false
    } else {
        let current = values[condition.signal_id@];
        let expected = condition.expected_value;
        match condition.comparator {
            SignalComparator::Equal => signal_value_eq(current, expected),
            SignalComparator::NotEqual => !signal_value_eq(current, expected),
            _ => match (current, expected) {
                (SignalValue::Scalar(l), SignalValue::Scalar(r)) => match condition.comparator {
                    SignalComparator::GreaterThan => f64_lt(r, l),
                    SignalComparator::GreaterThanOrEqual => f64_le(r, l),
                    SignalComparator::LessThan => f64_lt(l, r),
                    _ => f64_le(l, r),
                },
                _ => false,
            },
        }
    }
}

/// The initial value of every signal, keyed by id.
pub fn control_signal_values(signals: &[SignalDefinition]) -> (m: SignalValues)
    ensures
        m.wf(),
        m@ == initial_values(signals@),
{
    let mut m = SignalValues::new();
    let n = signals.len();
    let mut i: usize = 0;
    while i < n
        invariant
            n == signals@.len(),
            i <= n,
            m.wf(),
            m@ == initial_values(signals@.take(i as int)),
        decreases n - i,
    {
        assert(signals@.take(i + 1).drop_last() =~= signals@.take(i as int));
        m.insert(signals[i].id.clone(), signals[i].initial_value.clone());
        i = i + 1;
    }
    assert(signals@.take(n as int) =~= signals@);
    m
}

/// Whether `condition` holds on `signal_values`.
pub fn signal_condition_matches(condition: &SignalCondition, signal_values: &SignalValues) -> (b: bool)
    requires
        signal_values.wf(),
    ensures
        b == condition_holds(*condition, signal_values@),
{
    let current = match signal_values.get(condition.signal_id.as_str()) {
        None => {
            return false;
        },
        Some(v) => v,
    };
    match condition.comparator {
        SignalComparator::Equal => signal_values_equal(current, &condition.expected_value),
        SignalComparator::NotEqual => !signal_values_equal(current, &condition.expected_value),
        _ => match (current, &condition.expected_value) {
            (SignalValue::Scalar(l), SignalValue::Scalar(r)) => match condition.comparator {
                SignalComparator::GreaterThan => bits_lt(*r, *l),
                SignalComparator::GreaterThanOrEqual => bits_le(*r, *l),
                SignalComparator::LessThan => bits_lt(*l, *r),
                _ => bits_le(*l, *r),
            },
            _ => false,
        },
    }
}

/// Every condition of `conditions` holds on `values`.
pub open spec fn all_hold(conditions: Seq<SignalCondition>, values: Map<Seq<char>, SignalValue>) -> bool {
    forall|k: int| 0 <= k < conditions.len() ==> #[trigger] condition_holds(conditions[k], values)
}

pub fn all_conditions_match(conditions: &[SignalCondition], signal_values: &SignalValues) -> (b: bool)
    requires
        signal_values.wf(),
    ensures
        b == all_hold(conditions@, signal_values@),
{
    let n = conditions.len();
    let mut i: usize = 0;
    while i < n
        invariant
            n == conditions@.len(),
            i <= n,
            signal_values.wf(),
            forall|k: int| 0 <= k < i ==> #[trigger] condition_holds(conditions@[k], signal_values@),
        decreases n - i,
    {
        if !signal_condition_matches(&conditions[i], signal_values) {
            return false;
        }
        i = i + 1;
    }
    true
}

/// Applies the assignments in order.
pub fn apply_control_assignments(signal_values: &mut SignalValues, assignments: &[SignalAssignment])
    requires
        old(signal_values).wf(),
    ensures
        final(signal_values).wf(),
        final(signal_values)@ == assign_all(old(signal_values)@, assignments@),
{
    let n = assignments.len();
    let mut i: usize = 0;
    let ghost start = signal_values@;
    while i < n
        invariant
            n == assignments@.len(),
            i <= n,
            signal_values.wf(),
            signal_values@ == assign_all(start, assignments@.take(i as int)),
        decreases n - i,
    {
        assert(assignments@.take(i + 1).drop_last() =~= assignments@.take(i as int));
        signal_values.insert(assignments[i].signal_id.clone(), assignments[i].value.clone());
        i = i + 1;
    }
    assert(assignments@.take(n as int) =~= assignments@);
}

/// The guard comparing signal `id` with the scalar `expected` by `comparator`.
pub open spec fn scalar_guard(id: String, comparator: SignalComparator, expected: u64) -> SignalCondition {
    SignalCondition { signal_id: id, comparator, expected_value: SignalValue::Scalar(expected) }
}

/// Ordering guards on scalars compare the values as numbers: `<=` holds
/// exactly when `<` or `==` does, `>=` exactly when `>` or `==` does;
/// between two numbers (no NaN) `<=` is the negation of `>` and `>=` of
/// `<`; equal values satisfy `<=` and `>=` but neither `<` nor `>`.
pub proof fn law_scalar_ordering_guards(id: String, current: u64, expected: u64, values: Map<Seq<char>, SignalValue>)
    requires
        values.dom().contains(id@),
        values[id@] == SignalValue::Scalar(current),
    ensures
        condition_holds(scalar_guard(id, SignalComparator::LessThanOrEqual, expected), values) <==> (condition_holds(
            scalar_guard(id, SignalComparator::LessThan, expected),
            values,
        ) || condition_holds(scalar_guard(id, SignalComparator::Equal, expected), values)),
        condition_holds(scalar_guard(id, SignalComparator::GreaterThanOrEqual, expected), values) <==> (condition_holds(
            scalar_guard(id, SignalComparator::GreaterThan, expected),
            values,
        ) || condition_holds(scalar_guard(id, SignalComparator::Equal, expected), values)),
        condition_holds(scalar_guard(id, SignalComparator::Equal, expected), values) <==> f64_eq(current, expected),
        !is_nan(current) && !is_nan(expected) ==> {
            &&& condition_holds(scalar_guard(id, SignalComparator::LessThanOrEqual, expected), values)
                <==> !condition_holds(scalar_guard(id, SignalComparator::GreaterThan, expected), values)
            &&& condition_holds(scalar_guard(id, SignalComparator::GreaterThanOrEqual, expected), values)
                <==> !condition_holds(scalar_guard(id, SignalComparator::LessThan, expected), values)
        },
        f64_eq(current, expected) ==> {
            &&& condition_holds(scalar_guard(id, SignalComparator::LessThanOrEqual, expected), values)
            &&& condition_holds(scalar_guard(id, SignalComparator::GreaterThanOrEqual, expected), values)
            &&& !condition_holds(scalar_guard(id, SignalComparator::LessThan, expected), values)
            &&& !condition_holds(scalar_guard(id, SignalComparator::GreaterThan, expected), values)
        },
{
}

} // verus!
