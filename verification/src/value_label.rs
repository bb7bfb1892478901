//! Value labels: which source-level variable a value holds from which
//! source location on, and the index of those facts by source location.

use crate::regs::Reg;
use crate::source_loc::{max_loc, spec_max_loc, ComparableSourceLoc, SourceLoc};
use std::collections::BTreeMap;
use vstd::prelude::*;
use vstd::std_specs::btree::increasing_seq;
use vstd::std_specs::cmp::OrdSpec;
use vstd::std_specs::iter::IteratorSpec;

verus! {

/// An SSA value, named by its number.
#[derive(Clone, Copy, Debug, PartialEq, Eq, Structural)]
pub struct Value(pub u32);

/// A source-level variable label, named by its number.
#[derive(Clone, Copy, Debug, PartialEq, Eq, Structural, Hash)]
pub struct ValueLabel(pub u32);

/// A value starts to hold `label` at source location `from`.
#[derive(Clone, Copy, Debug, PartialEq, Eq, Structural)]
pub struct ValueLabelStart {
    /// Where the value starts to hold the label.
    pub from: SourceLoc,
    /// The label held.
    pub label: ValueLabel,
}

/// What is known of the labels of one value.
#[derive(Clone, Debug)]
pub enum ValueLabelAssignments {
    /// The value holds these labels, each from its own location on.
    Starts(Vec<ValueLabelStart>),
    /// From `from` on, the value holds what `value` holds.
    Alias {
        /// Where the alias starts.
        from: SourceLoc,
        /// The value aliased.
        value: Value,
    },
}

/// The particular location for a value.
#[derive(Debug, Clone, Copy, PartialEq, Eq, Structural)]
pub enum LabelValueLoc {
    /// New-backend Reg.
    Reg(Reg),
    /// New-backend offset from stack pointer.
    SPOffset(i64),
}

/// Value location range.
#[derive(Debug, Clone, Copy, PartialEq, Eq, Structural)]
pub struct ValueLocRange {
    /// The ValueLoc containing a ValueLabel during this range.
    pub loc: LabelValueLoc,
    /// The start of the range. It is an offset in the generated code.
    pub start: u32,
    /// The end of the range. It is an offset in the generated code.
    pub end: u32,
}

/// Resulting map of Value labels and their ranges/locations.
pub type ValueLabelsRanges = std::collections::HashMap<ValueLabel, Vec<ValueLocRange>>;

/// The alias chain from `v`, followed for `n` steps when it ends within
/// them, stops at a value that is not an alias.
proof fn lemma_resolve_within_ends(m: Map<u32, ValueLabelAssignments>, v: u32, n: nat)
    requires
        alias_chain_ends_within(m, v, n),
    ensures
        alias_step(m, resolve_within(m, v, n)) is None,
    decreases n,
{
    if let Some(w) = alias_step(m, v) {
        lemma_resolve_within_ends(m, w, (n - 1) as nat);
    }
}

/// Following the alias chain gives the same value whatever enough fuel.
proof fn lemma_resolve_within_fuel(m: Map<u32, ValueLabelAssignments>, v: u32, n1: nat, n2: nat)
    requires
        alias_chain_ends_within(m, v, n1),
        alias_chain_ends_within(m, v, n2),
    ensures
        resolve_within(m, v, n1) == resolve_within(m, v, n2),
    decreases n1,
{
    if let Some(w) = alias_step(m, v) {
        lemma_resolve_within_fuel(m, w, (n1 - 1) as nat, (n2 - 1) as nat);
    }
}

/// Resolving a value that is not an alias gives the value itself; resolving
/// an alias of `w` gives what resolving `w` gives.
pub proof fn lemma_resolve_alias_steps(m: Map<u32, ValueLabelAssignments>, v: u32)
    requires
        alias_chain_ends(m, v),
    ensures
        alias_step(m, v) is None ==> resolve_alias(m, v) == v,
        alias_step(m, v) matches Some(w) ==> alias_chain_ends(m, w) && resolve_alias(m, v)
            == resolve_alias(m, w),
{
    let n = choose|n: nat| alias_chain_ends_within(m, v, n);
    if let Some(w) = alias_step(m, v) {
        assert(alias_chain_ends_within(m, w, (n - 1) as nat));
        let n2 = choose|n: nat| alias_chain_ends_within(m, w, n);
        lemma_resolve_within_fuel(m, w, (n - 1) as nat, n2);
    }
}

/// When the alias chain from `v` ends, the value it resolves to is not an
/// alias.
pub proof fn lemma_resolve_alias_not_alias(m: Map<u32, ValueLabelAssignments>, v: u32)
    requires
        alias_chain_ends(m, v),
    ensures
        alias_step(m, resolve_alias(m, v)) is None,
{
    let n = choose|n: nat| alias_chain_ends_within(m, v, n);
    lemma_resolve_within_ends(m, v, n);
}

/// The value that `v` is declared an alias of, if its entry is an alias.
pub open spec fn alias_step(m: Map<u32, ValueLabelAssignments>, v: u32) -> Option<u32> {
    if m.contains_key(v) {
        match m[v] {
            ValueLabelAssignments::Alias { value, .. } => Some(value.0),
            ValueLabelAssignments::Starts(_) => None,
        }
    } else {
        None
    }
}

/// Following alias links from `v` reaches a value that is not an alias in at
/// most `n` steps.
pub open spec fn alias_chain_ends_within(m: Map<u32, ValueLabelAssignments>, v: u32, n: nat) -> bool
    decreases n,
{
    match alias_step(m, v) {
        Some(w) => n > 0 && alias_chain_ends_within(m, w, (n - 1) as nat),
        None => true,
    }
}

/// Following alias links from `v` ends.
pub open spec fn alias_chain_ends(m: Map<u32, ValueLabelAssignments>, v: u32) -> bool {
    exists|n: nat| alias_chain_ends_within(m, v, n)
}

/// The value reached from `v` by following at most `n` alias links.
pub open spec fn resolve_within(m: Map<u32, ValueLabelAssignments>, v: u32, n: nat) -> u32
    decreases n,
{
    match alias_step(m, v) {
        Some(w) => if n > 0 {
            resolve_within(m, w, (n - 1) as nat)
        } else {
            v
        },
        None => v,
    }
}

/// The first value on the alias chain from `v` that is not an alias.
pub open spec fn resolve_alias(m: Map<u32, ValueLabelAssignments>, v: u32) -> u32 {
    resolve_within(m, v, choose|n: nat| alias_chain_ends_within(m, v, n))
}

/// Every alias that the index reads (one whose start is not the default
/// location) leads, by alias links, to a value that is not an alias.
pub open spec fn aliases_resolve(m: Map<u32, ValueLabelAssignments>) -> bool {
    forall|k: u32|
        #![trigger m[k]]
        m.contains_key(k) ==> match m[k] {
            ValueLabelAssignments::Alias { from, value } => !from.spec_is_default()
                ==> alias_chain_ends(m, value.0),
            ValueLabelAssignments::Starts(_) => true,
        }
}

/// Records the starts of `labels` (in order) for value `v`, skipping those at
/// the default location.
pub open spec fn insert_starts(
    acc: Map<u32, (Value, ValueLabel)>,
    labels: Seq<ValueLabelStart>,
    v: Value,
) -> Map<u32, (Value, ValueLabel)>
    decreases labels.len(),
{
    if labels.len() == 0 {
        acc
    } else {
        let prev = insert_starts(acc, labels.drop_last(), v);
        let l = labels.last();
        if l.from.spec_is_default() {
            prev
        } else {
            prev.insert(l.from.0, (v, l.label))
        }
    }
}

/// Where an aliased start takes effect: the alias's own start, or the later
/// of the two when the aliased label has a known start.
pub open spec fn aliased_start(from: SourceLoc, label_from: SourceLoc) -> u32 {
    if label_from.spec_is_default() {
        from.0
    } else {
        spec_max_loc(ComparableSourceLoc(from), ComparableSourceLoc(label_from)).0.0
    }
}

/// Records, for value `v` aliasing from `from`, the starts of the aliased
/// value's `labels` (in order).
pub open spec fn insert_aliased(
    acc: Map<u32, (Value, ValueLabel)>,
    labels: Seq<ValueLabelStart>,
    v: Value,
    from: SourceLoc,
) -> Map<u32, (Value, ValueLabel)>
    decreases labels.len(),
{
    if labels.len() == 0 {
        acc
    } else {
        let prev = insert_aliased(acc, labels.drop_last(), v, from);
        let l = labels.last();
        prev.insert(aliased_start(from, l.from), (v, l.label))
    }
}

/// The index after recording the entry of value `k`.
pub open spec fn index_entry(
    m: Map<u32, ValueLabelAssignments>,
    acc: Map<u32, (Value, ValueLabel)>,
    k: u32,
    a: ValueLabelAssignments,
) -> Map<u32, (Value, ValueLabel)> {
    match a {
        ValueLabelAssignments::Starts(labels) => insert_starts(acc, labels@, Value(k)),
        ValueLabelAssignments::Alias { from, value } => if from.spec_is_default() {
            acc
        } else {
            let target = resolve_alias(m, value.0);
            if m.contains_key(target) {
                match m[target] {
                    ValueLabelAssignments::Starts(labels) => insert_aliased(
                        acc,
                        labels@,
                        Value(k),
                        from,
                    ),
                    ValueLabelAssignments::Alias { .. } => acc,
                }
            } else {
                acc
            }
        },
    }
}

/// The index after recording `entries` in order.
pub open spec fn index_entries(
    m: Map<u32, ValueLabelAssignments>,
    entries: Seq<(u32, ValueLabelAssignments)>,
) -> Map<u32, (Value, ValueLabel)>
    decreases entries.len(),
{
    if entries.len() == 0 {
        Map::empty()
    } else {
        let last = entries.last();
        index_entry(m, index_entries(m, entries.drop_last()), last.0, last.1)
    }
}

/// `s` lists the entries of `m` in strictly increasing key order.
pub open spec fn is_sorted_listing(
    s: Seq<(u32, ValueLabelAssignments)>,
    m: Map<u32, ValueLabelAssignments>,
) -> bool {
    &&& forall|i: int, j: int| 0 <= i < j < s.len() ==> s[i].0 < s[j].0
    &&& forall|i: int| 0 <= i < s.len() ==> #[trigger] m.contains_key(s[i].0) && m[s[i].0] == s[i].1
    &&& forall|k: u32| #[trigger] m.contains_key(k) ==> exists|i: int| 0 <= i < s.len() && s[i].0 == k
}

/// The entries of `m` in increasing key order.
pub open spec fn sorted_entries(m: Map<u32, ValueLabelAssignments>) -> Seq<(u32, ValueLabelAssignments)> {
    choose|s: Seq<(u32, ValueLabelAssignments)>| is_sorted_listing(s, m)
}

/// The index of label starts by source location (its bits): the entries of
/// the map are visited in increasing value order, and a later start at the
/// same location replaces an earlier one.
pub open spec fn value_labels_index(values_labels: Option<Map<u32, ValueLabelAssignments>>) -> Map<
    u32,
    (Value, ValueLabel),
> {
    match values_labels {
        Some(m) => index_entries(m, sorted_entries(m)),
        None => Map::empty(),
    }
}

/// The view of an optional map.
pub open spec fn option_map_view(
    values_labels: Option<BTreeMap<u32, ValueLabelAssignments>>,
) -> Option<Map<u32, ValueLabelAssignments>> {
    match values_labels {
        Some(m) => Some(m@),
        None => None,
    }
}

/// Two sorted listings of one map are the same sequence.
pub proof fn lemma_sorted_listing_unique(
    s: Seq<(u32, ValueLabelAssignments)>,
    t: Seq<(u32, ValueLabelAssignments)>,
    m: Map<u32, ValueLabelAssignments>,
)
    requires
        is_sorted_listing(s, m),
        is_sorted_listing(t, m),
    ensures
        s == t,
{
    assert forall|i: int| 0 <= i < s.len() && i < t.len() implies s[i].0 == t[i].0 by {
        lemma_sorted_listing_agree_at(s, t, m, i);
    }
    if s.len() < t.len() {
        let k = t[s.len() as int].0;
        assert(m.contains_key(k));
        let j = choose|j: int| 0 <= j < s.len() && s[j].0 == k;
        assert(t[j].0 == s[j].0);
        assert(false);
    }
    if t.len() < s.len() {
        let k = s[t.len() as int].0;
        assert(m.contains_key(k));
        let j = choose|j: int| 0 <= j < t.len() && t[j].0 == k;
        assert(t[j].0 == s[j].0);
        assert(false);
    }
    assert forall|i: int| 0 <= i < s.len() implies s[i] == t[i] by {
        assert(m.contains_key(s[i].0));
        assert(m.contains_key(t[i].0));
    }
    assert(s =~= t);
}

/// Two sorted listings of one map have the same key at each common index.
proof fn lemma_sorted_listing_agree_at(
    s: Seq<(u32, ValueLabelAssignments)>,
    t: Seq<(u32, ValueLabelAssignments)>,
    m: Map<u32, ValueLabelAssignments>,
    i: int,
)
    requires
        is_sorted_listing(s, m),
        is_sorted_listing(t, m),
        0 <= i < s.len(),
        i < t.len(),
    ensures
        s[i].0 == t[i].0,
    decreases i,
{
    if i > 0 {
        lemma_sorted_listing_agree_at(s, t, m, i - 1);
    }
    assert forall|h: int| 0 <= h < i implies s[h].0 == t[h].0 by {
        if h < i - 1 {
            lemma_sorted_listing_agree_at(s, t, m, h);
        }
    }
    if s[i].0 < t[i].0 {
        let k = s[i].0;
        assert(m.contains_key(k));
        let j = choose|j: int| 0 <= j < t.len() && t[j].0 == k;
        if j < i {
            assert(s[j].0 == t[j].0);
        }
    } else if t[i].0 < s[i].0 {
        let k = t[i].0;
        assert(m.contains_key(k));
        let j = choose|j: int| 0 <= j < s.len() && s[j].0 == k;
        if j < i {
            assert(s[j].0 == t[j].0);
        }
    }
}

/// The entries produced by a map iterator, dereferenced.
pub open spec fn deref_entries(s: Seq<(&u32, &ValueLabelAssignments)>) -> Seq<(u32, ValueLabelAssignments)> {
    s.map_values(|p: (&u32, &ValueLabelAssignments)| (*p.0, *p.1))
}

/// Records the starts of `labels` for value `v` into `sorted`.
fn record_starts(
    sorted: &mut BTreeMap<u32, (Value, ValueLabel)>,
    labels: &Vec<ValueLabelStart>,
    v: Value,
)
    ensures
        final(sorted)@ == insert_starts(old(sorted)@, labels@, v),
{
    let ghost acc0 = sorted@;
    let mut j: usize = 0;
    while j < labels.len()
        invariant
            j <= labels.len(),
            sorted@ == insert_starts(acc0, labels@.take(j as int), v),
        decreases labels.len() - j,
    {
        let label = labels[j];
        assert(labels@.take(j + 1).drop_last() =~= labels@.take(j as int));
        if !label.from.is_default() {
            sorted.insert(label.from.bits(), (v, label.label));
        }
        j = j + 1;
    }
    assert(labels@.take(labels.len() as int) =~= labels@);
}

/// Records, for value `v` aliasing from `from`, the starts of the aliased
/// value's `labels` into `sorted`.
fn record_aliased(
    sorted: &mut BTreeMap<u32, (Value, ValueLabel)>,
    labels: &Vec<ValueLabelStart>,
    v: Value,
    from: SourceLoc,
)
    ensures
        final(sorted)@ == insert_aliased(old(sorted)@, labels@, v, from),
{
    let ghost acc0 = sorted@;
    let mut j: usize = 0;
    while j < labels.len()
        invariant
            j <= labels.len(),
            sorted@ == insert_aliased(acc0, labels@.take(j as int), v, from),
        decreases labels.len() - j,
    {
        let label = labels[j];
        assert(labels@.take(j + 1).drop_last() =~= labels@.take(j as int));
        let srcloc = if label.from.is_default() {
            from
        } else {
            max_loc(ComparableSourceLoc::from(from), ComparableSourceLoc::from(label.from)).0
        };
        sorted.insert(srcloc.bits(), (v, label.label));
        j = j + 1;
    }
    assert(labels@.take(labels.len() as int) =~= labels@);
}

/// Follows alias links from `value` to the first value that is not an alias.
fn resolve_alias_exec(values_labels: &BTreeMap<u32, ValueLabelAssignments>, value: Value) -> (r: Value)
    requires
        alias_chain_ends(values_labels@, value.0),
    ensures
        r.0 == resolve_alias(values_labels@, value.0),
{
    let ghost m = values_labels@;
    let ghost n0 = choose|n: nat| alias_chain_ends_within(m, value.0, n);
    let ghost mut fuel: nat = n0;
    let mut aliased_value = value;
    loop
        invariant
            m == values_labels@,
            alias_chain_ends_within(m, aliased_value.0, fuel),
            resolve_within(m, aliased_value.0, fuel) == resolve_within(m, value.0, n0),
            n0 == choose|n: nat| alias_chain_ends_within(m, value.0, n),
        decreases fuel,
    {
        match values_labels.get(&aliased_value.0) {
            Some(ValueLabelAssignments::Alias { value: next, .. }) => {
                proof {
                    fuel = (fuel - 1) as nat;
                }
                aliased_value = *next;
            },
            _ => {
                return aliased_value;
            },
        }
    }
}

/// Builds the index of label starts by source location (its bits).
///
/// Each start of a label at a known location is recorded for its value. An
/// alias that starts at a known location records, for the aliasing value,
/// each label start of the value that its alias chain ends at, at the later
/// of the two locations. Values are visited in increasing order and a later
/// start at a location replaces an earlier one.
pub fn build_value_labels_index(
    values_labels: &Option<BTreeMap<u32, ValueLabelAssignments>>,
) -> (index: BTreeMap<u32, (Value, ValueLabel)>)
    requires
        match values_labels {
            Some(m) => aliases_resolve(m@),
            None => true,
        },
    ensures
        index@ == value_labels_index(option_map_view(*values_labels)),
{
    if values_labels.is_none() {
        return BTreeMap::new();
    }
    let values_labels = values_labels.as_ref().unwrap();
    let ghost m = values_labels@;
    let mut sorted: BTreeMap<u32, (Value, ValueLabel)> = BTreeMap::new();
    let iter = values_labels.iter();
    let ghost entries = deref_entries(iter.remaining());
    proof {
        let rem = iter.remaining();
        let keys = rem.map_values(|kv: (&u32, &ValueLabelAssignments)| *kv.0);
        assert(vstd::laws_cmp::obeys_cmp::<u32>());
        assert(increasing_seq(keys));
        assert forall|i: int, j: int| 0 <= i < j < entries.len() implies entries[i].0
            < entries[j].0 by {
            assert(keys[i].cmp_spec(&keys[j]) is Less);
        }
        assert forall|i: int| 0 <= i < entries.len() implies #[trigger] m.contains_key(
            entries[i].0,
        ) && m[entries[i].0] == entries[i].1 by {
            assert(m.contains_key(*rem[i].0));
        }
        assert forall|k: u32| #[trigger] m.contains_key(k) implies exists|i: int|
            0 <= i < entries.len() && entries[i].0 == k by {
            assert(rem.contains((&k, &m[k])));
            let i = rem.index_of((&k, &m[k]));
            assert(entries[i].0 == k);
        }
        assert(is_sorted_listing(entries, m));
        assert(is_sorted_listing(sorted_entries(m), m));
        lemma_sorted_listing_unique(entries, sorted_entries(m), m);
    }
    let ghost mut count: int = 0;
    for (val, assigns) in it: iter
        invariant
            m == values_labels@,
            aliases_resolve(m),
            entries == sorted_entries(m),
            is_sorted_listing(entries, m),
            deref_entries(it.seq()) == entries,
            count == it.index(),
            sorted@ == index_entries(m, entries.take(count)),
    {
        assert(entries.take(count + 1).drop_last() =~= entries.take(count));
        assert(entries[count] == (*val, *assigns));
        match assigns {
            ValueLabelAssignments::Starts(labels) => {
                record_starts(&mut sorted, labels, Value(*val));
            },
            ValueLabelAssignments::Alias { from, value } => {
                if !from.is_default() {
                    assert(m.contains_key(*val));
                    let target = resolve_alias_exec(values_labels, *value);
                    if let Some(ValueLabelAssignments::Starts(labels)) = values_labels.get(
                        &target.0,
                    ) {
                        record_aliased(&mut sorted, labels, Value(*val), *from);
                    }
                }
            },
        }
        proof {
            count = count + 1;
        }
    }
    assert(entries.take(count) =~= entries);
    sorted
}

/// `l` is the label of some start listed for some value of `m`.
pub open spec fn label_listed(m: Map<u32, ValueLabelAssignments>, l: ValueLabel) -> bool {
    exists|j: u32, i: int|
        #![trigger m[j], start_label_of(m[j], i)]
        m.contains_key(j) && start_label_of(m[j], i) == Some(l)
}

/// The label of the `i`-th start of an entry, when it lists starts.
pub open spec fn start_label_of(a: ValueLabelAssignments, i: int) -> Option<ValueLabel> {
    match a {
        ValueLabelAssignments::Starts(labels) => if 0 <= i < labels@.len() {
            Some(labels@[i].label)
        } else {
            None
        },
        ValueLabelAssignments::Alias { .. } => None,
    }
}

/// What holds of every record of the index: it is keyed by a known location,
/// names a value of `m`, and a label listed in `m`.
pub open spec fn index_records_valid(
    m: Map<u32, ValueLabelAssignments>,
    index: Map<u32, (Value, ValueLabel)>,
) -> bool {
    forall|k: u32|
        #[trigger] index.contains_key(k) ==> {
            &&& k != crate::source_loc::DEFAULT_SOURCE_LOC_BITS
            &&& m.contains_key(index[k].0.0)
            &&& label_listed(m, index[k].1)
        }
}

proof fn lemma_insert_starts_valid(
    m: Map<u32, ValueLabelAssignments>,
    acc: Map<u32, (Value, ValueLabel)>,
    labels: Seq<ValueLabelStart>,
    j: u32,
    n: int,
)
    requires
        index_records_valid(m, acc),
        m.contains_key(j),
        m[j] matches ValueLabelAssignments::Starts(ls) && ls@.take(n) == labels,
        0 <= n <= m[j]->Starts_0@.len(),
    ensures
        index_records_valid(m, insert_starts(acc, labels, Value(j))),
    decreases labels.len(),
{
    if labels.len() > 0 {
        let all = m[j]->Starts_0@;
        assert(all.take(n - 1) =~= labels.drop_last());
        lemma_insert_starts_valid(m, acc, labels.drop_last(), j, n - 1);
        let l = labels.last();
        assert(start_label_of(m[j], n - 1) == Some(l.label));
        assert(label_listed(m, l.label));
    }
}

proof fn lemma_insert_aliased_valid(
    m: Map<u32, ValueLabelAssignments>,
    acc: Map<u32, (Value, ValueLabel)>,
    labels: Seq<ValueLabelStart>,
    v: u32,
    from: SourceLoc,
    j: u32,
    n: int,
)
    requires
        index_records_valid(m, acc),
        m.contains_key(v),
        !from.spec_is_default(),
        m.contains_key(j),
        m[j] matches ValueLabelAssignments::Starts(ls) && ls@.take(n) == labels,
        0 <= n <= m[j]->Starts_0@.len(),
    ensures
        index_records_valid(m, insert_aliased(acc, labels, Value(v), from)),
    decreases labels.len(),
{
    if labels.len() > 0 {
        let all = m[j]->Starts_0@;
        assert(all.take(n - 1) =~= labels.drop_last());
        lemma_insert_aliased_valid(m, acc, labels.drop_last(), v, from, j, n - 1);
        let l = labels.last();
        assert(start_label_of(m[j], n - 1) == Some(l.label));
        assert(label_listed(m, l.label));
    }
}

proof fn lemma_index_entries_valid(
    m: Map<u32, ValueLabelAssignments>,
    entries: Seq<(u32, ValueLabelAssignments)>,
)
    requires
        forall|i: int|
            0 <= i < entries.len() ==> #[trigger] m.contains_key(entries[i].0) && m[entries[i].0]
                == entries[i].1,
    ensures
        index_records_valid(m, index_entries(m, entries)),
    decreases entries.len(),
{
    if entries.len() > 0 {
        let prev = entries.drop_last();
        assert forall|i: int| 0 <= i < prev.len() implies #[trigger] m.contains_key(prev[i].0)
            && m[prev[i].0] == prev[i].1 by {
            assert(prev[i] == entries[i]);
        }
        lemma_index_entries_valid(m, prev);
        let acc = index_entries(m, prev);
        let (k, a) = entries.last();
        assert(m.contains_key(entries[entries.len() - 1].0));
        match a {
            ValueLabelAssignments::Starts(labels) => {
                assert(labels@.take(labels@.len() as int) =~= labels@);
                lemma_insert_starts_valid(m, acc, labels@, k, labels@.len() as int);
            },
            ValueLabelAssignments::Alias { from, value } => {
                if !from.spec_is_default() {
                    let target = resolve_alias(m, value.0);
                    if m.contains_key(target) {
                        if let ValueLabelAssignments::Starts(labels) = m[target] {
                            assert(labels@.take(labels@.len() as int) =~= labels@);
                            lemma_insert_aliased_valid(
                                m,
                                acc,
                                labels@,
                                k,
                                from,
                                target,
                                labels@.len() as int,
                            );
                        }
                    }
                }
            },
        }
    }
}

/// Every finite map has a sorted listing.
pub proof fn lemma_sorted_listing_exists(m: Map<u32, ValueLabelAssignments>)
    requires
        m.dom().finite(),
    ensures
        is_sorted_listing(sorted_entries(m), m),
    decreases m.dom().len(),
{
    if m.dom().len() == 0 {
        let s = Seq::<(u32, ValueLabelAssignments)>::empty();
        assert forall|k: u32| #[trigger] m.contains_key(k) implies exists|i: int|
            0 <= i < s.len() && s[i].0 == k by {
            assert(m.dom().contains(k));
        }
        assert(is_sorted_listing(s, m));
    } else {
        let leq = |a: u32, b: u32| a <= b;
        assert(vstd::relations::total_ordering(leq));
        m.dom().find_unique_maximal_ensures(leq);
        let k = m.dom().find_unique_maximal(leq);
        let rest = m.remove(k);
        assert(rest.dom() =~= m.dom().remove(k));
        lemma_sorted_listing_exists(rest);
        let r = sorted_entries(rest);
        let s = r.push((k, m[k]));
        assert forall|i: int, j: int| 0 <= i < j < s.len() implies s[i].0 < s[j].0 by {
            if j == s.len() - 1 {
                assert(rest.contains_key(r[i].0));
                assert(leq(k, r[i].0) ==> leq(r[i].0, k));
            }
        }
        assert forall|i: int| 0 <= i < s.len() implies #[trigger] m.contains_key(s[i].0) && m[s[i].0]
            == s[i].1 by {
            if i < s.len() - 1 {
                assert(rest.contains_key(r[i].0));
            }
        }
        assert forall|x: u32| #[trigger] m.contains_key(x) implies exists|i: int|
            0 <= i < s.len() && s[i].0 == x by {
            if x == k {
                assert(s[s.len() - 1].0 == x);
            } else {
                assert(rest.contains_key(x));
                let i = choose|i: int| 0 <= i < r.len() && r[i].0 == x;
                assert(s[i].0 == x);
            }
        }
        assert(is_sorted_listing(s, m));
    }
}

proof fn lemma_insert_starts_grows(
    acc: Map<u32, (Value, ValueLabel)>,
    labels: Seq<ValueLabelStart>,
    v: Value,
)
    ensures
        acc.dom().subset_of(insert_starts(acc, labels, v).dom()),
        forall|i: int|
            0 <= i < labels.len() && !(#[trigger] labels[i]).from.spec_is_default() ==> insert_starts(
                acc,
                labels,
                v,
            ).contains_key(labels[i].from.0),
    decreases labels.len(),
{
    if labels.len() > 0 {
        let prev = labels.drop_last();
        lemma_insert_starts_grows(acc, prev, v);
        assert forall|i: int|
            0 <= i < labels.len() && !(#[trigger] labels[i]).from.spec_is_default() implies insert_starts(
            acc,
            labels,
            v,
        ).contains_key(labels[i].from.0) by {
            if i < labels.len() - 1 {
                assert(prev[i] == labels[i]);
            }
        }
    }
}

proof fn lemma_insert_aliased_grows(
    acc: Map<u32, (Value, ValueLabel)>,
    labels: Seq<ValueLabelStart>,
    v: Value,
    from: SourceLoc,
)
    ensures
        acc.dom().subset_of(insert_aliased(acc, labels, v, from).dom()),
    decreases labels.len(),
{
    if labels.len() > 0 {
        lemma_insert_aliased_grows(acc, labels.drop_last(), v, from);
    }
}

proof fn lemma_index_entry_grows(
    m: Map<u32, ValueLabelAssignments>,
    acc: Map<u32, (Value, ValueLabel)>,
    k: u32,
    a: ValueLabelAssignments,
)
    ensures
        acc.dom().subset_of(index_entry(m, acc, k, a).dom()),
{
    match a {
        ValueLabelAssignments::Starts(labels) => {
            lemma_insert_starts_grows(acc, labels@, Value(k));
        },
        ValueLabelAssignments::Alias { from, value } => {
            let target = resolve_alias(m, value.0);
            if m.contains_key(target) {
                if let ValueLabelAssignments::Starts(labels) = m[target] {
                    lemma_insert_aliased_grows(acc, labels@, Value(k), from);
                }
            }
        },
    }
}

proof fn lemma_index_entries_grows(
    m: Map<u32, ValueLabelAssignments>,
    entries: Seq<(u32, ValueLabelAssignments)>,
    n: int,
)
    requires
        0 <= n <= entries.len(),
    ensures
        index_entries(m, entries.take(n)).dom().subset_of(index_entries(m, entries).dom()),
    decreases entries.len(),
{
    if n < entries.len() {
        let prev = entries.drop_last();
        assert(prev.take(n) =~= entries.take(n));
        lemma_index_entries_grows(m, prev, n);
        let last = entries.last();
        lemma_index_entry_grows(m, index_entries(m, prev), last.0, last.1);
    } else {
        assert(entries.take(n) =~= entries);
    }
}

/// The location of the `i`-th start of an entry, when it lists starts and
/// that location is known.
pub open spec fn known_start_of(a: ValueLabelAssignments, i: int) -> Option<u32> {
    match a {
        ValueLabelAssignments::Starts(labels) => if 0 <= i < labels@.len()
            && !labels@[i].from.spec_is_default() {
            Some(labels@[i].from.0)
        } else {
            None
        },
        ValueLabelAssignments::Alias { .. } => None,
    }
}

/// The starts of one value are recorded in list order: at a location `k`,
/// the last listed start at `k` (at a known location) wins; a location that
/// no listed start names keeps what it had.
pub proof fn lemma_insert_starts_last_wins(
    acc: Map<u32, (Value, ValueLabel)>,
    labels: Seq<ValueLabelStart>,
    v: Value,
    k: u32,
)
    ensures
        forall|i: int|
            #![trigger labels[i]]
            0 <= i < labels.len() && !labels[i].from.spec_is_default() && labels[i].from.0 == k
                && (forall|i2: int|
                i < i2 < labels.len() ==> labels[i2].from.spec_is_default() || labels[i2].from.0
                    != k) ==> insert_starts(acc, labels, v).contains_key(k) && insert_starts(
                acc,
                labels,
                v,
            )[k] == (v, labels[i].label),
        (forall|i: int|
            0 <= i < labels.len() ==> labels[i].from.spec_is_default() || labels[i].from.0 != k)
            ==> insert_starts(acc, labels, v).contains_key(k) == acc.contains_key(k) && (
        acc.contains_key(k) ==> insert_starts(acc, labels, v)[k] == acc[k]),
    decreases labels.len(),
{
    if labels.len() > 0 {
        let prev = labels.drop_last();
        lemma_insert_starts_last_wins(acc, prev, v, k);
        let n = labels.len() - 1;
        assert forall|i: int|
            #![trigger labels[i]]
            0 <= i < labels.len() && !labels[i].from.spec_is_default() && labels[i].from.0 == k
                && (forall|i2: int|
                i < i2 < labels.len() ==> labels[i2].from.spec_is_default() || labels[i2].from.0
                    != k) implies insert_starts(acc, labels, v).contains_key(k) && insert_starts(
            acc,
            labels,
            v,
        )[k] == (v, labels[i].label) by {
            if i < n {
                assert(prev[i] == labels[i]);
                assert(labels[n].from.spec_is_default() || labels[n].from.0 != k);
                assert forall|i2: int| i < i2 < prev.len() implies prev[i2].from.spec_is_default()
                    || prev[i2].from.0 != k by {
                    assert(prev[i2] == labels[i2]);
                }
            }
        }
        if forall|i: int|
            0 <= i < labels.len() ==> labels[i].from.spec_is_default() || labels[i].from.0 != k {
            assert forall|i: int| 0 <= i < prev.len() implies prev[i].from.spec_is_default()
                || prev[i].from.0 != k by {
                assert(prev[i] == labels[i]);
            }
            assert(labels[n].from.spec_is_default() || labels[n].from.0 != k);
        }
    }
}

/// The aliased starts are recorded in list order: each at the alias's own
/// start when the aliased start is unknown, else at the later of the two;
/// at a location `k`, the last listed start recorded at `k` wins, and a
/// location none is recorded at keeps what it had.
pub proof fn lemma_insert_aliased_last_wins(
    acc: Map<u32, (Value, ValueLabel)>,
    labels: Seq<ValueLabelStart>,
    v: Value,
    from: SourceLoc,
    k: u32,
)
    ensures
        forall|i: int|
            #![trigger labels[i]]
            0 <= i < labels.len() && recorded_at(from, labels[i].from) == k && (forall|i2: int|
                i < i2 < labels.len() ==> recorded_at(from, labels[i2].from) != k)
                ==> insert_aliased(acc, labels, v, from).contains_key(k) && insert_aliased(
                acc,
                labels,
                v,
                from,
            )[k] == (v, labels[i].label),
        (forall|i: int| 0 <= i < labels.len() ==> recorded_at(from, labels[i].from) != k)
            ==> insert_aliased(acc, labels, v, from).contains_key(k) == acc.contains_key(k) && (
        acc.contains_key(k) ==> insert_aliased(acc, labels, v, from)[k] == acc[k]),
    decreases labels.len(),
{
    if labels.len() > 0 {
        let prev = labels.drop_last();
        lemma_insert_aliased_last_wins(acc, prev, v, from, k);
        let n = labels.len() - 1;
        assert forall|i: int|
            #![trigger labels[i]]
            0 <= i < labels.len() && recorded_at(from, labels[i].from) == k && (forall|i2: int|
                i < i2 < labels.len() ==> recorded_at(from, labels[i2].from) != k) implies insert_aliased(
            acc,
            labels,
            v,
            from,
        ).contains_key(k) && insert_aliased(acc, labels, v, from)[k] == (v, labels[i].label) by {
            if i < n {
                assert(prev[i] == labels[i]);
                assert(recorded_at(from, labels[n].from) != k);
                assert forall|i2: int| i < i2 < prev.len() implies recorded_at(from, prev[i2].from)
                    != k by {
                    assert(prev[i2] == labels[i2]);
                }
            }
        }
        if forall|i: int| 0 <= i < labels.len() ==> recorded_at(from, labels[i].from) != k {
            assert forall|i: int| 0 <= i < prev.len() implies recorded_at(from, prev[i].from)
                != k by {
                assert(prev[i] == labels[i]);
            }
            assert(recorded_at(from, labels[n].from) != k);
        }
    }
}

/// The location at which an aliased start is recorded for an alias starting
/// at `from`: `from` itself when the aliased start is unknown, else
/// whichever of the two locations has the larger bits.
pub open spec fn recorded_at(from: SourceLoc, label_from: SourceLoc) -> u32 {
    if label_from.0 == crate::source_loc::DEFAULT_SOURCE_LOC_BITS || label_from.0 <= from.0 {
        from.0
    } else {
        label_from.0
    }
}

/// For a map holding one value `j` with listed starts, the index records at
/// each location `k` named by a start at a known location the label of the
/// last such start, paired with `j`, and records nothing elsewhere.
pub proof fn lemma_index_single_value(j: u32, a: ValueLabelAssignments)
    requires
        a is Starts,
    ensures
        ({
            let labels = a->Starts_0@;
            let index = value_labels_index(Some(map![j => a]));
            &&& forall|i: int|
                #![trigger labels[i]]
                0 <= i < labels.len() && !labels[i].from.spec_is_default() && (forall|i2: int|
                    i < i2 < labels.len() ==> labels[i2].from.spec_is_default() || labels[i2].from.0
                        != labels[i].from.0) ==> index.contains_key(labels[i].from.0)
                    && index[labels[i].from.0] == (Value(j), labels[i].label)
            &&& forall|k: u32|
                #[trigger] index.contains_key(k) ==> exists|i: int|
                    0 <= i < labels.len() && !labels[i].from.spec_is_default() && labels[i].from.0
                        == k
        }),
{
    let m = map![j => a];
    let s = seq![(j, a)];
    assert(is_sorted_listing(s, m)) by {
        assert forall|k: u32| #[trigger] m.contains_key(k) implies exists|i: int|
            0 <= i < s.len() && s[i].0 == k by {
            assert(s[0].0 == k);
        }
    }
    assert(is_sorted_listing(sorted_entries(m), m));
    lemma_sorted_listing_unique(s, sorted_entries(m), m);
    let labels = a->Starts_0@;
    assert(s.drop_last() =~= Seq::<(u32, ValueLabelAssignments)>::empty());
    let empty = Map::<u32, (Value, ValueLabel)>::empty();
    assert(sorted_entries(m) == s);
    assert(index_entries(m, s.drop_last()) == empty);
    assert(s.last() == (j, a));
    assert(index_entries(m, s) == index_entry(m, empty, j, a));
    assert(value_labels_index(Some(m)) == insert_starts(empty, labels, Value(j)));
    assert forall|i: int|
        #![trigger labels[i]]
        0 <= i < labels.len() && !labels[i].from.spec_is_default() && (forall|i2: int|
            i < i2 < labels.len() ==> labels[i2].from.spec_is_default() || labels[i2].from.0
                != labels[i].from.0) implies value_labels_index(Some(m)).contains_key(
        labels[i].from.0,
    ) && value_labels_index(Some(m))[labels[i].from.0] == (Value(j), labels[i].label) by {
        lemma_insert_starts_last_wins(empty, labels, Value(j), labels[i].from.0);
    }
    assert forall|k: u32| #[trigger] value_labels_index(Some(m)).contains_key(k) implies exists|
        i: int,
    | 0 <= i < labels.len() && !labels[i].from.spec_is_default() && labels[i].from.0 == k by {
        lemma_insert_starts_last_wins(empty, labels, Value(j), k);
    }
}

/// Whether an entry lists a start at the known location `k`.
pub open spec fn lists_start_at(a: ValueLabelAssignments, k: u32) -> bool {
    match a {
        ValueLabelAssignments::Starts(labels) => exists|i: int|
            0 <= i < labels@.len() && !labels@[i].from.spec_is_default() && labels@[i].from.0 == k,
        ValueLabelAssignments::Alias { .. } => false,
    }
}

/// `labels[i]` is the last start at the known location `k` in `labels`.
pub open spec fn last_start_at(labels: Seq<ValueLabelStart>, i: int, k: u32) -> bool {
    &&& 0 <= i < labels.len()
    &&& !labels[i].from.spec_is_default()
    &&& labels[i].from.0 == k
    &&& forall|i2: int|
        i < i2 < labels.len() ==> labels[i2].from.spec_is_default() || labels[i2].from.0 != k
}

proof fn lemma_entries_starts_only(
    m: Map<u32, ValueLabelAssignments>,
    e: Seq<(u32, ValueLabelAssignments)>,
    k: u32,
)
    requires
        forall|p: int| 0 <= p < e.len() ==> (#[trigger] e[p]).1 is Starts,
    ensures
        forall|p: int, i: int|
            #![trigger e[p], last_start_at(e[p].1->Starts_0@, i, k)]
            0 <= p < e.len() && last_start_at(e[p].1->Starts_0@, i, k) && (forall|p2: int|
                p < p2 < e.len() ==> !lists_start_at(e[p2].1, k)) ==> index_entries(
                m,
                e,
            ).contains_key(k) && index_entries(m, e)[k] == (Value(e[p].0), e[p].1->Starts_0@[i].label),
        (forall|p: int| 0 <= p < e.len() ==> !lists_start_at(#[trigger] e[p].1, k))
            ==> !index_entries(m, e).contains_key(k),
    decreases e.len(),
{
    if e.len() > 0 {
        let prev = e.drop_last();
        assert forall|p: int| 0 <= p < prev.len() implies (#[trigger] prev[p]).1 is Starts by {
            assert(prev[p] == e[p]);
        }
        lemma_entries_starts_only(m, prev, k);
        let n = e.len() - 1;
        let last = e[n];
        let labels = last.1->Starts_0@;
        let acc = index_entries(m, prev);
        assert(index_entries(m, e) == insert_starts(acc, labels, Value(last.0)));
        lemma_insert_starts_last_wins(acc, labels, Value(last.0), k);
        assert forall|p: int, i: int|
            #![trigger e[p], last_start_at(e[p].1->Starts_0@, i, k)]
            0 <= p < e.len() && last_start_at(e[p].1->Starts_0@, i, k) && (forall|p2: int|
                p < p2 < e.len() ==> !lists_start_at(e[p2].1, k)) implies index_entries(
            m,
            e,
        ).contains_key(k) && index_entries(m, e)[k] == (Value(e[p].0), e[p].1->Starts_0@[i].label) by {
            if p < n {
                assert(!lists_start_at(e[n].1, k));
                assert forall|i3: int| 0 <= i3 < labels.len() implies labels[i3].from.spec_is_default()
                    || labels[i3].from.0 != k by {
                    if !labels[i3].from.spec_is_default() && labels[i3].from.0 == k {
                        assert(lists_start_at(e[n].1, k));
                    }
                }
                assert(prev[p] == e[p]);
                assert forall|p2: int| p < p2 < prev.len() implies !lists_start_at(prev[p2].1, k) by {
                    assert(prev[p2] == e[p2]);
                }
                assert(last_start_at(prev[p].1->Starts_0@, i, k));
            } else {
                assert(labels[i] == labels[i]);
            }
        }
        if forall|p: int| 0 <= p < e.len() ==> !lists_start_at(#[trigger] e[p].1, k) {
            assert forall|p: int| 0 <= p < prev.len() implies !lists_start_at(#[trigger] prev[p].1, k) by {
                assert(prev[p] == e[p]);
            }
            assert(!lists_start_at(e[n].1, k));
            assert forall|i3: int| 0 <= i3 < labels.len() implies labels[i3].from.spec_is_default()
                || labels[i3].from.0 != k by {
                if !labels[i3].from.spec_is_default() && labels[i3].from.0 == k {
                    assert(lists_start_at(e[n].1, k));
                }
            }
        }
    }
}

/// For values that only list starts, the record at a location `k` belongs
/// to the largest value that lists a start at `k`, with the label of that
/// value's last start at `k`; a location no value lists a start at has no
/// record.
pub proof fn lemma_index_starts_only(m: Map<u32, ValueLabelAssignments>, k: u32)
    requires
        m.dom().finite(),
        forall|j: u32| #[trigger] m.contains_key(j) ==> m[j] is Starts,
    ensures
        forall|j: u32, i: int|
            #![trigger m[j], last_start_at(m[j]->Starts_0@, i, k)]
            m.contains_key(j) && last_start_at(m[j]->Starts_0@, i, k) && (forall|j2: u32|
                #[trigger] m.contains_key(j2) && j < j2 ==> !lists_start_at(m[j2], k))
                ==> value_labels_index(Some(m)).contains_key(k) && value_labels_index(Some(m))[k]
                == (Value(j), m[j]->Starts_0@[i].label),
        (forall|j: u32| #[trigger] m.contains_key(j) ==> !lists_start_at(m[j], k))
            ==> !value_labels_index(Some(m)).contains_key(k),
{
    lemma_sorted_listing_exists(m);
    let s = sorted_entries(m);
    assert forall|p: int| 0 <= p < s.len() implies (#[trigger] s[p]).1 is Starts by {
        assert(m.contains_key(s[p].0));
    }
    lemma_entries_starts_only(m, s, k);
    assert forall|j: u32, i: int|
        #![trigger m[j], last_start_at(m[j]->Starts_0@, i, k)]
        m.contains_key(j) && last_start_at(m[j]->Starts_0@, i, k) && (forall|j2: u32|
            #[trigger] m.contains_key(j2) && j < j2 ==> !lists_start_at(m[j2], k)) implies value_labels_index(
        Some(m),
    ).contains_key(k) && value_labels_index(Some(m))[k] == (Value(j), m[j]->Starts_0@[i].label) by {
        let p = choose|p: int| 0 <= p < s.len() && s[p].0 == j;
        assert(m.contains_key(s[p].0));
        assert forall|p2: int| p < p2 < s.len() implies !lists_start_at(s[p2].1, k) by {
            assert(m.contains_key(s[p2].0));
            assert(j < s[p2].0);
        }
        assert(last_start_at(s[p].1->Starts_0@, i, k));
    }
    if forall|j: u32| #[trigger] m.contains_key(j) ==> !lists_start_at(m[j], k) {
        assert forall|p: int| 0 <= p < s.len() implies !lists_start_at(#[trigger] s[p].1, k) by {
            assert(m.contains_key(s[p].0));
        }
    }
}

/// When the largest value `v` of the map is an alias starting at a known
/// location, whose chain ends at a value that lists starts `ls`: at the
/// location where the last of `ls` recorded at `k` takes effect, the index
/// records `v` (the aliasing value, not the aliased one) with that start's
/// label.
pub proof fn lemma_index_last_alias(m: Map<u32, ValueLabelAssignments>, v: u32, k: u32)
    requires
        m.dom().finite(),
        m.contains_key(v),
        forall|j: u32| #[trigger] m.contains_key(j) ==> j <= v,
        m[v] matches ValueLabelAssignments::Alias { from, value } && !from.spec_is_default()
            && alias_chain_ends(m, value.0),
    ensures
        ({
            let from = m[v]->from;
            let target = resolve_alias(m, m[v]->value.0);
            m.contains_key(target) && m[target] is Starts ==> {
                let ls = m[target]->Starts_0@;
                forall|i: int|
                    #![trigger ls[i]]
                    0 <= i < ls.len() && recorded_at(from, ls[i].from) == k && (forall|i2: int|
                        i < i2 < ls.len() ==> recorded_at(from, ls[i2].from) != k)
                        ==> value_labels_index(Some(m)).contains_key(k) && value_labels_index(
                        Some(m),
                    )[k] == (Value(v), ls[i].label)
            }
        }),
{
    lemma_sorted_listing_exists(m);
    let s = sorted_entries(m);
    let p = choose|p: int| 0 <= p < s.len() && s[p].0 == v;
    let n = s.len() - 1;
    if p < n {
        assert(m.contains_key(s[n].0));
        assert(s[p].0 < s[n].0);
        assert(false);
    }
    assert(m.contains_key(s[n].0));
    assert(s.last() == (v, m[v]));
    let from = m[v]->from;
    let target = resolve_alias(m, m[v]->value.0);
    if m.contains_key(target) && m[target] is Starts {
        let ls = m[target]->Starts_0@;
        let acc = index_entries(m, s.drop_last());
        assert(value_labels_index(Some(m)) == insert_aliased(acc, ls, Value(v), from));
        lemma_insert_aliased_last_wins(acc, ls, Value(v), from, k);
        assert forall|i: int| 0 <= i < ls.len() implies recorded_at(from, ls[i].from)
            == aliased_start(from, ls[i].from) by {
        }
    }
}

/// Every label start at a known location of a value with listed starts has
/// a record at that location in the index (a later start at the same
/// location may have replaced it).
pub proof fn lemma_index_covers_starts(values_labels: Map<u32, ValueLabelAssignments>)
    requires
        values_labels.dom().finite(),
    ensures
        forall|j: u32, i: int|
            #![trigger known_start_of(values_labels[j], i)]
            values_labels.contains_key(j) && known_start_of(values_labels[j], i) is Some
                ==> value_labels_index(Some(values_labels)).contains_key(
                known_start_of(values_labels[j], i)->0,
            ),
{
    let m = values_labels;
    lemma_sorted_listing_exists(m);
    let s = sorted_entries(m);
    assert forall|j: u32, i: int|
        #![trigger known_start_of(m[j], i)]
        m.contains_key(j) && known_start_of(m[j], i) is Some implies value_labels_index(
        Some(m),
    ).contains_key(known_start_of(m[j], i)->0) by {
        let labels = m[j]->Starts_0@;
        let p = choose|p: int| 0 <= p < s.len() && s[p].0 == j;
        assert(m.contains_key(s[p].0));
        let upto = s.take(p + 1);
        assert(upto.drop_last() =~= s.take(p));
        assert(upto.last() == s[p]);
        lemma_insert_starts_grows(index_entries(m, s.take(p)), labels, Value(j));
        assert(labels[i] == labels[i]);
        lemma_index_entries_grows(m, s, p + 1);
    }
}

/// Every record of the index is keyed by a known (non-default) location and
/// pairs a value that has an entry with a label that some entry lists.
pub proof fn lemma_index_records_valid(values_labels: Map<u32, ValueLabelAssignments>)
    requires
        values_labels.dom().finite(),
    ensures
        index_records_valid(values_labels, value_labels_index(Some(values_labels))),
{
    lemma_sorted_listing_exists(values_labels);
    let s = sorted_entries(values_labels);
    lemma_index_entries_valid(values_labels, s);
}

} // verus!
