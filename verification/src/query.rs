//! The entity query layer: `count` and `get` over every entity kind.
//!
//! `get` returns the matching entities ordered by the filter's order
//! field (ties broken by ascending id), reversed when descending, and cut
//! to the filter's limit.  `count` returns the number of matching
//! entities and ignores ordering and limit.  Both are pure reads of the
//! snapshot, so each result is a function of store and filter alone.

use vstd::prelude::*;

use crate::entity::{Artifact, Context, Event, Execution, TypeRecord};
use crate::filter::{
    artifact_matches, context_matches, event_matches, execution_matches, eval_artifact,
    eval_context, eval_event, eval_execution, eval_type_record, type_record_matches, EntityFilter,
    EventFilter, OrderField, TypeFilter,
};
use crate::order::{
    apply_limit, directed, limited, payloads, reverse_vec, sort_keyed, sort_keyed_spec,
    lemma_sort_keyed_len,
};
use crate::store::Store;

verus! {

/// The field of `a` that the order field selects.
pub open spec fn artifact_sort_key(a: Artifact, ord: OrderField) -> u64 {
    match ord {
        OrderField::Id => a.id,
        OrderField::CreateTime => a.create_time,
        OrderField::UpdateTime => a.update_time,
    }
}

/// The field of `e` that the order field selects.
pub open spec fn execution_sort_key(e: Execution, ord: OrderField) -> u64 {
    match ord {
        OrderField::Id => e.id,
        OrderField::CreateTime => e.create_time,
        OrderField::UpdateTime => e.update_time,
    }
}

/// The field of `c` that the order field selects.
pub open spec fn context_sort_key(c: Context, ord: OrderField) -> u64 {
    match ord {
        OrderField::Id => c.id,
        OrderField::CreateTime => c.create_time,
        OrderField::UpdateTime => c.update_time,
    }
}

/// One `(sort key, id, artifact)` triple per artifact of `list` that the
/// filter matches, in store order.
pub open spec fn keyed_artifacts(s: Store, f: EntityFilter, list: Seq<Artifact>) -> Seq<
    (u64, u64, Artifact),
>
    decreases list.len(),
{
    if list.len() == 0 {
        Seq::empty()
    } else {
        keyed_artifacts(s, f, list.drop_last()) + if artifact_matches(s, f, list.last()) {
            seq![(artifact_sort_key(list.last(), f.order_by), list.last().id, list.last())]
        } else {
            Seq::empty()
        }
    }
}

/// One triple per matching execution of `list`, in store order.
pub open spec fn keyed_executions(s: Store, f: EntityFilter, list: Seq<Execution>) -> Seq<
    (u64, u64, Execution),
>
    decreases list.len(),
{
    if list.len() == 0 {
        Seq::empty()
    } else {
        keyed_executions(s, f, list.drop_last()) + if execution_matches(s, f, list.last()) {
            seq![(execution_sort_key(list.last(), f.order_by), list.last().id, list.last())]
        } else {
            Seq::empty()
        }
    }
}

/// One triple per matching context of `list`, in store order.
pub open spec fn keyed_contexts(s: Store, f: EntityFilter, list: Seq<Context>) -> Seq<
    (u64, u64, Context),
>
    decreases list.len(),
{
    if list.len() == 0 {
        Seq::empty()
    } else {
        keyed_contexts(s, f, list.drop_last()) + if context_matches(s, f, list.last()) {
            seq![(context_sort_key(list.last(), f.order_by), list.last().id, list.last())]
        } else {
            Seq::empty()
        }
    }
}

/// One triple per matching type record of `list`, in registry order;
/// type records are ordered by id alone.
pub open spec fn keyed_type_records(f: TypeFilter, list: Seq<TypeRecord>) -> Seq<
    (u64, u64, TypeRecord),
>
    decreases list.len(),
{
    if list.len() == 0 {
        Seq::empty()
    } else {
        keyed_type_records(f, list.drop_last()) + if type_record_matches(f, list.last()) {
            seq![(list.last().id, list.last().id, list.last())]
        } else {
            Seq::empty()
        }
    }
}

/// One triple per matching event of `list`, in log order; events are
/// ordered by timestamp, ties broken by ascending artifact id.
pub open spec fn keyed_events(f: EventFilter, list: Seq<Event>) -> Seq<(u64, u64, Event)>
    decreases list.len(),
{
    if list.len() == 0 {
        Seq::empty()
    } else {
        keyed_events(f, list.drop_last()) + if event_matches(f, list.last()) {
            seq![(list.last().timestamp, list.last().artifact_id, list.last())]
        } else {
            Seq::empty()
        }
    }
}

/// The ordered, direction-adjusted, limit-cut selection of matching
/// artifacts that `get_artifacts` returns.
pub open spec fn get_artifacts_spec(s: Store, f: EntityFilter) -> Seq<Artifact> {
    limited(
        directed(sort_keyed_spec(keyed_artifacts(s, f, s.artifacts@)), f.is_asc),
        f.limit,
    ).map_values(|t: (u64, u64, Artifact)| t.2)
}

/// The ordered selection of matching executions that `get_executions`
/// returns.
pub open spec fn get_executions_spec(s: Store, f: EntityFilter) -> Seq<Execution> {
    limited(
        directed(sort_keyed_spec(keyed_executions(s, f, s.executions@)), f.is_asc),
        f.limit,
    ).map_values(|t: (u64, u64, Execution)| t.2)
}

/// The ordered selection of matching contexts that `get_contexts` returns.
pub open spec fn get_contexts_spec(s: Store, f: EntityFilter) -> Seq<Context> {
    limited(
        directed(sort_keyed_spec(keyed_contexts(s, f, s.contexts@)), f.is_asc),
        f.limit,
    ).map_values(|t: (u64, u64, Context)| t.2)
}

/// The ordered selection of matching type records that the type `get`
/// operations return for the registry `list`.
pub open spec fn get_type_records_spec(list: Seq<TypeRecord>, f: TypeFilter) -> Seq<TypeRecord> {
    limited(directed(sort_keyed_spec(keyed_type_records(f, list)), f.is_asc), f.limit).map_values(
        |t: (u64, u64, TypeRecord)| t.2,
    )
}

/// The ordered selection of matching events that `get_events` returns.
pub open spec fn get_events_spec(s: Store, f: EventFilter) -> Seq<Event> {
    limited(directed(sort_keyed_spec(keyed_events(f, s.events@)), f.is_asc), f.limit).map_values(
        |t: (u64, u64, Event)| t.2,
    )
}

fn artifact_key(a: &Artifact, ord: OrderField) -> (res: u64)
    ensures
        res == artifact_sort_key(*a, ord),
{
    match ord {
        OrderField::Id => a.id,
        OrderField::CreateTime => a.create_time,
        OrderField::UpdateTime => a.update_time,
    }
}

fn execution_key(e: &Execution, ord: OrderField) -> (res: u64)
    ensures
        res == execution_sort_key(*e, ord),
{
    match ord {
        OrderField::Id => e.id,
        OrderField::CreateTime => e.create_time,
        OrderField::UpdateTime => e.update_time,
    }
}

fn context_key(c: &Context, ord: OrderField) -> (res: u64)
    ensures
        res == context_sort_key(*c, ord),
{
    match ord {
        OrderField::Id => c.id,
        OrderField::CreateTime => c.create_time,
        OrderField::UpdateTime => c.update_time,
    }
}

/// Counts the artifacts the filter matches, ignoring order and limit.
pub fn count_artifacts(s: &Store, f: &EntityFilter) -> (res: usize)
    ensures
        res == keyed_artifacts(*s, *f, s.artifacts@).len(),
{
    let mut res: usize = 0;
    let mut i: usize = 0;
    while i < s.artifacts.len()
        invariant
            i <= s.artifacts@.len(),
            res <= i,
            res == keyed_artifacts(*s, *f, s.artifacts@.take(i as int)).len(),
        decreases s.artifacts@.len() - i,
    {
        proof {
            assert(s.artifacts@.take(i + 1).drop_last() =~= s.artifacts@.take(i as int));
        }
        if eval_artifact(s, f, &s.artifacts[i]) {
            res = res + 1;
        }
        i = i + 1;
    }
    proof {
        assert(s.artifacts@.take(s.artifacts@.len() as int) =~= s.artifacts@);
    }
    res
}

/// Returns the matching artifacts in the filter's order, cut to its
/// limit, exactly as `get_artifacts_spec` describes.
pub fn get_artifacts(s: &Store, f: &EntityFilter) -> (res: Vec<Artifact>)
    ensures
        res@ == get_artifacts_spec(*s, *f),
{
    let mut keyed: Vec<(u64, u64, Artifact)> = Vec::new();
    let mut i: usize = 0;
    while i < s.artifacts.len()
        invariant
            i <= s.artifacts@.len(),
            keyed@ == keyed_artifacts(*s, *f, s.artifacts@.take(i as int)),
        decreases s.artifacts@.len() - i,
    {
        proof {
            assert(s.artifacts@.take(i + 1).drop_last() =~= s.artifacts@.take(i as int));
        }
        let a = &s.artifacts[i];
        if eval_artifact(s, f, a) {
            let key = artifact_key(a, f.order_by);
            keyed.push((key, a.id, a.clone()));
        }
        proof {
            assert(keyed@ =~= keyed_artifacts(*s, *f, s.artifacts@.take(i + 1)));
        }
        i = i + 1;
    }
    proof {
        assert(s.artifacts@.take(s.artifacts@.len() as int) =~= s.artifacts@);
    }
    let sorted = sort_keyed(keyed);
    let ordered = if f.is_asc {
        sorted
    } else {
        reverse_vec(sorted)
    };
    let cut = apply_limit(ordered, &f.limit);
    payloads(cut)
}

/// Counts the executions the filter matches, ignoring order and limit.
pub fn count_executions(s: &Store, f: &EntityFilter) -> (res: usize)
    ensures
        res == keyed_executions(*s, *f, s.executions@).len(),
{
    let mut res: usize = 0;
    let mut i: usize = 0;
    while i < s.executions.len()
        invariant
            i <= s.executions@.len(),
            res <= i,
            res == keyed_executions(*s, *f, s.executions@.take(i as int)).len(),
        decreases s.executions@.len() - i,
    {
        proof {
            assert(s.executions@.take(i + 1).drop_last() =~= s.executions@.take(i as int));
        }
        if eval_execution(s, f, &s.executions[i]) {
            res = res + 1;
        }
        i = i + 1;
    }
    proof {
        assert(s.executions@.take(s.executions@.len() as int) =~= s.executions@);
    }
    res
}

/// Returns the matching executions in the filter's order, cut to its
/// limit, exactly as `get_executions_spec` describes.
pub fn get_executions(s: &Store, f: &EntityFilter) -> (res: Vec<Execution>)
    ensures
        res@ == get_executions_spec(*s, *f),
{
    let mut keyed: Vec<(u64, u64, Execution)> = Vec::new();
    let mut i: usize = 0;
    while i < s.executions.len()
        invariant
            i <= s.executions@.len(),
            keyed@ == keyed_executions(*s, *f, s.executions@.take(i as int)),
        decreases s.executions@.len() - i,
    {
        proof {
            assert(s.executions@.take(i + 1).drop_last() =~= s.executions@.take(i as int));
        }
        let e = &s.executions[i];
        if eval_execution(s, f, e) {
            let key = execution_key(e, f.order_by);
            keyed.push((key, e.id, e.clone()));
        }
        proof {
            assert(keyed@ =~= keyed_executions(*s, *f, s.executions@.take(i + 1)));
        }
        i = i + 1;
    }
    proof {
        assert(s.executions@.take(s.executions@.len() as int) =~= s.executions@);
    }
    let sorted = sort_keyed(keyed);
    let ordered = if f.is_asc {
        sorted
    } else {
        reverse_vec(sorted)
    };
    let cut = apply_limit(ordered, &f.limit);
    payloads(cut)
}

/// Counts the contexts the filter matches, ignoring order and limit.
pub fn count_contexts(s: &Store, f: &EntityFilter) -> (res: usize)
    ensures
        res == keyed_contexts(*s, *f, s.contexts@).len(),
{
    let mut res: usize = 0;
    let mut i: usize = 0;
    while i < s.contexts.len()
        invariant
            i <= s.contexts@.len(),
            res <= i,
            res == keyed_contexts(*s, *f, s.contexts@.take(i as int)).len(),
        decreases s.contexts@.len() - i,
    {
        proof {
            assert(s.contexts@.take(i + 1).drop_last() =~= s.contexts@.take(i as int));
        }
        if eval_context(s, f, &s.contexts[i]) {
            res = res + 1;
        }
        i = i + 1;
    }
    proof {
        assert(s.contexts@.take(s.contexts@.len() as int) =~= s.contexts@);
    }
    res
}

/// Returns the matching contexts in the filter's order, cut to its
/// limit, exactly as `get_contexts_spec` describes.
pub fn get_contexts(s: &Store, f: &EntityFilter) -> (res: Vec<Context>)
    ensures
        res@ == get_contexts_spec(*s, *f),
{
    let mut keyed: Vec<(u64, u64, Context)> = Vec::new();
    let mut i: usize = 0;
    while i < s.contexts.len()
        invariant
            i <= s.contexts@.len(),
            keyed@ == keyed_contexts(*s, *f, s.contexts@.take(i as int)),
        decreases s.contexts@.len() - i,
    {
        proof {
            assert(s.contexts@.take(i + 1).drop_last() =~= s.contexts@.take(i as int));
        }
        let c = &s.contexts[i];
        if eval_context(s, f, c) {
            let key = context_key(c, f.order_by);
            keyed.push((key, c.id, c.clone()));
        }
        proof {
            assert(keyed@ =~= keyed_contexts(*s, *f, s.contexts@.take(i + 1)));
        }
        i = i + 1;
    }
    proof {
        assert(s.contexts@.take(s.contexts@.len() as int) =~= s.contexts@);
    }
    let sorted = sort_keyed(keyed);
    let ordered = if f.is_asc {
        sorted
    } else {
        reverse_vec(sorted)
    };
    let cut = apply_limit(ordered, &f.limit);
    payloads(cut)
}

fn count_type_records(list: &Vec<TypeRecord>, f: &TypeFilter) -> (res: usize)
    ensures
        res == keyed_type_records(*f, list@).len(),
{
    let mut res: usize = 0;
    let mut i: usize = 0;
    while i < list.len()
        invariant
            i <= list@.len(),
            res <= i,
            res == keyed_type_records(*f, list@.take(i as int)).len(),
        decreases list@.len() - i,
    {
        proof {
            assert(list@.take(i + 1).drop_last() =~= list@.take(i as int));
        }
        if eval_type_record(f, &list[i]) {
            res = res + 1;
        }
        i = i + 1;
    }
    proof {
        assert(list@.take(list@.len() as int) =~= list@);
    }
    res
}

fn get_type_records(list: &Vec<TypeRecord>, f: &TypeFilter) -> (res: Vec<TypeRecord>)
    ensures
        res@ == get_type_records_spec(list@, *f),
{
    let mut keyed: Vec<(u64, u64, TypeRecord)> = Vec::new();
    let mut i: usize = 0;
    while i < list.len()
        invariant
            i <= list@.len(),
            keyed@ == keyed_type_records(*f, list@.take(i as int)),
        decreases list@.len() - i,
    {
        proof {
            assert(list@.take(i + 1).drop_last() =~= list@.take(i as int));
        }
        let t = &list[i];
        if eval_type_record(f, t) {
            keyed.push((t.id, t.id, t.clone()));
        }
        proof {
            assert(keyed@ =~= keyed_type_records(*f, list@.take(i + 1)));
        }
        i = i + 1;
    }
    proof {
        assert(list@.take(list@.len() as int) =~= list@);
    }
    let sorted = sort_keyed(keyed);
    let ordered = if f.is_asc {
        sorted
    } else {
        reverse_vec(sorted)
    };
    let cut = apply_limit(ordered, &f.limit);
    payloads(cut)
}

/// Counts the matching artifact types.
pub fn count_artifact_types(s: &Store, f: &TypeFilter) -> (res: usize)
    ensures
        res == keyed_type_records(*f, s.artifact_types@).len(),
{
    count_type_records(&s.artifact_types, f)
}

/// Returns the matching artifact types ordered by id.
pub fn get_artifact_types(s: &Store, f: &TypeFilter) -> (res: Vec<TypeRecord>)
    ensures
        res@ == get_type_records_spec(s.artifact_types@, *f),
{
    get_type_records(&s.artifact_types, f)
}

/// Counts the matching execution types.
pub fn count_execution_types(s: &Store, f: &TypeFilter) -> (res: usize)
    ensures
        res == keyed_type_records(*f, s.execution_types@).len(),
{
    count_type_records(&s.execution_types, f)
}

/// Returns the matching execution types ordered by id.
pub fn get_execution_types(s: &Store, f: &TypeFilter) -> (res: Vec<TypeRecord>)
    ensures
        res@ == get_type_records_spec(s.execution_types@, *f),
{
    get_type_records(&s.execution_types, f)
}

/// Counts the matching context types.
pub fn count_context_types(s: &Store, f: &TypeFilter) -> (res: usize)
    ensures
        res == keyed_type_records(*f, s.context_types@).len(),
{
    count_type_records(&s.context_types, f)
}

/// Returns the matching context types ordered by id.
pub fn get_context_types(s: &Store, f: &TypeFilter) -> (res: Vec<TypeRecord>)
    ensures
        res@ == get_type_records_spec(s.context_types@, *f),
{
    get_type_records(&s.context_types, f)
}

/// Counts the events the filter matches, ignoring order and limit.
pub fn count_events(s: &Store, f: &EventFilter) -> (res: usize)
    ensures
        res == keyed_events(*f, s.events@).len(),
{
    let mut res: usize = 0;
    let mut i: usize = 0;
    while i < s.events.len()
        invariant
            i <= s.events@.len(),
            res <= i,
            res == keyed_events(*f, s.events@.take(i as int)).len(),
        decreases s.events@.len() - i,
    {
        proof {
            assert(s.events@.take(i + 1).drop_last() =~= s.events@.take(i as int));
        }
        if eval_event(f, &s.events[i]) {
            res = res + 1;
        }
        i = i + 1;
    }
    proof {
        assert(s.events@.take(s.events@.len() as int) =~= s.events@);
    }
    res
}

/// Returns the matching events ordered by timestamp (ties by artifact
/// id), cut to the filter's limit.
pub fn get_events(s: &Store, f: &EventFilter) -> (res: Vec<Event>)
    ensures
        res@ == get_events_spec(*s, *f),
{
    let mut keyed: Vec<(u64, u64, Event)> = Vec::new();
    let mut i: usize = 0;
    while i < s.events.len()
        invariant
            i <= s.events@.len(),
            keyed@ == keyed_events(*f, s.events@.take(i as int)),
        decreases s.events@.len() - i,
    {
        proof {
            assert(s.events@.take(i + 1).drop_last() =~= s.events@.take(i as int));
        }
        let e = s.events[i];
        if eval_event(f, &e) {
            keyed.push((e.timestamp, e.artifact_id, e));
        }
        proof {
            assert(keyed@ =~= keyed_events(*f, s.events@.take(i + 1)));
        }
        i = i + 1;
    }
    proof {
        assert(s.events@.take(s.events@.len() as int) =~= s.events@);
    }
    let sorted = sort_keyed(keyed);
    let ordered = if f.is_asc {
        sorted
    } else {
        reverse_vec(sorted)
    };
    let cut = apply_limit(ordered, &f.limit);
    payloads(cut)
}

/// How the order field ranks two artifacts: by the selected field, ties
/// by ascending id.
pub open spec fn artifact_order_le(a: Artifact, b: Artifact, ord: OrderField) -> bool {
    ||| artifact_sort_key(a, ord) < artifact_sort_key(b, ord)
    ||| (artifact_sort_key(a, ord) == artifact_sort_key(b, ord) && a.id <= b.id)
}

proof fn lemma_keyed_artifacts_wellkeyed(s: Store, f: EntityFilter, list: Seq<Artifact>)
    ensures
        forall|k: int|
            0 <= k < keyed_artifacts(s, f, list).len() ==> {
                &&& (#[trigger] keyed_artifacts(s, f, list)[k]).0 == artifact_sort_key(
                    keyed_artifacts(s, f, list)[k].2,
                    f.order_by,
                )
                &&& keyed_artifacts(s, f, list)[k].1 == keyed_artifacts(s, f, list)[k].2.id
            },
    decreases list.len(),
{
    if list.len() != 0 {
        lemma_keyed_artifacts_wellkeyed(s, f, list.drop_last());
    }
}

/// What `get_artifacts` returns is ordered: ascending in the filter's
/// order field with ties ascending in id, or exactly reversed when the
/// filter asks for descending order.
pub proof fn lemma_get_artifacts_ordered(s: Store, f: EntityFilter)
    ensures
        f.is_asc ==> forall|i: int, j: int|
            0 <= i < j < get_artifacts_spec(s, f).len() ==> artifact_order_le(
                #[trigger] get_artifacts_spec(s, f)[i],
                #[trigger] get_artifacts_spec(s, f)[j],
                f.order_by,
            ),
        !f.is_asc ==> forall|i: int, j: int|
            0 <= i < j < get_artifacts_spec(s, f).len() ==> artifact_order_le(
                #[trigger] get_artifacts_spec(s, f)[j],
                #[trigger] get_artifacts_spec(s, f)[i],
                f.order_by,
            ),
{
    broadcast use vstd::seq_lib::group_to_multiset_ensures;

    let keyed = keyed_artifacts(s, f, s.artifacts@);
    let sorted = sort_keyed_spec(keyed);
    crate::order::lemma_sort_keyed_sorted(keyed);
    crate::order::lemma_sort_keyed_permutes(keyed);
    lemma_keyed_artifacts_wellkeyed(s, f, s.artifacts@);
    let dir = directed(sorted, f.is_asc);
    let sel = limited(dir, f.limit);
    let res = get_artifacts_spec(s, f);
    assert forall|i: int| 0 <= i < sorted.len() implies {
        &&& (#[trigger] sorted[i]).0 == artifact_sort_key(sorted[i].2, f.order_by)
        &&& sorted[i].1 == sorted[i].2.id
    } by {
        assert(sorted.contains(sorted[i]));
        assert(sorted.to_multiset().count(sorted[i]) > 0);
        assert(keyed.to_multiset().count(sorted[i]) > 0);
        assert(keyed.contains(sorted[i]));
        let m = choose|m: int| 0 <= m < keyed.len() && keyed[m] == sorted[i];
    }
    if f.is_asc {
        assert forall|i: int, j: int| 0 <= i < j < res.len() implies artifact_order_le(
            #[trigger] res[i],
            #[trigger] res[j],
            f.order_by,
        ) by {
            assert(sel[i] == sorted[i] && sel[j] == sorted[j]);
            assert(crate::order::key_le(sorted[i], sorted[j]));
            assert(res[i] == sorted[i].2 && res[j] == sorted[j].2);
        }
    } else {
        assert forall|i: int, j: int| 0 <= i < j < res.len() implies artifact_order_le(
            #[trigger] res[j],
            #[trigger] res[i],
            f.order_by,
        ) by {
            let n = sorted.len() as int;
            assert(sel[i] == dir[i] && sel[j] == dir[j]);
            assert(dir[i] == sorted[n - 1 - i] && dir[j] == sorted[n - 1 - j]);
            assert(crate::order::key_le(sorted[n - 1 - j], sorted[n - 1 - i]));
            assert(res[i] == dir[i].2 && res[j] == dir[j].2);
        }
    }
}

/// Repeating a `get` with an identical filter against an unchanged store
/// yields an identical ordered sequence: any two results that meet
/// `get_artifacts`' contract are equal.
pub proof fn lemma_get_artifacts_idempotent(
    s: Store,
    f: EntityFilter,
    r1: Seq<Artifact>,
    r2: Seq<Artifact>,
)
    requires
        r1 == get_artifacts_spec(s, f),
        r2 == get_artifacts_spec(s, f),
    ensures
        r1 == r2,
{
}

/// Repeating a `get` for executions is idempotent in the same way.
pub proof fn lemma_get_executions_idempotent(
    s: Store,
    f: EntityFilter,
    r1: Seq<Execution>,
    r2: Seq<Execution>,
)
    requires
        r1 == get_executions_spec(s, f),
        r2 == get_executions_spec(s, f),
    ensures
        r1 == r2,
{
}

/// Repeating a `get` for contexts is idempotent in the same way.
pub proof fn lemma_get_contexts_idempotent(
    s: Store,
    f: EntityFilter,
    r1: Seq<Context>,
    r2: Seq<Context>,
)
    requires
        r1 == get_contexts_spec(s, f),
        r2 == get_contexts_spec(s, f),
    ensures
        r1 == r2,
{
}

/// Repeating a `get` for events is idempotent in the same way.
pub proof fn lemma_get_events_idempotent(s: Store, f: EventFilter, r1: Seq<Event>, r2: Seq<Event>)
    requires
        r1 == get_events_spec(s, f),
        r2 == get_events_spec(s, f),
    ensures
        r1 == r2,
{
}

/// With no limit set, `count` agrees with the length of what `get`
/// returns, for any filter.
pub proof fn lemma_count_get_artifacts_agree(s: Store, f: EntityFilter)
    requires
        f.limit is None,
    ensures
        keyed_artifacts(s, f, s.artifacts@).len() == get_artifacts_spec(s, f).len(),
{
    lemma_sort_keyed_len(keyed_artifacts(s, f, s.artifacts@));
}

/// With no limit set, execution `count` agrees with execution `get`.
pub proof fn lemma_count_get_executions_agree(s: Store, f: EntityFilter)
    requires
        f.limit is None,
    ensures
        keyed_executions(s, f, s.executions@).len() == get_executions_spec(s, f).len(),
{
    lemma_sort_keyed_len(keyed_executions(s, f, s.executions@));
}

/// With no limit set, context `count` agrees with context `get`.
pub proof fn lemma_count_get_contexts_agree(s: Store, f: EntityFilter)
    requires
        f.limit is None,
    ensures
        keyed_contexts(s, f, s.contexts@).len() == get_contexts_spec(s, f).len(),
{
    lemma_sort_keyed_len(keyed_contexts(s, f, s.contexts@));
}

/// With no limit set, type `count` agrees with type `get` on any registry.
pub proof fn lemma_count_get_type_records_agree(list: Seq<TypeRecord>, f: TypeFilter)
    requires
        f.limit is None,
    ensures
        keyed_type_records(f, list).len() == get_type_records_spec(list, f).len(),
{
    lemma_sort_keyed_len(keyed_type_records(f, list));
}

/// With no limit set, event `count` agrees with event `get`.
pub proof fn lemma_count_get_events_agree(s: Store, f: EventFilter)
    requires
        f.limit is None,
    ensures
        keyed_events(f, s.events@).len() == get_events_spec(s, f).len(),
{
    lemma_sort_keyed_len(keyed_events(f, s.events@));
}

} // verus!
