//! Filter predicates over store entities.
//!
//! A filter is a conjunction of optional predicates: every predicate that
//! is set must hold, and a filter with nothing set matches everything.
//! Over-constrained combinations are conjoined, not rejected — they simply
//! match fewer entities.  Time bounds are inclusive on both ends.

use vstd::prelude::*;

use crate::entity::{Artifact, Context, Event, Execution, TypeRecord};
use crate::store::Store;

verus! {

/// The field a `get` operation orders its results by; ties are broken by
/// ascending id.
#[derive(Clone, Copy, PartialEq, Eq, Structural, Debug)]
pub enum OrderField {
    Id,
    CreateTime,
    UpdateTime,
}

/// Optional predicates over artifacts, executions or contexts, plus the
/// ordering and pagination of a `get`.
pub struct EntityFilter {
    pub ids: Option<Vec<u64>>,
    pub ty_name: Option<String>,
    pub type_names: Option<Vec<String>>,
    pub uri: Option<String>,
    pub name: Option<String>,
    pub context_id: Option<u64>,
    pub create_time_since: Option<u64>,
    pub create_time_until: Option<u64>,
    pub update_time_since: Option<u64>,
    pub update_time_until: Option<u64>,
    pub limit: Option<usize>,
    pub order_by: OrderField,
    pub is_asc: bool,
}

impl Default for EntityFilter {
    /// The filter with no predicate set: it matches every entity, orders
    /// by ascending id, and applies no limit.
    fn default() -> (res: Self)
        ensures
            res.ids is None,
            res.ty_name is None,
            res.type_names is None,
            res.uri is None,
            res.name is None,
            res.context_id is None,
            res.create_time_since is None,
            res.create_time_until is None,
            res.update_time_since is None,
            res.update_time_until is None,
            res.limit is None,
            res.order_by == OrderField::Id,
            res.is_asc,
    {
        EntityFilter {
            ids: None,
            ty_name: None,
            type_names: None,
            uri: None,
            name: None,
            context_id: None,
            create_time_since: None,
            create_time_until: None,
            update_time_since: None,
            update_time_until: None,
            limit: None,
            order_by: OrderField::Id,
            is_asc: true,
        }
    }
}

/// Optional predicates over a type registry, plus ordering and pagination.
pub struct TypeFilter {
    pub ids: Option<Vec<u64>>,
    pub name: Option<String>,
    pub limit: Option<usize>,
    pub is_asc: bool,
}

impl Default for TypeFilter {
    /// The type filter with no predicate set.
    fn default() -> (res: Self)
        ensures
            res.ids is None,
            res.name is None,
            res.limit is None,
            res.is_asc,
    {
        TypeFilter { ids: None, name: None, limit: None, is_asc: true }
    }
}

/// Optional predicates over events, plus ordering and pagination; events
/// are ordered by timestamp, ties broken by ascending artifact id.
pub struct EventFilter {
    pub artifact_ids: Option<Vec<u64>>,
    pub execution_ids: Option<Vec<u64>>,
    pub time_since: Option<u64>,
    pub time_until: Option<u64>,
    pub limit: Option<usize>,
    pub is_asc: bool,
}

impl Default for EventFilter {
    /// The event filter with no predicate set.
    fn default() -> (res: Self)
        ensures
            res.artifact_ids is None,
            res.execution_ids is None,
            res.time_since is None,
            res.time_until is None,
            res.limit is None,
            res.is_asc,
    {
        EventFilter {
            artifact_ids: None,
            execution_ids: None,
            time_since: None,
            time_until: None,
            limit: None,
            is_asc: true,
        }
    }
}

/// An unset id-list predicate holds; a set one asks that `id` be listed.
pub open spec fn ids_admit(ids: Option<Vec<u64>>, id: u64) -> bool {
    match ids {
        Some(v) => v@.contains(id),
        None => true,
    }
}

/// An unset lower time bound holds; a set one asks `t >= since`.
pub open spec fn since_admits(since: Option<u64>, t: u64) -> bool {
    match since {
        Some(v) => t >= v,
        None => true,
    }
}

/// An unset upper time bound holds; a set one asks `t <= until`.
pub open spec fn until_admits(until: Option<u64>, t: u64) -> bool {
    match until {
        Some(v) => t <= v,
        None => true,
    }
}

/// Whether the registry names a type `name` whose id is `type_id`.
pub open spec fn registry_names_type(registry: Seq<TypeRecord>, name: Seq<char>, type_id: u64) -> bool {
    exists|k: int| 0 <= k < registry.len() && registry[k].name@ == name && registry[k].id == type_id
}

/// An unset type-name predicate holds; a set one asks that the registry
/// name a type `name` with the entity's type id.
pub open spec fn ty_name_admits(registry: Seq<TypeRecord>, name: Option<String>, type_id: u64) -> bool {
    match name {
        Some(n) => registry_names_type(registry, n@, type_id),
        None => true,
    }
}

/// An unset type-name-list predicate holds; a set one asks that some
/// listed name match the entity's type id.
pub open spec fn type_names_admit(registry: Seq<TypeRecord>, names: Option<Vec<String>>, type_id: u64) -> bool {
    match names {
        Some(ns) => exists|k: int|
            0 <= k < ns@.len() && registry_names_type(registry, ns@[k]@, type_id),
        None => true,
    }
}

/// An unset name predicate holds; a set one asks that the entity carry
/// exactly that name.
pub open spec fn opt_name_admits(wanted: Option<String>, name: Option<String>) -> bool {
    match wanted {
        Some(w) => name is Some && name.unwrap()@ == w@,
        None => true,
    }
}

/// Whether `a` satisfies every predicate `f` sets, against the type
/// registry and context memberships of `s`.
pub open spec fn artifact_matches(s: Store, f: EntityFilter, a: Artifact) -> bool {
    &&& ids_admit(f.ids, a.id)
    &&& ty_name_admits(s.artifact_types@, f.ty_name, a.type_id)
    &&& type_names_admit(s.artifact_types@, f.type_names, a.type_id)
    &&& (match f.uri {
        Some(u) => a.uri@ == u@,
        None => true,
    })
    &&& opt_name_admits(f.name, a.name)
    &&& (match f.context_id {
        Some(c) => s.attributions@.contains((c, a.id)),
        None => true,
    })
    &&& since_admits(f.create_time_since, a.create_time)
    &&& until_admits(f.create_time_until, a.create_time)
    &&& since_admits(f.update_time_since, a.update_time)
    &&& until_admits(f.update_time_until, a.update_time)
}

/// Whether `e` satisfies every predicate `f` sets.
pub open spec fn execution_matches(s: Store, f: EntityFilter, e: Execution) -> bool {
    &&& ids_admit(f.ids, e.id)
    &&& ty_name_admits(s.execution_types@, f.ty_name, e.type_id)
    &&& type_names_admit(s.execution_types@, f.type_names, e.type_id)
    &&& f.uri is None
    &&& opt_name_admits(f.name, e.name)
    &&& (match f.context_id {
        Some(c) => s.associations@.contains((c, e.id)),
        None => true,
    })
    &&& since_admits(f.create_time_since, e.create_time)
    &&& until_admits(f.create_time_until, e.create_time)
    &&& since_admits(f.update_time_since, e.update_time)
    &&& until_admits(f.update_time_until, e.update_time)
}

/// Whether `c` satisfies every predicate `f` sets.  A context belongs to
/// no context, so a set `context_id` matches nothing.
pub open spec fn context_matches(s: Store, f: EntityFilter, c: Context) -> bool {
    &&& ids_admit(f.ids, c.id)
    &&& ty_name_admits(s.context_types@, f.ty_name, c.type_id)
    &&& type_names_admit(s.context_types@, f.type_names, c.type_id)
    &&& f.uri is None
    &&& (match f.name {
        Some(w) => c.name@ == w@,
        None => true,
    })
    &&& f.context_id is None
    &&& since_admits(f.create_time_since, c.create_time)
    &&& until_admits(f.create_time_until, c.create_time)
    &&& since_admits(f.update_time_since, c.update_time)
    &&& until_admits(f.update_time_until, c.update_time)
}

/// Whether the type record `t` satisfies every predicate `f` sets.
pub open spec fn type_record_matches(f: TypeFilter, t: TypeRecord) -> bool {
    &&& ids_admit(f.ids, t.id)
    &&& (match f.name {
        Some(w) => t.name@ == w@,
        None => true,
    })
}

/// Whether the event `e` satisfies every predicate `f` sets.
pub open spec fn event_matches(f: EventFilter, e: Event) -> bool {
    &&& ids_admit(f.artifact_ids, e.artifact_id)
    &&& ids_admit(f.execution_ids, e.execution_id)
    &&& since_admits(f.time_since, e.timestamp)
    &&& until_admits(f.time_until, e.timestamp)
}

fn check_ids(ids: &Option<Vec<u64>>, id: u64) -> (res: bool)
    ensures
        res == ids_admit(*ids, id),
{
    match ids {
        Some(v) => crate::order::contains_id(v, id),
        None => true,
    }
}

fn check_since(since: &Option<u64>, t: u64) -> (res: bool)
    ensures
        res == since_admits(*since, t),
{
    match since {
        Some(v) => t >= *v,
        None => true,
    }
}

fn check_until(until: &Option<u64>, t: u64) -> (res: bool)
    ensures
        res == until_admits(*until, t),
{
    match until {
        Some(v) => t <= *v,
        None => true,
    }
}

fn check_registry_names_type(registry: &Vec<TypeRecord>, name: &String, type_id: u64) -> (res: bool)
    ensures
        res == registry_names_type(registry@, name@, type_id),
{
    let mut i: usize = 0;
    while i < registry.len()
        invariant
            i <= registry@.len(),
            forall|j: int|
                0 <= j < i ==> !(registry@[j].name@ == name@ && registry@[j].id == type_id),
        decreases registry@.len() - i,
    {
        if registry[i].id == type_id && registry[i].name == *name {
            return true;
        }
        i = i + 1;
    }
    false
}

fn check_ty_name(registry: &Vec<TypeRecord>, name: &Option<String>, type_id: u64) -> (res: bool)
    ensures
        res == ty_name_admits(registry@, *name, type_id),
{
    match name {
        Some(n) => check_registry_names_type(registry, n, type_id),
        None => true,
    }
}

fn check_type_names(registry: &Vec<TypeRecord>, names: &Option<Vec<String>>, type_id: u64) -> (res:
    bool)
    ensures
        res == type_names_admit(registry@, *names, type_id),
{
    match names {
        Some(ns) => {
            let mut i: usize = 0;
            while i < ns.len()
                invariant
                    i <= ns@.len(),
                    forall|j: int| 0 <= j < i ==> !registry_names_type(registry@, ns@[j]@, type_id),
                decreases ns@.len() - i,
            {
                if check_registry_names_type(registry, &ns[i], type_id) {
                    return true;
                }
                i = i + 1;
            }
            false
        },
        None => true,
    }
}

fn check_opt_name(wanted: &Option<String>, name: &Option<String>) -> (res: bool)
    ensures
        res == opt_name_admits(*wanted, *name),
{
    match wanted {
        Some(w) => match name {
            Some(n) => *n == *w,
            None => false,
        },
        None => true,
    }
}

fn check_membership(pairs: &Vec<(u64, u64)>, context_id: &Option<u64>, member_id: u64) -> (res:
    bool)
    ensures
        res == (match *context_id {
            Some(c) => pairs@.contains((c, member_id)),
            None => true,
        }),
{
    match context_id {
        Some(c) => {
            let mut i: usize = 0;
            while i < pairs.len()
                invariant
                    i <= pairs@.len(),
                    forall|j: int| 0 <= j < i ==> pairs@[j] != (*c, member_id),
                decreases pairs@.len() - i,
            {
                if pairs[i].0 == *c && pairs[i].1 == member_id {
                    return true;
                }
                i = i + 1;
            }
            false
        },
        None => true,
    }
}

/// Evaluates `f` on an artifact, as `artifact_matches` defines it.
pub fn eval_artifact(s: &Store, f: &EntityFilter, a: &Artifact) -> (res: bool)
    ensures
        res == artifact_matches(*s, *f, *a),
{
    check_ids(&f.ids, a.id) && check_ty_name(&s.artifact_types, &f.ty_name, a.type_id)
        && check_type_names(&s.artifact_types, &f.type_names, a.type_id) && (match &f.uri {
        Some(u) => a.uri == *u,
        None => true,
    }) && check_opt_name(&f.name, &a.name) && check_membership(&s.attributions, &f.context_id, a.id)
        && check_since(&f.create_time_since, a.create_time) && check_until(
        &f.create_time_until,
        a.create_time,
    ) && check_since(&f.update_time_since, a.update_time) && check_until(
        &f.update_time_until,
        a.update_time,
    )
}

/// Evaluates `f` on an execution, as `execution_matches` defines it.
pub fn eval_execution(s: &Store, f: &EntityFilter, e: &Execution) -> (res: bool)
    ensures
        res == execution_matches(*s, *f, *e),
{
    check_ids(&f.ids, e.id) && check_ty_name(&s.execution_types, &f.ty_name, e.type_id)
        && check_type_names(&s.execution_types, &f.type_names, e.type_id) && f.uri.is_none()
        && check_opt_name(&f.name, &e.name) && check_membership(
        &s.associations,
        &f.context_id,
        e.id,
    ) && check_since(&f.create_time_since, e.create_time) && check_until(
        &f.create_time_until,
        e.create_time,
    ) && check_since(&f.update_time_since, e.update_time) && check_until(
        &f.update_time_until,
        e.update_time,
    )
}

/// Evaluates `f` on a context, as `context_matches` defines it.
pub fn eval_context(s: &Store, f: &EntityFilter, c: &Context) -> (res: bool)
    ensures
        res == context_matches(*s, *f, *c),
{
    check_ids(&f.ids, c.id) && check_ty_name(&s.context_types, &f.ty_name, c.type_id)
        && check_type_names(&s.context_types, &f.type_names, c.type_id) && f.uri.is_none() && (
    match &f.name {
        Some(w) => c.name == *w,
        None => true,
    }) && f.context_id.is_none() && check_since(&f.create_time_since, c.create_time) && check_until(
        &f.create_time_until,
        c.create_time,
    ) && check_since(&f.update_time_since, c.update_time) && check_until(
        &f.update_time_until,
        c.update_time,
    )
}

/// Evaluates `f` on a type record, as `type_record_matches` defines it.
pub fn eval_type_record(f: &TypeFilter, t: &TypeRecord) -> (res: bool)
    ensures
        res == type_record_matches(*f, *t),
{
    check_ids(&f.ids, t.id) && (match &f.name {
        Some(w) => t.name == *w,
        None => true,
    })
}

/// Evaluates `f` on an event, as `event_matches` defines it.
pub fn eval_event(f: &EventFilter, e: &Event) -> (res: bool)
    ensures
        res == event_matches(*f, *e),
{
    check_ids(&f.artifact_ids, e.artifact_id) && check_ids(&f.execution_ids, e.execution_id)
        && check_since(&f.time_since, e.timestamp) && check_until(&f.time_until, e.timestamp)
}

} // verus!
