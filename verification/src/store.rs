//! An in-memory snapshot of the metadata store: the entity registries,
//! the event log, and the context-membership pairs.  All query and graph
//! operations read such a snapshot and never write back; the store client
//! that fills one from a live service stays outside the library.

use vstd::prelude::*;

use crate::entity::{Artifact, Context, Event, Execution, TypeKind, TypeRecord};

verus! {

/// The first artifact in `list`, from position `from` on, whose id is `id`.
pub open spec fn artifact_from(list: Seq<Artifact>, id: u64, from: int) -> Option<Artifact>
    decreases list.len() - from,
{
    if from < 0 || from >= list.len() {
        None
    } else if list[from].id == id {
        Some(list[from])
    } else {
        artifact_from(list, id, from + 1)
    }
}

/// The first execution in `list`, from position `from` on, whose id is `id`.
pub open spec fn execution_from(list: Seq<Execution>, id: u64, from: int) -> Option<Execution>
    decreases list.len() - from,
{
    if from < 0 || from >= list.len() {
        None
    } else if list[from].id == id {
        Some(list[from])
    } else {
        execution_from(list, id, from + 1)
    }
}

/// A read-only snapshot of the metadata store.
///
/// `attributions` holds `(context_id, artifact_id)` membership pairs and
/// `associations` holds `(context_id, execution_id)` pairs.
pub struct Store {
    pub artifacts: Vec<Artifact>,
    pub executions: Vec<Execution>,
    pub contexts: Vec<Context>,
    pub artifact_types: Vec<TypeRecord>,
    pub execution_types: Vec<TypeRecord>,
    pub context_types: Vec<TypeRecord>,
    pub events: Vec<Event>,
    pub attributions: Vec<(u64, u64)>,
    pub associations: Vec<(u64, u64)>,
}

impl Store {
    /// Ids identify entities: no id repeats within one registry.
    pub open spec fn wf(self) -> bool {
        &&& (forall|i: int, j: int|
            0 <= i < j < self.artifacts@.len() ==> self.artifacts@[i].id != self.artifacts@[j].id)
        &&& (forall|i: int, j: int|
            0 <= i < j < self.executions@.len() ==> self.executions@[i].id
                != self.executions@[j].id)
        &&& (forall|i: int, j: int|
            0 <= i < j < self.contexts@.len() ==> self.contexts@[i].id != self.contexts@[j].id)
        &&& (forall|i: int, j: int|
            0 <= i < j < self.artifact_types@.len() ==> self.artifact_types@[i].id
                != self.artifact_types@[j].id)
        &&& (forall|i: int, j: int|
            0 <= i < j < self.execution_types@.len() ==> self.execution_types@[i].id
                != self.execution_types@[j].id)
        &&& (forall|i: int, j: int|
            0 <= i < j < self.context_types@.len() ==> self.context_types@[i].id
                != self.context_types@[j].id)
    }

    /// The artifact registered under `id`, if any.
    pub open spec fn artifact_by_id(self, id: u64) -> Option<Artifact> {
        artifact_from(self.artifacts@, id, 0)
    }

    /// The execution registered under `id`, if any.
    pub open spec fn execution_by_id(self, id: u64) -> Option<Execution> {
        execution_from(self.executions@, id, 0)
    }

    /// An empty store.
    pub fn new() -> (res: Store)
        ensures
            res.wf(),
            res.artifacts@.len() == 0,
            res.executions@.len() == 0,
            res.contexts@.len() == 0,
            res.artifact_types@.len() == 0,
            res.execution_types@.len() == 0,
            res.context_types@.len() == 0,
            res.events@.len() == 0,
            res.attributions@.len() == 0,
            res.associations@.len() == 0,
    {
        Store {
            artifacts: Vec::new(),
            executions: Vec::new(),
            contexts: Vec::new(),
            artifact_types: Vec::new(),
            execution_types: Vec::new(),
            context_types: Vec::new(),
            events: Vec::new(),
            attributions: Vec::new(),
            associations: Vec::new(),
        }
    }

    /// Registers an artifact; a repeated id is refused, so that the
    /// snapshot keeps ids unique.
    pub fn add_artifact(&mut self, a: Artifact) -> (added: bool)
        requires
            old(self).wf(),
        ensures
            final(self).wf(),
            added == old(self).artifact_by_id(a.id) is None,
            added ==> final(self).artifacts@ == old(self).artifacts@.push(a),
            !added ==> final(self).artifacts@ == old(self).artifacts@,
            final(self).executions@ == old(self).executions@,
            final(self).contexts@ == old(self).contexts@,
            final(self).artifact_types@ == old(self).artifact_types@,
            final(self).execution_types@ == old(self).execution_types@,
            final(self).context_types@ == old(self).context_types@,
            final(self).events@ == old(self).events@,
            final(self).attributions@ == old(self).attributions@,
            final(self).associations@ == old(self).associations@,
    {
        if self.find_artifact(a.id).is_some() {
            return false;
        }
        proof {
            lemma_artifact_from_none(self.artifacts@, a.id, 0);
        }
        self.artifacts.push(a);
        true
    }

    /// Registers an execution; a repeated id is refused.
    pub fn add_execution(&mut self, e: Execution) -> (added: bool)
        requires
            old(self).wf(),
        ensures
            final(self).wf(),
            added == old(self).execution_by_id(e.id) is None,
            added ==> final(self).executions@ == old(self).executions@.push(e),
            !added ==> final(self).executions@ == old(self).executions@,
            final(self).artifacts@ == old(self).artifacts@,
            final(self).contexts@ == old(self).contexts@,
            final(self).artifact_types@ == old(self).artifact_types@,
            final(self).execution_types@ == old(self).execution_types@,
            final(self).context_types@ == old(self).context_types@,
            final(self).events@ == old(self).events@,
            final(self).attributions@ == old(self).attributions@,
            final(self).associations@ == old(self).associations@,
    {
        if self.find_execution(e.id).is_some() {
            return false;
        }
        proof {
            lemma_execution_from_none(self.executions@, e.id, 0);
        }
        self.executions.push(e);
        true
    }

    /// Registers a context; a repeated id is refused.
    pub fn add_context(&mut self, c: Context) -> (added: bool)
        requires
            old(self).wf(),
        ensures
            final(self).wf(),
            added == (forall|i: int|
                0 <= i < old(self).contexts@.len() ==> old(self).contexts@[i].id != c.id),
            added ==> final(self).contexts@ == old(self).contexts@.push(c),
            !added ==> final(self).contexts@ == old(self).contexts@,
            final(self).artifacts@ == old(self).artifacts@,
            final(self).executions@ == old(self).executions@,
            final(self).artifact_types@ == old(self).artifact_types@,
            final(self).execution_types@ == old(self).execution_types@,
            final(self).context_types@ == old(self).context_types@,
            final(self).events@ == old(self).events@,
            final(self).attributions@ == old(self).attributions@,
            final(self).associations@ == old(self).associations@,
    {
        let mut i: usize = 0;
        while i < self.contexts.len()
            invariant
                i <= self.contexts@.len(),
                forall|j: int| 0 <= j < i ==> self.contexts@[j].id != c.id,
            decreases self.contexts@.len() - i,
        {
            if self.contexts[i].id == c.id {
                return false;
            }
            i = i + 1;
        }
        self.contexts.push(c);
        true
    }

    /// Registers a type schema in the registry its kind selects; a
    /// repeated id within that registry is refused.
    pub fn add_type(&mut self, t: TypeRecord) -> (added: bool)
        requires
            old(self).wf(),
        ensures
            final(self).wf(),
            t.kind == TypeKind::Artifact ==> {
                &&& added == (forall|i: int|
                    0 <= i < old(self).artifact_types@.len() ==> old(self).artifact_types@[i].id
                        != t.id)
                &&& (added ==> final(self).artifact_types@ == old(self).artifact_types@.push(t))
                &&& (!added ==> final(self).artifact_types@ == old(self).artifact_types@)
                &&& final(self).execution_types@ == old(self).execution_types@
                &&& final(self).context_types@ == old(self).context_types@
            },
            t.kind == TypeKind::Execution ==> {
                &&& added == (forall|i: int|
                    0 <= i < old(self).execution_types@.len() ==> old(self).execution_types@[i].id
                        != t.id)
                &&& (added ==> final(self).execution_types@ == old(self).execution_types@.push(t))
                &&& (!added ==> final(self).execution_types@ == old(self).execution_types@)
                &&& final(self).artifact_types@ == old(self).artifact_types@
                &&& final(self).context_types@ == old(self).context_types@
            },
            t.kind == TypeKind::Context ==> {
                &&& added == (forall|i: int|
                    0 <= i < old(self).context_types@.len() ==> old(self).context_types@[i].id
                        != t.id)
                &&& (added ==> final(self).context_types@ == old(self).context_types@.push(t))
                &&& (!added ==> final(self).context_types@ == old(self).context_types@)
                &&& final(self).artifact_types@ == old(self).artifact_types@
                &&& final(self).execution_types@ == old(self).execution_types@
            },
            final(self).artifacts@ == old(self).artifacts@,
            final(self).executions@ == old(self).executions@,
            final(self).contexts@ == old(self).contexts@,
            final(self).events@ == old(self).events@,
            final(self).attributions@ == old(self).attributions@,
            final(self).associations@ == old(self).associations@,
    {
        let registry: &Vec<TypeRecord> = match t.kind {
            TypeKind::Artifact => &self.artifact_types,
            TypeKind::Execution => &self.execution_types,
            TypeKind::Context => &self.context_types,
        };
        let mut i: usize = 0;
        while i < registry.len()
            invariant
                i <= registry@.len(),
                forall|j: int| 0 <= j < i ==> registry@[j].id != t.id,
        decreases registry@.len() - i,
        {
            if registry[i].id == t.id {
                return false;
            }
            i = i + 1;
        }
        match t.kind {
            TypeKind::Artifact => self.artifact_types.push(t),
            TypeKind::Execution => self.execution_types.push(t),
            TypeKind::Context => self.context_types.push(t),
        }
        true
    }

    /// Records an event; events carry no identity, so nothing is refused.
    pub fn add_event(&mut self, e: Event)
        requires
            old(self).wf(),
        ensures
            final(self).wf(),
            final(self).events@ == old(self).events@.push(e),
            final(self).artifacts@ == old(self).artifacts@,
            final(self).executions@ == old(self).executions@,
            final(self).contexts@ == old(self).contexts@,
            final(self).artifact_types@ == old(self).artifact_types@,
            final(self).execution_types@ == old(self).execution_types@,
            final(self).context_types@ == old(self).context_types@,
            final(self).attributions@ == old(self).attributions@,
            final(self).associations@ == old(self).associations@,
    {
        self.events.push(e);
    }

    /// Records that context `context_id` contains artifact `artifact_id`.
    pub fn add_attribution(&mut self, context_id: u64, artifact_id: u64)
        requires
            old(self).wf(),
        ensures
            final(self).wf(),
            final(self).attributions@ == old(self).attributions@.push((context_id, artifact_id)),
            final(self).associations@ == old(self).associations@,
            final(self).artifacts@ == old(self).artifacts@,
            final(self).executions@ == old(self).executions@,
            final(self).contexts@ == old(self).contexts@,
            final(self).artifact_types@ == old(self).artifact_types@,
            final(self).execution_types@ == old(self).execution_types@,
            final(self).context_types@ == old(self).context_types@,
            final(self).events@ == old(self).events@,
    {
        self.attributions.push((context_id, artifact_id));
    }

    /// Records that context `context_id` contains execution `execution_id`.
    pub fn add_association(&mut self, context_id: u64, execution_id: u64)
        requires
            old(self).wf(),
        ensures
            final(self).wf(),
            final(self).associations@ == old(self).associations@.push((context_id, execution_id)),
            final(self).attributions@ == old(self).attributions@,
            final(self).artifacts@ == old(self).artifacts@,
            final(self).executions@ == old(self).executions@,
            final(self).contexts@ == old(self).contexts@,
            final(self).artifact_types@ == old(self).artifact_types@,
            final(self).execution_types@ == old(self).execution_types@,
            final(self).context_types@ == old(self).context_types@,
            final(self).events@ == old(self).events@,
    {
        self.associations.push((context_id, execution_id));
    }

    /// Looks an artifact up by id.
    pub fn find_artifact(&self, id: u64) -> (res: Option<&Artifact>)
        ensures
            match res {
                Some(a) => self.artifact_by_id(id) == Some(*a),
                None => self.artifact_by_id(id) is None,
            },
    {
        let mut i: usize = 0;
        while i < self.artifacts.len()
            invariant
                i <= self.artifacts@.len(),
                artifact_from(self.artifacts@, id, 0) == artifact_from(
                    self.artifacts@,
                    id,
                    i as int,
                ),
            decreases self.artifacts@.len() - i,
        {
            if self.artifacts[i].id == id {
                return Some(&self.artifacts[i]);
            }
            i = i + 1;
        }
        None
    }

    /// Looks an execution up by id.
    pub fn find_execution(&self, id: u64) -> (res: Option<&Execution>)
        ensures
            match res {
                Some(e) => self.execution_by_id(id) == Some(*e),
                None => self.execution_by_id(id) is None,
            },
    {
        let mut i: usize = 0;
        while i < self.executions.len()
            invariant
                i <= self.executions@.len(),
                execution_from(self.executions@, id, 0) == execution_from(
                    self.executions@,
                    id,
                    i as int,
                ),
            decreases self.executions@.len() - i,
        {
            if self.executions[i].id == id {
                return Some(&self.executions[i]);
            }
            i = i + 1;
        }
        None
    }
}

/// The events of `list` naming artifact `id`, in log order.
pub open spec fn events_of_artifact(list: Seq<Event>, id: u64) -> Seq<Event>
    decreases list.len(),
{
    if list.len() == 0 {
        Seq::empty()
    } else {
        events_of_artifact(list.drop_last(), id) + if list.last().artifact_id == id {
            seq![list.last()]
        } else {
            Seq::empty()
        }
    }
}

/// The events of `list` naming execution `id`, in log order.
pub open spec fn events_of_execution(list: Seq<Event>, id: u64) -> Seq<Event>
    decreases list.len(),
{
    if list.len() == 0 {
        Seq::empty()
    } else {
        events_of_execution(list.drop_last(), id) + if list.last().execution_id == id {
            seq![list.last()]
        } else {
            Seq::empty()
        }
    }
}

/// The execution ids of output-family events naming artifact `aid`, in
/// log order, kept only where the execution exists in the store.
pub open spec fn producer_events(s: Store, list: Seq<Event>, aid: u64) -> Seq<u64>
    decreases list.len(),
{
    if list.len() == 0 {
        Seq::empty()
    } else {
        producer_events(s, list.drop_last(), aid) + if list.last().artifact_id == aid
            && crate::entity::is_output_event(list.last().event_type) && s.execution_by_id(
            list.last().execution_id,
        ) is Some {
            seq![list.last().execution_id]
        } else {
            Seq::empty()
        }
    }
}

/// The artifact ids of input-family events naming execution `eid`, in
/// log order, kept only where the artifact exists in the store.
pub open spec fn input_events(s: Store, list: Seq<Event>, eid: u64) -> Seq<u64>
    decreases list.len(),
{
    if list.len() == 0 {
        Seq::empty()
    } else {
        input_events(s, list.drop_last(), eid) + if list.last().execution_id == eid
            && crate::entity::is_input_event(list.last().event_type) && s.artifact_by_id(
            list.last().artifact_id,
        ) is Some {
            seq![list.last().artifact_id]
        } else {
            Seq::empty()
        }
    }
}

/// The artifact ids of output-family events naming execution `eid`, in
/// log order, kept only where the artifact exists in the store.
pub open spec fn output_events(s: Store, list: Seq<Event>, eid: u64) -> Seq<u64>
    decreases list.len(),
{
    if list.len() == 0 {
        Seq::empty()
    } else {
        output_events(s, list.drop_last(), eid) + if list.last().execution_id == eid
            && crate::entity::is_output_event(list.last().event_type) && s.artifact_by_id(
            list.last().artifact_id,
        ) is Some {
            seq![list.last().artifact_id]
        } else {
            Seq::empty()
        }
    }
}

/// The ascending, duplicate-free ids of the executions that produced
/// artifact `aid`: those with an output-family event to it.
pub open spec fn producer_ids_spec(s: Store, aid: u64) -> Seq<u64> {
    crate::order::sorted_unique_spec(producer_events(s, s.events@, aid))
}

/// The ascending, duplicate-free ids of the artifacts execution `eid`
/// consumed: those with an input-family event from it.
pub open spec fn input_artifact_ids_spec(s: Store, eid: u64) -> Seq<u64> {
    crate::order::sorted_unique_spec(input_events(s, s.events@, eid))
}

/// The ascending, duplicate-free ids of the artifacts execution `eid`
/// produced: those with an output-family event from it.
pub open spec fn output_artifact_ids_spec(s: Store, eid: u64) -> Seq<u64> {
    crate::order::sorted_unique_spec(output_events(s, s.events@, eid))
}

impl Store {
    /// All events naming artifact `id`, in log order.
    pub fn events_for_artifact(&self, id: u64) -> (res: Vec<Event>)
        ensures
            res@ == events_of_artifact(self.events@, id),
    {
        let mut res: Vec<Event> = Vec::new();
        let mut i: usize = 0;
        while i < self.events.len()
            invariant
                i <= self.events@.len(),
                res@ == events_of_artifact(self.events@.take(i as int), id),
            decreases self.events@.len() - i,
        {
            proof {
                assert(self.events@.take(i + 1).drop_last() =~= self.events@.take(i as int));
            }
            if self.events[i].artifact_id == id {
                res.push(self.events[i]);
            }
            proof {
                assert(res@ =~= events_of_artifact(self.events@.take(i + 1), id));
            }
            i = i + 1;
        }
        proof {
            assert(self.events@.take(self.events@.len() as int) =~= self.events@);
        }
        res
    }

    /// All events naming execution `id`, in log order.
    pub fn events_for_execution(&self, id: u64) -> (res: Vec<Event>)
        ensures
            res@ == events_of_execution(self.events@, id),
    {
        let mut res: Vec<Event> = Vec::new();
        let mut i: usize = 0;
        while i < self.events.len()
            invariant
                i <= self.events@.len(),
                res@ == events_of_execution(self.events@.take(i as int), id),
            decreases self.events@.len() - i,
        {
            proof {
                assert(self.events@.take(i + 1).drop_last() =~= self.events@.take(i as int));
            }
            if self.events[i].execution_id == id {
                res.push(self.events[i]);
            }
            proof {
                assert(res@ =~= events_of_execution(self.events@.take(i + 1), id));
            }
            i = i + 1;
        }
        proof {
            assert(self.events@.take(self.events@.len() as int) =~= self.events@);
        }
        res
    }

    /// The producing executions of artifact `aid`, ascending and
    /// duplicate-free, as `producer_ids_spec` describes.
    pub fn producer_ids(&self, aid: u64) -> (res: Vec<u64>)
        ensures
            res@ == producer_ids_spec(*self, aid),
    {
        let mut raw: Vec<u64> = Vec::new();
        let mut i: usize = 0;
        while i < self.events.len()
            invariant
                i <= self.events@.len(),
                raw@ == producer_events(*self, self.events@.take(i as int), aid),
            decreases self.events@.len() - i,
        {
            proof {
                assert(self.events@.take(i + 1).drop_last() =~= self.events@.take(i as int));
            }
            let e = self.events[i];
            if e.artifact_id == aid && e.is_output() && self.find_execution(e.execution_id).is_some() {
                raw.push(e.execution_id);
            }
            proof {
                assert(raw@ =~= producer_events(*self, self.events@.take(i + 1), aid));
            }
            i = i + 1;
        }
        proof {
            assert(self.events@.take(self.events@.len() as int) =~= self.events@);
        }
        crate::order::sorted_unique(raw)
    }

    /// The artifacts execution `eid` consumed, ascending and
    /// duplicate-free, as `input_artifact_ids_spec` describes.
    pub fn input_artifact_ids(&self, eid: u64) -> (res: Vec<u64>)
        ensures
            res@ == input_artifact_ids_spec(*self, eid),
    {
        let mut raw: Vec<u64> = Vec::new();
        let mut i: usize = 0;
        while i < self.events.len()
            invariant
                i <= self.events@.len(),
                raw@ == input_events(*self, self.events@.take(i as int), eid),
            decreases self.events@.len() - i,
        {
            proof {
                assert(self.events@.take(i + 1).drop_last() =~= self.events@.take(i as int));
            }
            let e = self.events[i];
            if e.execution_id == eid && e.is_input() && self.find_artifact(e.artifact_id).is_some() {
                raw.push(e.artifact_id);
            }
            proof {
                assert(raw@ =~= input_events(*self, self.events@.take(i + 1), eid));
            }
            i = i + 1;
        }
        proof {
            assert(self.events@.take(self.events@.len() as int) =~= self.events@);
        }
        crate::order::sorted_unique(raw)
    }

    /// The artifacts execution `eid` produced, ascending and
    /// duplicate-free, as `output_artifact_ids_spec` describes.
    pub fn output_artifact_ids(&self, eid: u64) -> (res: Vec<u64>)
        ensures
            res@ == output_artifact_ids_spec(*self, eid),
    {
        let mut raw: Vec<u64> = Vec::new();
        let mut i: usize = 0;
        while i < self.events.len()
            invariant
                i <= self.events@.len(),
                raw@ == output_events(*self, self.events@.take(i as int), eid),
            decreases self.events@.len() - i,
        {
            proof {
                assert(self.events@.take(i + 1).drop_last() =~= self.events@.take(i as int));
            }
            let e = self.events[i];
            if e.execution_id == eid && e.is_output() && self.find_artifact(e.artifact_id).is_some() {
                raw.push(e.artifact_id);
            }
            proof {
                assert(raw@ =~= output_events(*self, self.events@.take(i + 1), eid));
            }
            i = i + 1;
        }
        proof {
            assert(self.events@.take(self.events@.len() as int) =~= self.events@);
        }
        crate::order::sorted_unique(raw)
    }
}

/// The artifacts of `s` registered under the ids of `ids`, in id order,
/// ids the store does not know silently absent.
pub open spec fn resolved_artifacts(s: Store, ids: Seq<u64>) -> Seq<Artifact>
    decreases ids.len(),
{
    if ids.len() == 0 {
        Seq::empty()
    } else {
        resolved_artifacts(s, ids.drop_last()) + (match s.artifact_by_id(ids.last()) {
            Some(a) => seq![a],
            None => Seq::empty(),
        })
    }
}

/// The executions of `s` registered under the ids of `ids`, in id order.
pub open spec fn resolved_executions(s: Store, ids: Seq<u64>) -> Seq<Execution>
    decreases ids.len(),
{
    if ids.len() == 0 {
        Seq::empty()
    } else {
        resolved_executions(s, ids.drop_last()) + (match s.execution_by_id(ids.last()) {
            Some(e) => seq![e],
            None => Seq::empty(),
        })
    }
}

impl Store {
    /// Resolves a batch of artifact ids in one pass, as
    /// `resolved_artifacts` describes; unknown ids are dropped.
    pub fn resolve_artifacts(&self, ids: &Vec<u64>) -> (res: Vec<Artifact>)
        ensures
            res@ == resolved_artifacts(*self, ids@),
    {
        let mut res: Vec<Artifact> = Vec::new();
        let mut i: usize = 0;
        while i < ids.len()
            invariant
                i <= ids@.len(),
                res@ == resolved_artifacts(*self, ids@.take(i as int)),
            decreases ids@.len() - i,
        {
            proof {
                assert(ids@.take(i + 1).drop_last() =~= ids@.take(i as int));
            }
            match self.find_artifact(ids[i]) {
                Some(a) => res.push(a.clone()),
                None => {},
            }
            proof {
                assert(res@ =~= resolved_artifacts(*self, ids@.take(i + 1)));
            }
            i = i + 1;
        }
        proof {
            assert(ids@.take(ids@.len() as int) =~= ids@);
        }
        res
    }

    /// Resolves a batch of execution ids in one pass, as
    /// `resolved_executions` describes; unknown ids are dropped.
    pub fn resolve_executions(&self, ids: &Vec<u64>) -> (res: Vec<Execution>)
        ensures
            res@ == resolved_executions(*self, ids@),
    {
        let mut res: Vec<Execution> = Vec::new();
        let mut i: usize = 0;
        while i < ids.len()
            invariant
                i <= ids@.len(),
                res@ == resolved_executions(*self, ids@.take(i as int)),
            decreases ids@.len() - i,
        {
            proof {
                assert(ids@.take(i + 1).drop_last() =~= ids@.take(i as int));
            }
            match self.find_execution(ids[i]) {
                Some(e) => res.push(e.clone()),
                None => {},
            }
            proof {
                assert(res@ =~= resolved_executions(*self, ids@.take(i + 1)));
            }
            i = i + 1;
        }
        proof {
            assert(ids@.take(ids@.len() as int) =~= ids@);
        }
        res
    }
}

/// The producing executions of an artifact come strictly ascending —
/// each id once — and are exactly those with an output-family event to
/// it, so a traversal visits them in ascending id order.
pub proof fn lemma_producer_ids_ascending(s: Store, aid: u64)
    ensures
        forall|i: int, j: int|
            0 <= i < j < producer_ids_spec(s, aid).len() ==> #[trigger] producer_ids_spec(
                s,
                aid,
            )[i] < #[trigger] producer_ids_spec(s, aid)[j],
        forall|x: u64| #[trigger]
            producer_ids_spec(s, aid).contains(x) <==> producer_events(s, s.events@, aid).contains(
                x,
            ),
{
    crate::order::lemma_sorted_unique_ensures(producer_events(s, s.events@, aid));
}

/// The consumed artifacts of an execution come strictly ascending and
/// are exactly those with an input-family event from it.
pub proof fn lemma_input_artifact_ids_ascending(s: Store, eid: u64)
    ensures
        forall|i: int, j: int|
            0 <= i < j < input_artifact_ids_spec(s, eid).len() ==> #[trigger] input_artifact_ids_spec(
                s,
                eid,
            )[i] < #[trigger] input_artifact_ids_spec(s, eid)[j],
        forall|x: u64| #[trigger]
            input_artifact_ids_spec(s, eid).contains(x) <==> input_events(
                s,
                s.events@,
                eid,
            ).contains(x),
{
    crate::order::lemma_sorted_unique_ensures(input_events(s, s.events@, eid));
}

/// If no artifact from `from` on carries `id`, every one of them differs
/// from `id`.
proof fn lemma_artifact_from_none(list: Seq<Artifact>, id: u64, from: int)
    requires
        0 <= from,
        artifact_from(list, id, from) is None,
    ensures
        forall|i: int| from <= i < list.len() ==> list[i].id != id,
    decreases list.len() - from,
{
    if from < list.len() {
        lemma_artifact_from_none(list, id, from + 1);
    }
}

/// If no execution from `from` on carries `id`, every one of them differs
/// from `id`.
proof fn lemma_execution_from_none(list: Seq<Execution>, id: u64, from: int)
    requires
        0 <= from,
        execution_from(list, id, from) is None,
    ensures
        forall|i: int| from <= i < list.len() ==> list[i].id != id,
    decreases list.len() - from,
{
    if from < list.len() {
        lemma_execution_from_none(list, id, from + 1);
    }
}

} // verus!
