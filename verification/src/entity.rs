//! The entity kinds recorded by the metadata store: type schemas,
//! artifacts, executions, contexts, and the events linking artifacts
//! to executions.  All values are immutable snapshots as the store
//! reports them; nothing here is ever written back.

use vstd::prelude::*;

verus! {

/// The schema kind a `TypeRecord` describes.
#[derive(Clone, Copy, PartialEq, Eq, Structural, Debug)]
pub enum TypeKind {
    Artifact,
    Execution,
    Context,
}

/// A type schema registered in the store; instances reference it by `type_id`.
#[derive(PartialEq, Eq, Debug)]
pub struct TypeRecord {
    pub id: u64,
    pub kind: TypeKind,
    pub name: String,
}

impl Clone for TypeRecord {
    fn clone(&self) -> (res: Self)
        ensures
            res == *self,
    {
        TypeRecord { id: self.id, kind: self.kind, name: self.name.clone() }
    }
}

/// The lifecycle state of an artifact.
#[derive(Clone, Copy, PartialEq, Eq, Structural, Debug)]
pub enum ArtifactState {
    Unknown,
    Pending,
    Live,
    MarkedForDeletion,
    Deleted,
}

/// The lifecycle state of an execution.
#[derive(Clone, Copy, PartialEq, Eq, Structural, Debug)]
pub enum ExecutionState {
    Unknown,
    New,
    Running,
    Complete,
    Failed,
    Cached,
    Canceled,
}

/// A versioned data object tracked by the store.
#[derive(PartialEq, Eq, Debug)]
pub struct Artifact {
    pub id: u64,
    pub type_id: u64,
    pub uri: String,
    pub name: Option<String>,
    pub state: ArtifactState,
    pub create_time: u64,
    pub update_time: u64,
}

impl Clone for Artifact {
    fn clone(&self) -> (res: Self)
        ensures
            res == *self,
    {
        let res = Artifact {
            id: self.id,
            type_id: self.type_id,
            uri: self.uri.clone(),
            name: clone_opt_string(&self.name),
            state: self.state,
            create_time: self.create_time,
            update_time: self.update_time,
        };
        res
    }
}

/// A record of a single run of a computational step.
#[derive(PartialEq, Eq, Debug)]
pub struct Execution {
    pub id: u64,
    pub type_id: u64,
    pub name: Option<String>,
    pub state: ExecutionState,
    pub create_time: u64,
    pub update_time: u64,
}

impl Clone for Execution {
    fn clone(&self) -> (res: Self)
        ensures
            res == *self,
    {
        Execution {
            id: self.id,
            type_id: self.type_id,
            name: clone_opt_string(&self.name),
            state: self.state,
            create_time: self.create_time,
            update_time: self.update_time,
        }
    }
}

/// A logical grouping of artifacts and executions, such as a pipeline run.
#[derive(PartialEq, Eq, Debug)]
pub struct Context {
    pub id: u64,
    pub type_id: u64,
    pub name: String,
    pub create_time: u64,
    pub update_time: u64,
}

impl Clone for Context {
    fn clone(&self) -> (res: Self)
        ensures
            res == *self,
    {
        Context {
            id: self.id,
            type_id: self.type_id,
            name: self.name.clone(),
            create_time: self.create_time,
            update_time: self.update_time,
        }
    }
}

/// The direction and declaration status of an event.
#[derive(Clone, Copy, PartialEq, Eq, Structural, Debug)]
pub enum EventType {
    Unknown,
    DeclaredOutput,
    DeclaredInput,
    Input,
    Output,
    InternalInput,
    InternalOutput,
}

/// Whether an event of this type records an artifact consumed by an
/// execution, so that it draws an edge artifact -> execution.
pub open spec fn is_input_event(t: EventType) -> bool {
    t == EventType::Input || t == EventType::DeclaredInput || t == EventType::InternalInput
}

/// Whether an event of this type records an artifact produced by an
/// execution, so that it draws an edge execution -> artifact.
pub open spec fn is_output_event(t: EventType) -> bool {
    t == EventType::Output || t == EventType::DeclaredOutput || t == EventType::InternalOutput
}

/// A typed, timestamped fact linking one artifact to one execution.
/// Events carry no identity of their own; the store keys them by the
/// whole `(artifact_id, execution_id, event_type, timestamp)` tuple.
#[derive(Clone, Copy, PartialEq, Eq, Structural, Debug)]
pub struct Event {
    pub artifact_id: u64,
    pub execution_id: u64,
    pub event_type: EventType,
    pub timestamp: u64,
}

impl Event {
    /// Whether this event records input consumed by its execution.
    pub fn is_input(&self) -> (res: bool)
        ensures
            res == is_input_event(self.event_type),
    {
        match self.event_type {
            EventType::Input => true,
            EventType::DeclaredInput => true,
            EventType::InternalInput => true,
            _ => false,
        }
    }

    /// Whether this event records output produced by its execution.
    pub fn is_output(&self) -> (res: bool)
        ensures
            res == is_output_event(self.event_type),
    {
        match self.event_type {
            EventType::Output => true,
            EventType::DeclaredOutput => true,
            EventType::InternalOutput => true,
            _ => false,
        }
    }
}

fn clone_opt_string(s: &Option<String>) -> (res: Option<String>)
    ensures
        res == *s,
{
    match s {
        Some(v) => Some(v.clone()),
        None => None,
    }
}

} // verus!
