//! The graph serializer: renders an abstract node/edge graph as DOT text.
//!
//! Node declarations come before every edge, each node under a stable
//! identifier built from its kind and id, with a label naming the kind,
//! the id, and, for artifacts, the URI and state, or, for executions,
//! the name and state.  Label text is escaped, so the output is valid DOT
//! whatever the store holds.  The text is a function of the store and the
//! graph alone, so a fixed graph always serializes to the same bytes.

use vstd::prelude::*;
use vstd::std_specs::iter::IteratorSpec;

use crate::entity::{ArtifactState, EventType, ExecutionState};
use crate::graph::{Graph, GraphEdge, GraphNode, GraphView, NodeKind};
use crate::store::Store;

verus! {

/// The character of the decimal digit `d`.
pub open spec fn digit_char(d: int) -> char {
    if d == 0 {
        '0'
    } else if d == 1 {
        '1'
    } else if d == 2 {
        '2'
    } else if d == 3 {
        '3'
    } else if d == 4 {
        '4'
    } else if d == 5 {
        '5'
    } else if d == 6 {
        '6'
    } else if d == 7 {
        '7'
    } else if d == 8 {
        '8'
    } else {
        '9'
    }
}

/// The decimal text of `n`, most significant digit first.
pub open spec fn dec_digits(n: nat) -> Seq<char>
    decreases n,
{
    if n < 10 {
        seq![digit_char(n as int)]
    } else {
        dec_digits(n / 10).push(digit_char((n % 10) as int))
    }
}

fn digit_exec(d: u64) -> (res: char)
    requires
        d < 10,
    ensures
        res == digit_char(d as int),
{
    match d {
        0 => '0',
        1 => '1',
        2 => '2',
        3 => '3',
        4 => '4',
        5 => '5',
        6 => '6',
        7 => '7',
        8 => '8',
        _ => '9',
    }
}

fn push_decimal(out: &mut Vec<char>, n: u64)
    ensures
        final(out)@ == old(out)@ + dec_digits(n as nat),
    decreases n,
{
    if n >= 10 {
        push_decimal(out, n / 10);
    }
    out.push(digit_exec(n % 10));
    proof {
        assert(final(out)@ =~= old(out)@ + dec_digits(n as nat));
    }
}

/// Appends the characters of `s` to `out`.
#[verifier::loop_isolation(true)]
fn push_str_chars(out: &mut Vec<char>, s: &str)
    ensures
        final(out)@ == old(out)@ + s@,
{
    let mut it = s.chars();
    loop
        invariant
            it.decrease() is Some,
            out@ + it.remaining() == old(out)@ + s@,
        ensures
            out@ == old(out)@ + s@,
        decreases it.decrease().unwrap(),
    {
        match it.next() {
            Some(c) => {
                out.push(c);
                proof {
                    assert(out@ + it.remaining() =~= old(out)@ + s@);
                }
            },
            None => {
                proof {
                    assert(out@ =~= old(out)@ + s@);
                }
                break ;
            },
        }
    }
}

/// How one character is written inside a double-quoted DOT string.
pub open spec fn esc_char(c: char) -> Seq<char> {
    if c == '"' {
        seq!['\\', '"']
    } else if c == '\\' {
        seq!['\\', '\\']
    } else if c == '\n' {
        seq!['\\', 'n']
    } else {
        seq![c]
    }
}

/// `s` with every quote, backslash and newline escaped.
pub open spec fn escaped(s: Seq<char>) -> Seq<char>
    decreases s.len(),
{
    if s.len() == 0 {
        Seq::empty()
    } else {
        escaped(s.drop_last()) + esc_char(s.last())
    }
}

fn push_escaped(out: &mut Vec<char>, s: &Vec<char>)
    ensures
        final(out)@ == old(out)@ + escaped(s@),
{
    let mut i: usize = 0;
    while i < s.len()
        invariant
            i <= s@.len(),
            out@ == old(out)@ + escaped(s@.take(i as int)),
        decreases s@.len() - i,
    {
        proof {
            assert(s@.take(i + 1).drop_last() =~= s@.take(i as int));
        }
        let c = s[i];
        if c == '"' {
            out.push('\\');
            out.push('"');
        } else if c == '\\' {
            out.push('\\');
            out.push('\\');
        } else if c == '\n' {
            out.push('\\');
            out.push('n');
        } else {
            out.push(c);
        }
        proof {
            assert(out@ =~= old(out)@ + escaped(s@.take(i + 1)));
        }
        i = i + 1;
    }
    proof {
        assert(s@.take(s@.len() as int) =~= s@);
    }
}

/// The identifier prefix of a node kind.
pub open spec fn kind_prefix(k: NodeKind) -> Seq<char> {
    match k {
        NodeKind::Artifact => "artifact_"@,
        NodeKind::Execution => "execution_"@,
        NodeKind::Context => "context_"@,
    }
}

/// The stable identifier a node is declared under: its kind's prefix and
/// its id, never shared by two distinct entities.
pub open spec fn node_ident(n: GraphNode) -> Seq<char> {
    kind_prefix(n.kind) + dec_digits(n.id as nat)
}

fn push_node_ident(out: &mut Vec<char>, n: GraphNode)
    ensures
        final(out)@ == old(out)@ + node_ident(n),
{
    match n.kind {
        NodeKind::Artifact => push_str_chars(out, "artifact_"),
        NodeKind::Execution => push_str_chars(out, "execution_"),
        NodeKind::Context => push_str_chars(out, "context_"),
    }
    push_decimal(out, n.id);
    proof {
        assert(final(out)@ =~= old(out)@ + node_ident(n));
    }
}

/// The rendering shape a node kind selects.
pub open spec fn kind_shape(k: NodeKind) -> Seq<char> {
    match k {
        NodeKind::Artifact => "box"@,
        NodeKind::Execution => "ellipse"@,
        NodeKind::Context => "hexagon"@,
    }
}

/// The display name of an artifact state.
pub open spec fn artifact_state_name(st: ArtifactState) -> Seq<char> {
    match st {
        ArtifactState::Unknown => "UNKNOWN"@,
        ArtifactState::Pending => "PENDING"@,
        ArtifactState::Live => "LIVE"@,
        ArtifactState::MarkedForDeletion => "MARKED_FOR_DELETION"@,
        ArtifactState::Deleted => "DELETED"@,
    }
}

/// The display name of an execution state.
pub open spec fn execution_state_name(st: ExecutionState) -> Seq<char> {
    match st {
        ExecutionState::Unknown => "UNKNOWN"@,
        ExecutionState::New => "NEW"@,
        ExecutionState::Running => "RUNNING"@,
        ExecutionState::Complete => "COMPLETE"@,
        ExecutionState::Failed => "FAILED"@,
        ExecutionState::Cached => "CACHED"@,
        ExecutionState::Canceled => "CANCELED"@,
    }
}

/// The display name of an event type, used as an edge label.
pub open spec fn event_type_name(t: EventType) -> Seq<char> {
    match t {
        EventType::Unknown => "UNKNOWN"@,
        EventType::DeclaredOutput => "DECLARED_OUTPUT"@,
        EventType::DeclaredInput => "DECLARED_INPUT"@,
        EventType::Input => "INPUT"@,
        EventType::Output => "OUTPUT"@,
        EventType::InternalInput => "INTERNAL_INPUT"@,
        EventType::InternalOutput => "INTERNAL_OUTPUT"@,
    }
}

/// The human label of a node: its kind and id, the artifact's URI and
/// state or the execution's name and state where the store knows the
/// entity.  A context node carries its id alone: the builders here never
/// emit one, so no context lookup is kept.
pub open spec fn node_label(s: Store, n: GraphNode) -> Seq<char> {
    match n.kind {
        NodeKind::Artifact => {
            match s.artifact_by_id(n.id) {
                Some(a) => "Artifact "@ + dec_digits(n.id as nat) + ": "@ + a.uri@ + " ["@
                    + artifact_state_name(a.state) + "]"@,
                None => "Artifact "@ + dec_digits(n.id as nat),
            }
        },
        NodeKind::Execution => {
            match s.execution_by_id(n.id) {
                Some(e) => "Execution "@ + dec_digits(n.id as nat) + (match e.name {
                    Some(nm) => ": "@ + nm@,
                    None => Seq::empty(),
                }) + " ["@ + execution_state_name(e.state) + "]"@,
                None => "Execution "@ + dec_digits(n.id as nat),
            }
        },
        NodeKind::Context => "Context "@ + dec_digits(n.id as nat),
    }
}

fn push_artifact_state(out: &mut Vec<char>, st: ArtifactState)
    ensures
        final(out)@ == old(out)@ + artifact_state_name(st),
{
    match st {
        ArtifactState::Unknown => push_str_chars(out, "UNKNOWN"),
        ArtifactState::Pending => push_str_chars(out, "PENDING"),
        ArtifactState::Live => push_str_chars(out, "LIVE"),
        ArtifactState::MarkedForDeletion => push_str_chars(out, "MARKED_FOR_DELETION"),
        ArtifactState::Deleted => push_str_chars(out, "DELETED"),
    }
}

fn push_execution_state(out: &mut Vec<char>, st: ExecutionState)
    ensures
        final(out)@ == old(out)@ + execution_state_name(st),
{
    match st {
        ExecutionState::Unknown => push_str_chars(out, "UNKNOWN"),
        ExecutionState::New => push_str_chars(out, "NEW"),
        ExecutionState::Running => push_str_chars(out, "RUNNING"),
        ExecutionState::Complete => push_str_chars(out, "COMPLETE"),
        ExecutionState::Failed => push_str_chars(out, "FAILED"),
        ExecutionState::Cached => push_str_chars(out, "CACHED"),
        ExecutionState::Canceled => push_str_chars(out, "CANCELED"),
    }
}

fn push_event_type(out: &mut Vec<char>, t: EventType)
    ensures
        final(out)@ == old(out)@ + event_type_name(t),
{
    match t {
        EventType::Unknown => push_str_chars(out, "UNKNOWN"),
        EventType::DeclaredOutput => push_str_chars(out, "DECLARED_OUTPUT"),
        EventType::DeclaredInput => push_str_chars(out, "DECLARED_INPUT"),
        EventType::Input => push_str_chars(out, "INPUT"),
        EventType::Output => push_str_chars(out, "OUTPUT"),
        EventType::InternalInput => push_str_chars(out, "INTERNAL_INPUT"),
        EventType::InternalOutput => push_str_chars(out, "INTERNAL_OUTPUT"),
    }
}

#[verifier::rlimit(60)]
fn build_label(s: &Store, n: GraphNode) -> (res: Vec<char>)
    ensures
        res@ == node_label(*s, n),
{
    let mut v: Vec<char> = Vec::new();
    match n.kind {
        NodeKind::Artifact => {
            push_str_chars(&mut v, "Artifact ");
            push_decimal(&mut v, n.id);
            match s.find_artifact(n.id) {
                Some(a) => {
                    push_str_chars(&mut v, ": ");
                    push_str_chars(&mut v, a.uri.as_str());
                    push_str_chars(&mut v, " [");
                    push_artifact_state(&mut v, a.state);
                    push_str_chars(&mut v, "]");
                },
                None => {},
            }
        },
        NodeKind::Execution => {
            push_str_chars(&mut v, "Execution ");
            push_decimal(&mut v, n.id);
            match s.find_execution(n.id) {
                Some(e) => {
                    match &e.name {
                        Some(nm) => {
                            push_str_chars(&mut v, ": ");
                            push_str_chars(&mut v, nm.as_str());
                        },
                        None => {},
                    }
                    push_str_chars(&mut v, " [");
                    push_execution_state(&mut v, e.state);
                    push_str_chars(&mut v, "]");
                },
                None => {},
            }
        },
        NodeKind::Context => {
            push_str_chars(&mut v, "Context ");
            push_decimal(&mut v, n.id);
        },
    }
    proof {
        assert(v@ =~= node_label(*s, n));
    }
    v
}

/// The declaration line of one node.
pub open spec fn node_decl(s: Store, n: GraphNode) -> Seq<char> {
    "  \""@ + node_ident(n) + "\" [shape="@ + kind_shape(n.kind) + ", label=\""@ + escaped(
        node_label(s, n),
    ) + "\"];\n"@
}

/// The declaration line of one edge.
pub open spec fn edge_decl(e: GraphEdge) -> Seq<char> {
    "  \""@ + node_ident(e.from) + "\" -> \""@ + node_ident(e.to) + "\" [label=\""@
        + event_type_name(e.kind) + "\"];\n"@
}

/// The declaration lines of the nodes `ns[k..]`, in order.
pub open spec fn nodes_text(s: Store, ns: Seq<GraphNode>, k: int) -> Seq<char>
    decreases ns.len() - k,
{
    if k < 0 || k >= ns.len() {
        Seq::empty()
    } else {
        node_decl(s, ns[k]) + nodes_text(s, ns, k + 1)
    }
}

/// The declaration lines of the edges `es[k..]`, in order.
pub open spec fn edges_text(es: Seq<GraphEdge>, k: int) -> Seq<char>
    decreases es.len() - k,
{
    if k < 0 || k >= es.len() {
        Seq::empty()
    } else {
        edge_decl(es[k]) + edges_text(es, k + 1)
    }
}

/// The whole DOT document of a graph: every node declared, then every
/// edge, between a directed-graph header and its closing brace.
pub open spec fn dot_spec(s: Store, gv: GraphView) -> Seq<char> {
    "digraph {\n"@ + nodes_text(s, gv.nodes, 0) + edges_text(gv.edges, 0) + "}\n"@
}

#[verifier::rlimit(60)]
fn push_node_decl(out: &mut Vec<char>, s: &Store, n: GraphNode)
    ensures
        final(out)@ == old(out)@ + node_decl(*s, n),
{
    push_str_chars(out, "  \"");
    push_node_ident(out, n);
    push_str_chars(out, "\" [shape=");
    match n.kind {
        NodeKind::Artifact => push_str_chars(out, "box"),
        NodeKind::Execution => push_str_chars(out, "ellipse"),
        NodeKind::Context => push_str_chars(out, "hexagon"),
    }
    push_str_chars(out, ", label=\"");
    let label = build_label(s, n);
    push_escaped(out, &label);
    push_str_chars(out, "\"];\n");
    proof {
        assert(final(out)@ =~= old(out)@ + node_decl(*s, n));
    }
}

#[verifier::rlimit(60)]
fn push_edge_decl(out: &mut Vec<char>, e: GraphEdge)
    ensures
        final(out)@ == old(out)@ + edge_decl(e),
{
    push_str_chars(out, "  \"");
    push_node_ident(out, e.from);
    push_str_chars(out, "\" -> \"");
    push_node_ident(out, e.to);
    push_str_chars(out, "\" [label=\"");
    push_event_type(out, e.kind);
    push_str_chars(out, "\"];\n");
    proof {
        assert(final(out)@ =~= old(out)@ + edge_decl(e));
    }
}

/// Relies on String's `FromIterator<char>` implementation: collecting
/// characters yields the string of exactly those characters in order.
#[verifier::external_body]
fn chars_to_string(v: Vec<char>) -> (res: String)
    ensures
        res@ == v@,
{
    v.into_iter().collect()
}

/// Renders `g` against the entity data of `s` as DOT text, exactly the
/// sequence `dot_spec` describes.
pub fn to_dot(s: &Store, g: &Graph) -> (res: String)
    ensures
        res@ == dot_spec(*s, g@),
{
    let mut out: Vec<char> = Vec::new();
    push_str_chars(&mut out, "digraph {\n");
    let ghost nodes_prefix = out@;
    let mut k: usize = 0;
    while k < g.nodes.len()
        invariant
            k <= g@.nodes.len(),
            nodes_prefix == "digraph {\n"@,
            nodes_prefix + nodes_text(*s, g@.nodes, 0) == out@ + nodes_text(*s, g@.nodes, k as int),
        decreases g@.nodes.len() - k,
    {
        push_node_decl(&mut out, s, g.nodes[k]);
        proof {
            assert(nodes_prefix + nodes_text(*s, g@.nodes, 0) =~= out@ + nodes_text(
                *s,
                g@.nodes,
                k + 1,
            ));
        }
        k = k + 1;
    }
    proof {
        assert(out@ =~= nodes_prefix + nodes_text(*s, g@.nodes, 0));
    }
    let ghost edges_prefix = out@;
    let mut k2: usize = 0;
    while k2 < g.edges.len()
        invariant
            k2 <= g@.edges.len(),
            edges_prefix == "digraph {\n"@ + nodes_text(*s, g@.nodes, 0),
            edges_prefix + edges_text(g@.edges, 0) == out@ + edges_text(g@.edges, k2 as int),
        decreases g@.edges.len() - k2,
    {
        push_edge_decl(&mut out, g.edges[k2]);
        proof {
            assert(edges_prefix + edges_text(g@.edges, 0) =~= out@ + edges_text(
                g@.edges,
                k2 + 1,
            ));
        }
        k2 = k2 + 1;
    }
    proof {
        assert(out@ =~= edges_prefix + edges_text(g@.edges, 0));
    }
    push_str_chars(&mut out, "}\n");
    proof {
        assert(out@ =~= dot_spec(*s, g@));
    }
    chars_to_string(out)
}

/// Serializing the lineage of the same artifact twice against an
/// unchanged store yields byte-identical text: the document is a
/// function of store, root and depth alone.
pub proof fn lemma_lineage_dot_deterministic(
    s: Store,
    root: u64,
    depth: Option<u64>,
    t1: Seq<char>,
    t2: Seq<char>,
)
    requires
        t1 == dot_spec(s, crate::lineage::lineage_spec(s, root, depth)),
        t2 == dot_spec(s, crate::lineage::lineage_spec(s, root, depth)),
    ensures
        t1 == t2,
{
}

} // verus!
