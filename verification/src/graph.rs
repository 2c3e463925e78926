//! The decision graph: its nodes, the two ways out of each, and the order
//! in which a request passes through them.
//!
//! Every node asks one question. The answer selects one of two steps: on to
//! another node, or a halt with a status code. A few nodes can halt in a
//! further way, where a header cannot be read or the resource contradicts
//! itself.

use vstd::prelude::*;

verus! {

/// A node of the decision graph, named by its place in the diagram.
#[derive(Clone, Copy, Debug, PartialEq, Eq, Structural)]
pub enum Node {
    B13,
    B12,
    B11,
    B10,
    B9,
    B8,
    B7,
    B6,
    B5,
    B4,
    B3,
    C3,
    C4,
    D4,
    D5,
    E5,
    E6,
    F6,
    F7,
    G7,
    G8,
    G9,
    G11,
    H7,
    H10,
    H11,
    H12,
    I4,
    I7,
    I12,
    I13,
    J18,
    K5,
    K7,
    K13,
    L5,
    L7,
    L13,
    L14,
    L15,
    L17,
    M5,
    M7,
    M16,
    M20,
    N5,
    N11,
    N16,
    O14,
    O16,
    O18,
    O20,
    P3,
    P11,
}

/// What follows a node: another node, or the end with a status code.
#[derive(Clone, Copy, Debug, PartialEq, Eq, Structural)]
pub enum Step {
    To(Node),
    Stop(u16),
}

/// How far a node is from the end of the graph: every edge leads to a
/// node of lower rank.
pub open spec fn rank(n: Node) -> nat {
    match n {
        Node::B13 => 54,
        Node::B12 => 53,
        Node::B11 => 52,
        Node::B10 => 51,
        Node::B9 => 50,
        Node::B8 => 49,
        Node::B7 => 48,
        Node::B6 => 47,
        Node::B5 => 46,
        Node::B4 => 45,
        Node::B3 => 44,
        Node::C3 => 43,
        Node::C4 => 42,
        Node::D4 => 41,
        Node::D5 => 40,
        Node::E5 => 39,
        Node::E6 => 38,
        Node::F6 => 37,
        Node::F7 => 36,
        Node::G7 => 35,
        Node::G8 => 34,
        Node::G9 => 33,
        Node::G11 => 32,
        Node::H7 => 17,
        Node::H10 => 31,
        Node::H11 => 30,
        Node::H12 => 29,
        Node::I4 => 15,
        Node::I7 => 16,
        Node::I12 => 28,
        Node::I13 => 27,
        Node::J18 => 25,
        Node::K5 => 13,
        Node::K7 => 14,
        Node::K13 => 26,
        Node::L5 => 12,
        Node::L7 => 9,
        Node::L13 => 24,
        Node::L14 => 23,
        Node::L15 => 22,
        Node::L17 => 21,
        Node::M5 => 11,
        Node::M7 => 8,
        Node::M16 => 20,
        Node::M20 => 19,
        Node::N5 => 10,
        Node::N11 => 7,
        Node::N16 => 18,
        Node::O14 => 5,
        Node::O16 => 6,
        Node::O18 => 1,
        Node::O20 => 2,
        Node::P3 => 4,
        Node::P11 => 3,
    }
}

/// The diagram: the step that follows node `n` when the answer to its
/// question is `yes`, and when it is not. Where the diagram ends at O18
/// with 200, the engine sends that status with the representation.
pub open spec fn branch(n: Node, yes: bool) -> Step {
    match n {
        Node::B13 => if yes {
            Step::To(Node::B12)
        } else {
            Step::Stop(503)
        },
        Node::B12 => if yes {
            Step::To(Node::B11)
        } else {
            Step::Stop(501)
        },
        Node::B11 => if yes {
            Step::Stop(414)
        } else {
            Step::To(Node::B10)
        },
        Node::B10 => if yes {
            Step::To(Node::B9)
        } else {
            Step::Stop(405)
        },
        Node::B9 => if yes {
            Step::To(Node::B8)
        } else {
            Step::Stop(400)
        },
        Node::B8 => if yes {
            Step::To(Node::B7)
        } else {
            Step::Stop(401)
        },
        Node::B7 => if yes {
            Step::Stop(403)
        } else {
            Step::To(Node::B6)
        },
        Node::B6 => if yes {
            Step::To(Node::B5)
        } else {
            Step::Stop(501)
        },
        Node::B5 => if yes {
            Step::To(Node::B4)
        } else {
            Step::Stop(415)
        },
        Node::B4 => if yes {
            Step::To(Node::B3)
        } else {
            Step::Stop(413)
        },
        Node::B3 => if yes {
            Step::Stop(200)
        } else {
            Step::To(Node::C3)
        },
        Node::C3 => if yes {
            Step::To(Node::C4)
        } else {
            Step::To(Node::D4)
        },
        Node::C4 => if yes {
            Step::To(Node::D4)
        } else {
            Step::Stop(406)
        },
        Node::D4 => if yes {
            Step::To(Node::D5)
        } else {
            Step::To(Node::E5)
        },
        Node::D5 => if yes {
            Step::To(Node::E5)
        } else {
            Step::Stop(406)
        },
        Node::E5 => if yes {
            Step::To(Node::E6)
        } else {
            Step::To(Node::F6)
        },
        Node::E6 => if yes {
            Step::To(Node::F6)
        } else {
            Step::Stop(406)
        },
        Node::F6 => if yes {
            Step::To(Node::F7)
        } else {
            Step::To(Node::G7)
        },
        Node::F7 => if yes {
            Step::To(Node::G7)
        } else {
            Step::Stop(406)
        },
        Node::G7 => if yes {
            Step::To(Node::G8)
        } else {
            Step::To(Node::H7)
        },
        Node::G8 => if yes {
            Step::To(Node::G9)
        } else {
            Step::To(Node::H10)
        },
        Node::G9 => if yes {
            Step::To(Node::H10)
        } else {
            Step::To(Node::G11)
        },
        Node::G11 => if yes {
            Step::To(Node::H10)
        } else {
            Step::Stop(412)
        },
        Node::H7 => if yes {
            Step::Stop(412)
        } else {
            Step::To(Node::I7)
        },
        Node::H10 => if yes {
            Step::To(Node::H11)
        } else {
            Step::To(Node::I12)
        },
        Node::H11 => if yes {
            Step::To(Node::H12)
        } else {
            Step::To(Node::I12)
        },
        Node::H12 => if yes {
            Step::Stop(412)
        } else {
            Step::To(Node::I12)
        },
        Node::I4 => if yes {
            Step::Stop(301)
        } else {
            Step::To(Node::P3)
        },
        Node::I7 => if yes {
            Step::To(Node::I4)
        } else {
            Step::To(Node::K7)
        },
        Node::I12 => if yes {
            Step::To(Node::I13)
        } else {
            Step::To(Node::L13)
        },
        Node::I13 => if yes {
            Step::To(Node::J18)
        } else {
            Step::To(Node::K13)
        },
        Node::J18 => if yes {
            Step::Stop(304)
        } else {
            Step::Stop(412)
        },
        Node::K5 => if yes {
            Step::Stop(301)
        } else {
            Step::To(Node::L5)
        },
        Node::K7 => if yes {
            Step::To(Node::K5)
        } else {
            Step::To(Node::L7)
        },
        Node::K13 => if yes {
            Step::To(Node::J18)
        } else {
            Step::To(Node::L13)
        },
        Node::L5 => if yes {
            Step::Stop(307)
        } else {
            Step::To(Node::M5)
        },
        Node::L7 => if yes {
            Step::To(Node::M7)
        } else {
            Step::Stop(404)
        },
        Node::L13 => if yes {
            Step::To(Node::L14)
        } else {
            Step::To(Node::M16)
        },
        Node::L14 => if yes {
            Step::To(Node::L15)
        } else {
            Step::To(Node::M16)
        },
        Node::L15 => if yes {
            Step::To(Node::M16)
        } else {
            Step::To(Node::L17)
        },
        Node::L17 => if yes {
            Step::To(Node::M16)
        } else {
            Step::Stop(304)
        },
        Node::M5 => if yes {
            Step::To(Node::N5)
        } else {
            Step::Stop(410)
        },
        Node::M7 => if yes {
            Step::To(Node::N11)
        } else {
            Step::Stop(404)
        },
        Node::M16 => if yes {
            Step::To(Node::M20)
        } else {
            Step::To(Node::N16)
        },
        Node::M20 => if yes {
            Step::To(Node::O20)
        } else {
            Step::Stop(202)
        },
        Node::N5 => if yes {
            Step::To(Node::N11)
        } else {
            Step::Stop(410)
        },
        Node::N11 => if yes {
            Step::Stop(201)
        } else {
            Step::To(Node::O20)
        },
        Node::N16 => if yes {
            Step::To(Node::N11)
        } else {
            Step::To(Node::O16)
        },
        Node::O14 => if yes {
            Step::Stop(409)
        } else {
            Step::To(Node::P11)
        },
        Node::O16 => if yes {
            Step::To(Node::O14)
        } else {
            Step::To(Node::O18)
        },
        Node::O18 => if yes {
            Step::Stop(300)
        } else {
            Step::Stop(200)
        },
        Node::O20 => if yes {
            Step::To(Node::O18)
        } else {
            Step::Stop(204)
        },
        Node::P3 => if yes {
            Step::Stop(409)
        } else {
            Step::To(Node::P11)
        },
        Node::P11 => if yes {
            Step::Stop(201)
        } else {
            Step::To(Node::O20)
        },
    }
}

/// A status code with which node `n` can halt besides those of `branch`:
/// 400 where a header of the request cannot be read, 500 where the
/// resource fails or contradicts itself.
pub open spec fn halts_besides(n: Node, status: u16) -> bool {
    match n {
        Node::B4 => status == 400,
        Node::C3 => status == 500,
        Node::C4 => status == 400 || status == 500,
        Node::D5 => status == 400,
        Node::E6 => status == 400,
        Node::F7 => status == 400,
        Node::M20 => status == 500,
        Node::N11 => status == 500,
        Node::O14 => status == 500,
        Node::O18 => status == 500,
        Node::P3 => status == 500,
        _ => false,
    }
}

/// There is an edge from `a` to `b`.
pub open spec fn edge(a: Node, b: Node) -> bool {
    branch(a, true) == Step::To(b) || branch(a, false) == Step::To(b)
}

/// Node `n` can halt with `status`.
pub open spec fn may_halt(n: Node, status: u16) -> bool {
    branch(n, true) == Step::Stop(status) || branch(n, false) == Step::Stop(status)
        || halts_besides(n, status)
}

/// A walk through the graph: each node is joined to the next by an edge.
pub open spec fn is_walk(path: Seq<Node>) -> bool {
    forall|i: int| 0 <= i < path.len() - 1 ==> edge(#[trigger] path[i], path[i + 1])
}

/// Every edge leads forward: to a node of lower rank.
pub proof fn lemma_edge_descends(a: Node, b: Node)
    requires
        edge(a, b),
    ensures
        rank(b) < rank(a),
{
}

/// Whatever the answer, the step that the diagram takes from a node is an
/// edge of the graph or one of the node's halts.
pub proof fn lemma_branch_stays_in_diagram(n: Node, yes: bool)
    ensures
        match branch(n, yes) {
            Step::To(m) => edge(n, m) && rank(m) < rank(n),
            Step::Stop(s) => may_halt(n, s),
        },
{
}

/// Ranks run from 1 to the number of nodes.
pub proof fn lemma_rank_bounds(n: Node)
    ensures
        1 <= rank(n) <= 54,
{
}

/// Along a walk the rank falls by at least one with every edge.
pub proof fn lemma_walk_descends(path: Seq<Node>)
    requires
        is_walk(path),
        path.len() >= 1,
    ensures
        rank(path.last()) + path.len() - 1 <= rank(path[0]),
    decreases path.len(),
{
    if path.len() >= 2 {
        let shorter = path.drop_last();
        assert(is_walk(shorter)) by {
            assert forall|i: int| 0 <= i < shorter.len() - 1 implies edge(
                #[trigger] shorter[i],
                shorter[i + 1],
            ) by {
                assert(edge(path[i], path[i + 1]));
            }
        }
        lemma_walk_descends(shorter);
        assert(edge(path[path.len() - 2], path[path.len() - 2 + 1]));
        lemma_edge_descends(path[path.len() - 2], path.last());
    }
}

/// The graph has no cycle: no walk of one edge or more comes back to the
/// node it started from, so no node both precedes and succeeds itself.
pub proof fn lemma_graph_is_acyclic(path: Seq<Node>)
    requires
        is_walk(path),
        path.len() >= 2,
    ensures
        path.last() != path[0],
        path.len() <= 54,
{
    let first = path[0];
    let last = path.last();
    assert(rank(last) + path.len() - 1 <= rank(first)) by {
        lemma_walk_descends(path);
    }
    assert(1 <= rank(last) && rank(first) <= 54) by {
        lemma_rank_bounds(first);
        lemma_rank_bounds(last);
    }
}

/// The step that follows node `n` on the answer `yes`.
pub fn take_branch(n: Node, yes: bool) -> (r: Step)
    ensures
        r == branch(n, yes),
{
    match n {
        Node::B13 => if yes {
            Step::To(Node::B12)
        } else {
            Step::Stop(503)
        },
        Node::B12 => if yes {
            Step::To(Node::B11)
        } else {
            Step::Stop(501)
        },
        Node::B11 => if yes {
            Step::Stop(414)
        } else {
            Step::To(Node::B10)
        },
        Node::B10 => if yes {
            Step::To(Node::B9)
        } else {
            Step::Stop(405)
        },
        Node::B9 => if yes {
            Step::To(Node::B8)
        } else {
            Step::Stop(400)
        },
        Node::B8 => if yes {
            Step::To(Node::B7)
        } else {
            Step::Stop(401)
        },
        Node::B7 => if yes {
            Step::Stop(403)
        } else {
            Step::To(Node::B6)
        },
        Node::B6 => if yes {
            Step::To(Node::B5)
        } else {
            Step::Stop(501)
        },
        Node::B5 => if yes {
            Step::To(Node::B4)
        } else {
            Step::Stop(415)
        },
        Node::B4 => if yes {
            Step::To(Node::B3)
        } else {
            Step::Stop(413)
        },
        Node::B3 => if yes {
            Step::Stop(200)
        } else {
            Step::To(Node::C3)
        },
        Node::C3 => if yes {
            Step::To(Node::C4)
        } else {
            Step::To(Node::D4)
        },
        Node::C4 => if yes {
            Step::To(Node::D4)
        } else {
            Step::Stop(406)
        },
        Node::D4 => if yes {
            Step::To(Node::D5)
        } else {
            Step::To(Node::E5)
        },
        Node::D5 => if yes {
            Step::To(Node::E5)
        } else {
            Step::Stop(406)
        },
        Node::E5 => if yes {
            Step::To(Node::E6)
        } else {
            Step::To(Node::F6)
        },
        Node::E6 => if yes {
            Step::To(Node::F6)
        } else {
            Step::Stop(406)
        },
        Node::F6 => if yes {
            Step::To(Node::F7)
        } else {
            Step::To(Node::G7)
        },
        Node::F7 => if yes {
            Step::To(Node::G7)
        } else {
            Step::Stop(406)
        },
        Node::G7 => if yes {
            Step::To(Node::G8)
        } else {
            Step::To(Node::H7)
        },
        Node::G8 => if yes {
            Step::To(Node::G9)
        } else {
            Step::To(Node::H10)
        },
        Node::G9 => if yes {
            Step::To(Node::H10)
        } else {
            Step::To(Node::G11)
        },
        Node::G11 => if yes {
            Step::To(Node::H10)
        } else {
            Step::Stop(412)
        },
        Node::H7 => if yes {
            Step::Stop(412)
        } else {
            Step::To(Node::I7)
        },
        Node::H10 => if yes {
            Step::To(Node::H11)
        } else {
            Step::To(Node::I12)
        },
        Node::H11 => if yes {
            Step::To(Node::H12)
        } else {
            Step::To(Node::I12)
        },
        Node::H12 => if yes {
            Step::Stop(412)
        } else {
            Step::To(Node::I12)
        },
        Node::I4 => if yes {
            Step::Stop(301)
        } else {
            Step::To(Node::P3)
        },
        Node::I7 => if yes {
            Step::To(Node::I4)
        } else {
            Step::To(Node::K7)
        },
        Node::I12 => if yes {
            Step::To(Node::I13)
        } else {
            Step::To(Node::L13)
        },
        Node::I13 => if yes {
            Step::To(Node::J18)
        } else {
            Step::To(Node::K13)
        },
        Node::J18 => if yes {
            Step::Stop(304)
        } else {
            Step::Stop(412)
        },
        Node::K5 => if yes {
            Step::Stop(301)
        } else {
            Step::To(Node::L5)
        },
        Node::K7 => if yes {
            Step::To(Node::K5)
        } else {
            Step::To(Node::L7)
        },
        Node::K13 => if yes {
            Step::To(Node::J18)
        } else {
            Step::To(Node::L13)
        },
        Node::L5 => if yes {
            Step::Stop(307)
        } else {
            Step::To(Node::M5)
        },
        Node::L7 => if yes {
            Step::To(Node::M7)
        } else {
            Step::Stop(404)
        },
        Node::L13 => if yes {
            Step::To(Node::L14)
        } else {
            Step::To(Node::M16)
        },
        Node::L14 => if yes {
            Step::To(Node::L15)
        } else {
            Step::To(Node::M16)
        },
        Node::L15 => if yes {
            Step::To(Node::M16)
        } else {
            Step::To(Node::L17)
        },
        Node::L17 => if yes {
            Step::To(Node::M16)
        } else {
            Step::Stop(304)
        },
        Node::M5 => if yes {
            Step::To(Node::N5)
        } else {
            Step::Stop(410)
        },
        Node::M7 => if yes {
            Step::To(Node::N11)
        } else {
            Step::Stop(404)
        },
        Node::M16 => if yes {
            Step::To(Node::M20)
        } else {
            Step::To(Node::N16)
        },
        Node::M20 => if yes {
            Step::To(Node::O20)
        } else {
            Step::Stop(202)
        },
        Node::N5 => if yes {
            Step::To(Node::N11)
        } else {
            Step::Stop(410)
        },
        Node::N11 => if yes {
            Step::Stop(201)
        } else {
            Step::To(Node::O20)
        },
        Node::N16 => if yes {
            Step::To(Node::N11)
        } else {
            Step::To(Node::O16)
        },
        Node::O14 => if yes {
            Step::Stop(409)
        } else {
            Step::To(Node::P11)
        },
        Node::O16 => if yes {
            Step::To(Node::O14)
        } else {
            Step::To(Node::O18)
        },
        Node::O18 => if yes {
            Step::Stop(300)
        } else {
            Step::Stop(200)
        },
        Node::O20 => if yes {
            Step::To(Node::O18)
        } else {
            Step::Stop(204)
        },
        Node::P3 => if yes {
            Step::Stop(409)
        } else {
            Step::To(Node::P11)
        },
        Node::P11 => if yes {
            Step::Stop(201)
        } else {
            Step::To(Node::O20)
        },
    }
}

} // verus!
