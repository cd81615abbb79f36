//! Airflow network: the bookkeeping of the pressure network's nodes and
//! equations, and hybrid ventilation (choosing between natural and
//! mechanical ventilation).

use vstd::prelude::*;

verus! {

/// Node type in the airflow network.
#[derive(Debug, Clone, Copy, PartialEq, Eq, Structural)]
pub enum NodeType {
    /// Internal node with unknown pressure (solved by the network).
    Internal,
    /// External node with known pressure (boundary condition).
    External,
}

/// The number of internal nodes among `types`.
pub open spec fn internal_count(types: Seq<NodeType>) -> nat
    decreases types.len(),
{
    if types.len() == 0 {
        0
    } else {
        internal_count(types.drop_last()) + if types.last() == NodeType::Internal {
            1nat
        } else {
            0nat
        }
    }
}

/// `indices` lists, in ascending order, exactly the positions of the
/// internal nodes among `types`.
pub open spec fn lists_internal_nodes(types: Seq<NodeType>, indices: Seq<usize>) -> bool {
    &&& forall|k: int|
        0 <= k < indices.len() ==> #[trigger] indices[k] < types.len() && types[indices[k] as int]
            == NodeType::Internal
    &&& forall|k1: int, k2: int|
        0 <= k1 < k2 < indices.len() ==> #[trigger] indices[k1] < #[trigger] indices[k2]
    &&& forall|i: int|
        0 <= i < types.len() && #[trigger] types[i] == NodeType::Internal ==> exists|k: int|
            0 <= k < indices.len() && indices[k] == i
}

proof fn lemma_internal_count_step(types: Seq<NodeType>, i: int)
    requires
        0 <= i < types.len(),
    ensures
        internal_count(types.subrange(0, i + 1)) == internal_count(types.subrange(0, i)) + if types[i]
            == NodeType::Internal {
            1nat
        } else {
            0nat
        },
{
    assert(types.subrange(0, i + 1).drop_last() =~= types.subrange(0, i));
}

/// Number of internal (unknown pressure) nodes.
pub fn num_internal_nodes(types: &[NodeType]) -> (n: usize)
    ensures
        n == internal_count(types@),
{
    let mut n: usize = 0;
    let mut i: usize = 0;
    while i < types.len()
        invariant
            i <= types.len(),
            n == internal_count(types@.subrange(0, i as int)),
            n <= i,
        decreases types.len() - i,
    {
        proof {
            lemma_internal_count_step(types@, i as int);
        }
        if types[i] == NodeType::Internal {
            n = n + 1;
        }
        i = i + 1;
    }
    assert(types@.subrange(0, types.len() as int) =~= types@);
    n
}

/// Indices of internal nodes, in ascending order; there are
/// `internal_count` of them.
pub fn internal_node_indices(types: &[NodeType]) -> (r: Vec<usize>)
    ensures
        lists_internal_nodes(types@, r@),
        r.len() == internal_count(types@),
{
    let mut r: Vec<usize> = Vec::new();
    let mut i: usize = 0;
    while i < types.len()
        invariant
            i <= types.len(),
            r.len() == internal_count(types@.subrange(0, i as int)),
            forall|k: int|
                0 <= k < r.len() ==> #[trigger] r@[k] < i && types@[r@[k] as int]
                    == NodeType::Internal,
            forall|k1: int, k2: int| 0 <= k1 < k2 < r.len() ==> #[trigger] r@[k1] < #[trigger] r@[k2],
            forall|j: int|
                0 <= j < i && #[trigger] types@[j] == NodeType::Internal ==> exists|k: int|
                    0 <= k < r.len() && r@[k] == j,
        decreases types.len() - i,
    {
        proof {
            lemma_internal_count_step(types@, i as int);
        }
        if types[i] == NodeType::Internal {
            let ghost before = r@;
            r.push(i);
            proof {
                assert forall|j: int|
                    0 <= j < i + 1 && #[trigger] types@[j] == NodeType::Internal implies exists|k: int|
                    0 <= k < r.len() && r@[k] == j by {
                    if j == i {
                        assert(r@[r.len() - 1] == j);
                    } else {
                        let k = choose|k: int| 0 <= k < before.len() && before[k] == j;
                        assert(r@[k] == j);
                    }
                }
            }
        }
        i = i + 1;
    }
    assert(types@.subrange(0, types.len() as int) =~= types@);
    r
}

/// `map` gives the node listed at position `e` of `internal` the
/// equation number `e`, and every node it numbers is listed there.
pub open spec fn numbers_equations(map: Seq<Option<usize>>, internal: Seq<usize>) -> bool {
    &&& forall|k: int| 0 <= k < internal.len() ==> map[#[trigger] internal[k] as int] == Some(k as usize)
    &&& forall|i: int|
        0 <= i < map.len() && (#[trigger] map[i]) is Some ==> map[i]->0 < internal.len()
            && internal[map[i]->0 as int] == i
}

/// The equation number of each node: `Some(e)` for the internal node listed
/// at position `e` of `internal`, `None` for every other node. The solver
/// writes one flow balance equation per internal node.
pub fn node_to_equation(node_count: usize, internal: &[usize]) -> (r: Vec<Option<usize>>)
    requires
        forall|k: int| 0 <= k < internal.len() ==> #[trigger] internal[k] < node_count,
        forall|k1: int, k2: int|
            0 <= k1 < k2 < internal.len() ==> #[trigger] internal[k1] != #[trigger] internal[k2],
    ensures
        r.len() == node_count,
        numbers_equations(r@, internal@),
{
    let mut r: Vec<Option<usize>> = Vec::new();
    let mut i: usize = 0;
    while i < node_count
        invariant
            i <= node_count,
            r.len() == i,
            forall|j: int| 0 <= j < i ==> #[trigger] r@[j] is None,
        decreases node_count - i,
    {
        r.push(None);
        i = i + 1;
    }
    let mut eq: usize = 0;
    while eq < internal.len()
        invariant
            eq <= internal.len(),
            r.len() == node_count,
            forall|k: int| 0 <= k < internal.len() ==> #[trigger] internal[k] < node_count,
            forall|k1: int, k2: int|
                0 <= k1 < k2 < internal.len() ==> #[trigger] internal[k1] != #[trigger] internal[k2],
            forall|k: int| 0 <= k < eq ==> r@[#[trigger] internal[k] as int] == Some(k as usize),
            forall|j: int|
                0 <= j < node_count && (#[trigger] r@[j]) is Some ==> r@[j]->0 < eq
                    && internal[r@[j]->0 as int] == j,
        decreases internal.len() - eq,
    {
        let node = internal[eq];
        r.set(node, Some(eq));
        proof {
            assert forall|k: int| 0 <= k < eq + 1 implies r@[#[trigger] internal[k] as int] == Some(
                k as usize,
            ) by {
                if k < eq {
                    assert(internal[k] != internal[eq as int]);
                }
            }
        }
        eq = eq + 1;
    }
    r
}

/// Exactly the internal nodes get a flow balance equation: numbering the
/// listed internal nodes of a network leaves every external node without
/// an equation and gives every internal node one.
pub proof fn lemma_equations_are_internal_nodes(
    types: Seq<NodeType>,
    internal: Seq<usize>,
    map: Seq<Option<usize>>,
)
    requires
        lists_internal_nodes(types, internal),
        map.len() == types.len(),
        numbers_equations(map, internal),
    ensures
        forall|i: int| 0 <= i < types.len() ==> ((#[trigger] map[i]) is Some <==> types[i] == NodeType::Internal),
{
    assert forall|i: int| 0 <= i < types.len() implies ((#[trigger] map[i]) is Some <==> types[i]
        == NodeType::Internal) by {
        if types[i] == NodeType::Internal {
            let k = choose|k: int| 0 <= k < internal.len() && internal[k] == i;
            assert(map[internal[k] as int] == Some(k as usize));
        }
        if map[i] is Some {
            let e = map[i]->0 as int;
            assert(internal[e] == i);
            assert(types[internal[e] as int] == NodeType::Internal);
        }
    }
}

/// Ventilation operating mode.
#[derive(Debug, Clone, Copy, PartialEq, Eq, Structural)]
pub enum HybridVentMode {
    /// Windows open, mechanical systems off.
    Natural,
    /// Windows closed, mechanical HVAC active.
    Mechanical,
    /// Both natural and mechanical operating simultaneously.
    Hybrid,
}

/// The ventilation mode for the given availability of natural ventilation
/// (allowed by its schedule, with favorable outdoor conditions) and of the
/// mechanical system:
/// - natural ventilation viable: `Hybrid` if the mechanical system is also
///   available, otherwise `Natural`;
/// - not viable: `Mechanical` if the mechanical system is available,
///   otherwise `Natural` as the passive fallback.
pub fn vent_mode_for(natural_favorable: bool, hvac_available: bool) -> (r: HybridVentMode)
    ensures
        r == if natural_favorable && hvac_available {
            HybridVentMode::Hybrid
        } else if !natural_favorable && hvac_available {
            HybridVentMode::Mechanical
        } else {
            HybridVentMode::Natural
        },
{
    match (natural_favorable, hvac_available) {
        (true, true) => HybridVentMode::Hybrid,
        (true, false) => HybridVentMode::Natural,
        (false, true) => HybridVentMode::Mechanical,
        (false, false) => HybridVentMode::Natural,
    }
}


/// Terrain category for wind profile calculations.
#[derive(Debug, Clone, Copy, PartialEq, Eq, Structural)]
pub enum TerrainCategory {
    /// Dense urban center (alpha=0.33, delta=460m).
    City,
    /// Suburban / wooded areas (alpha=0.22, delta=370m).
    Suburbs,
    /// Open terrain with few obstructions (alpha=0.14, delta=270m).
    OpenField,
    /// Flat, unobstructed coast or water (alpha=0.10, delta=210m).
    Ocean,
}

} // verus!
