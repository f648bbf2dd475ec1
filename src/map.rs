use vstd::prelude::*;
use vstd::arithmetic::div_mod::{
    lemma_add_mod_noop_right, lemma_mod_add_multiples_vanish, lemma_small_mod,
};

verus! {

/// Position of a node in a road map.
pub type RoadIndex = usize;

/// One road of the network and the roads that may follow it.
#[derive(Debug)]
pub struct RoadNode<R> {
    pub road: R,
    pub next: Vec<RoadIndex>,
}

/// Why a list of nodes does not form a road map.
#[derive(Debug, PartialEq, Eq, Structural)]
pub enum RoadMapError {
    NoRoadsPresent,
    DeadEndPresent,
    NextIndexOutOfBounds,
}

/// A non-empty directed graph of roads in which every node has a successor
/// and every successor index names a node of the map.
#[derive(Debug)]
pub struct RoadMap<R> {
    nodes: Vec<RoadNode<R>>,
}

impl<R> RoadMap<R> {
    #[verifier::type_invariant]
    spec fn inv(&self) -> bool {
        valid_lists(successor_lists(self.nodes@))
    }
}

/// The successor lists of a sequence of nodes.
pub open spec fn successor_lists<R>(nodes: Seq<RoadNode<R>>) -> Seq<Seq<RoadIndex>> {
    nodes.map_values(|n: RoadNode<R>| n.next@)
}

/// A successor list is acceptable in a graph of `count` nodes.
pub open spec fn node_ok(next: Seq<RoadIndex>, count: nat) -> bool {
    &&& next.len() > 0
    &&& forall|j: int| 0 <= j < next.len() ==> next[j] < count
}

/// The error that the first unacceptable successor list in `lists[from..]` gives.
pub open spec fn first_node_error(lists: Seq<Seq<RoadIndex>>, from: int) -> Option<RoadMapError>
    decreases lists.len() - from,
{
    if from < 0 || from >= lists.len() {
        None
    } else if lists[from].len() == 0 {
        Some(RoadMapError::DeadEndPresent)
    } else if !node_ok(lists[from], lists.len()) {
        Some(RoadMapError::NextIndexOutOfBounds)
    } else {
        first_node_error(lists, from + 1)
    }
}

/// The error, if any, that validating these successor lists reports: an empty
/// map first, then the first node, in order, that is a dead end or names a
/// node outside the map.
pub open spec fn validation_error(lists: Seq<Seq<RoadIndex>>) -> Option<RoadMapError> {
    if lists.len() == 0 {
        Some(RoadMapError::NoRoadsPresent)
    } else {
        first_node_error(lists, 0)
    }
}

/// The successor lists form a valid road map.
pub open spec fn valid_lists(lists: Seq<Seq<RoadIndex>>) -> bool {
    &&& lists.len() > 0
    &&& forall|i: int| 0 <= i < lists.len() ==> node_ok(#[trigger] lists[i], lists.len())
}

proof fn lemma_first_node_error(lists: Seq<Seq<RoadIndex>>, from: int)
    requires
        0 <= from <= lists.len(),
    ensures
        first_node_error(lists, from) is None <==> forall|i: int|
            from <= i < lists.len() ==> node_ok(#[trigger] lists[i], lists.len()),
    decreases lists.len() - from,
{
    if from < lists.len() {
        lemma_first_node_error(lists, from + 1);
        if first_node_error(lists, from) is None {
            assert forall|i: int| from <= i < lists.len() implies node_ok(
                #[trigger] lists[i],
                lists.len(),
            ) by {
                if i > from {
                }
            }
        }
    }
}

/// Validation reports no error exactly when the lists form a valid map.
pub proof fn lemma_validation_error_iff_invalid(lists: Seq<Seq<RoadIndex>>)
    ensures
        validation_error(lists) is None <==> valid_lists(lists),
{
    if lists.len() > 0 {
        lemma_first_node_error(lists, 0);
    }
}

proof fn lemma_first_node_error_at(lists: Seq<Seq<RoadIndex>>, from: int, i: int)
    requires
        0 <= from <= i < lists.len(),
        forall|k: int| from <= k < i ==> node_ok(#[trigger] lists[k], lists.len()),
        !node_ok(lists[i], lists.len()),
    ensures
        first_node_error(lists, from) == (if lists[i].len() == 0 {
            Some(RoadMapError::DeadEndPresent)
        } else {
            Some(RoadMapError::NextIndexOutOfBounds)
        }),
    decreases i - from,
{
    if from < i {
        lemma_first_node_error_at(lists, from + 1, i);
    }
}

/// Validation of a list of nodes reports an empty list as `NoRoadsPresent`;
/// otherwise it reports the first node that is not acceptable: as
/// `DeadEndPresent` if it has no successor, as `NextIndexOutOfBounds` if a
/// successor index is not below the number of nodes.
pub proof fn lemma_validation_reports(lists: Seq<Seq<RoadIndex>>, i: int)
    requires
        0 <= i < lists.len(),
        forall|k: int| 0 <= k < i ==> node_ok(#[trigger] lists[k], lists.len()),
    ensures
        validation_error(Seq::<Seq<RoadIndex>>::empty()) == Some(RoadMapError::NoRoadsPresent),
        lists[i].len() == 0 ==> validation_error(lists) == Some(RoadMapError::DeadEndPresent),
        lists[i].len() > 0 && (exists|j: int| 0 <= j < lists[i].len() && lists[i][j] >= lists.len())
            ==> validation_error(lists) == Some(RoadMapError::NextIndexOutOfBounds),
{
    if !node_ok(lists[i], lists.len()) {
        lemma_first_node_error_at(lists, 0, i);
    }
}

impl<R> RoadMap<R> {
    /// The nodes of the map, in index order.
    pub closed spec fn node_seq(&self) -> Seq<RoadNode<R>> {
        self.nodes@
    }

    /// The successor list of each node, in order.
    pub open spec fn lists(&self) -> Seq<Seq<RoadIndex>> {
        successor_lists(self.node_seq())
    }

    /// The road of each node, in order.
    pub open spec fn roads(&self) -> Seq<R> {
        self.node_seq().map_values(|n: RoadNode<R>| n.road)
    }

    pub open spec fn len(&self) -> nat {
        self.node_seq().len()
    }

    /// The node reached from `i` by taking the first successor.
    pub open spec fn successor(&self, i: RoadIndex) -> RoadIndex {
        self.lists()[i as int][0]
    }

    /// The node reached from `i` after `k` steps along first successors.
    pub open spec fn advanced(&self, i: RoadIndex, k: nat) -> RoadIndex
        decreases k,
    {
        if k == 0 {
            i
        } else {
            self.successor(self.advanced(i, (k - 1) as nat))
        }
    }

    /// Builds a map from its nodes, checking that the graph is non-empty, has
    /// no dead end, and that every successor index is in range.
    pub fn new(nodes: Vec<RoadNode<R>>) -> (r: Result<Self, RoadMapError>)
        ensures
            validation_error(successor_lists(nodes@)) is None <==> r is Ok,
            r matches Err(e) ==> validation_error(successor_lists(nodes@)) == Some(e),
            r matches Ok(m) ==> m.node_seq() == nodes@,
    {
        let ghost lists = successor_lists(nodes@);
        proof {
            lemma_validation_error_iff_invalid(lists);
        }
        if nodes.len() == 0 {
            return Err(RoadMapError::NoRoadsPresent);
        }
        let count = nodes.len();
        let mut i: usize = 0;
        while i < count
            invariant
                count == nodes.len(),
                lists == successor_lists(nodes@),
                0 <= i <= count,
                count > 0,
                validation_error(lists) is None <==> valid_lists(lists),
                first_node_error(lists, 0) == first_node_error(lists, i as int),
                forall|k: int| 0 <= k < i ==> node_ok(#[trigger] lists[k], count as nat),
            decreases count - i,
        {
            let next = &nodes[i].next;
            assert(next@ == lists[i as int]);
            if next.len() == 0 {
                return Err(RoadMapError::DeadEndPresent);
            }
            let mut j: usize = 0;
            while j < next.len()
                invariant
                    lists == successor_lists(nodes@),
                    count == lists.len(),
                    i < count,
                    first_node_error(lists, 0) == first_node_error(lists, i as int),
                    validation_error(lists) is None <==> valid_lists(lists),
                    next@ == lists[i as int],
                    0 <= j <= next.len(),
                    forall|t: int| 0 <= t < j ==> next@[t] < count,
                decreases next.len() - j,
            {
                if next[j] >= count {
                    assert(!node_ok(lists[i as int], lists.len()));
                    return Err(RoadMapError::NextIndexOutOfBounds);
                }
                j += 1;
            }
            assert(node_ok(lists[i as int], lists.len()));
            i += 1;
        }
        proof {
            lemma_first_node_error(lists, 0);
        }
        Ok(RoadMap { nodes })
    }

    /// The road of node `id`.
    pub fn get_road_by_id(&self, id: RoadIndex) -> (r: &R)
        requires
            id < self.len(),
        ensures
            *r == self.roads()[id as int],
    {
        &self.nodes[id].road
    }

    /// The successors of node `id`, first successor first.
    pub fn get_next_roads(&self, id: RoadIndex) -> (r: &[RoadIndex])
        requires
            id < self.len(),
        ensures
            r@ == self.lists()[id as int],
            node_ok(r@, self.len()),
    {
        proof {
            use_type_invariant(self);
            assert(self.lists().len() == self.len());
            assert(node_ok(self.lists()[id as int], self.lists().len()));
        }
        self.nodes[id].next.as_slice()
    }

    /// The number of nodes.
    pub fn get_amount_of_roads(&self) -> (r: usize)
        ensures
            r == self.len(),
            r > 0,
    {
        proof {
            use_type_invariant(self);
        }
        self.nodes.len()
    }

    /// The roads of all nodes, in index order.
    pub fn get_roads(&self) -> (r: Vec<&R>)
        ensures
            r@.len() == self.len(),
            forall|i: int| 0 <= i < r@.len() ==> *r@[i] == self.roads()[i],
    {
        let mut out: Vec<&R> = Vec::new();
        let mut i: usize = 0;
        while i < self.nodes.len()
            invariant
                0 <= i <= self.nodes.len(),
                out@.len() == i,
                forall|k: int| 0 <= k < i ==> *out@[k] == self.roads()[k],
            decreases self.nodes.len() - i,
        {
            out.push(&self.nodes[i].road);
            i += 1;
        }
        out
    }
}

/// On a ring whose node `i` leads first to node `(i + 1) mod n`, taking `k`
/// first successors from node `s` ends on node `(s + k) mod n`; after `n`
/// steps the walk is back on its starting node.
pub proof fn lemma_ring_traversal<R>(m: RoadMap<R>, s: RoadIndex, k: nat)
    requires
        s < m.len(),
        forall|i: int|
            0 <= i < m.len() ==> (#[trigger] m.lists()[i]).len() > 0 && m.lists()[i][0] == (i + 1)
                % (m.len() as int),
    ensures
        m.advanced(s, k) == (s + k) % (m.len() as int),
        m.advanced(s, m.len()) == s,
{
    let n = m.len() as int;
    lemma_ring_traversal_full(m, s, k);
    lemma_ring_traversal_full(m, s, m.len());
    lemma_mod_add_multiples_vanish(s as int, n);
    lemma_small_mod(s as nat, n as nat);
}

proof fn lemma_ring_traversal_full<R>(m: RoadMap<R>, s: RoadIndex, k: nat)
    requires
        s < m.len(),
        forall|i: int|
            0 <= i < m.len() ==> (#[trigger] m.lists()[i]).len() > 0 && m.lists()[i][0] == (i + 1)
                % (m.len() as int),
    ensures
        m.advanced(s, k) == (s + k) % (m.len() as int),
    decreases k,
{
    let n = m.len() as int;
    if k > 0 {
        lemma_ring_traversal_full(m, s, (k - 1) as nat);
        let prev = m.advanced(s, (k - 1) as nat) as int;
        assert(0 <= prev < n);
        assert(m.lists()[prev][0] == (prev + 1) % n);
        lemma_add_mod_noop_right(1, s + k - 1, n);
        assert(prev + 1 == 1 + prev);
        assert(m.advanced(s, k) == m.successor(prev as RoadIndex));
    } else {
        lemma_small_mod(s as nat, n as nat);
    }
}

} // verus!
