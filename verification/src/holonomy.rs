//! Zero-holonomy consensus inside signal chain rooms.
//!
//! A room tracks edges (connections between tiles) and vertices (tiles) and
//! computes the Betti number β₁ = E − V + C, which tells whether the room is
//! under-constrained (β₁ < V − 2), exactly rigid (β₁ = V − 2, Laman's
//! theorem) or emergent (β₁ > V − 2).

use vstd::prelude::*;

verus! {

/// Holonomy room status.
#[derive(Debug, Clone, PartialEq)]
pub enum HolonomyStatus {
    /// Room is verified — all tiles have zero holonomy
    Verified,
    /// Room has hypotheses pending (non-trivial holonomy)
    Pending(Vec<usize>),
    /// Room has inconsistent tiles (holonomy != identity)
    Inconsistent(Vec<usize>),
    /// Room is emergent — β₁ > V - 2, new structure forming
    Emergent { beta: isize, threshold: isize },
}

/// Betti number result — computed from room edge/vertex counts.
#[derive(Debug, Clone)]
pub struct BettiResult {
    /// β₁ = E - V + C
    pub beta: isize,
    /// Number of edges in the room graph
    pub edge_count: usize,
    /// Number of vertices (tiles) in the room
    pub vertex_count: usize,
    /// Number of connected components
    pub component_count: usize,
    /// Whether the room is rigid (β₁ = V - 2)
    pub is_rigid: bool,
    /// Whether emergence is detected (β₁ > V - 2)
    pub has_emergence: bool,
}

/// The counts for which β₁ = E − V + C and V − 2 are machine integers.
pub open spec fn betti_in_range(e: int, v: int, c: int) -> bool {
    &&& 0 <= e <= isize::MAX
    &&& 0 <= v <= isize::MAX
    &&& 0 <= c <= isize::MAX
    &&& e - v + c <= isize::MAX
}

/// The Betti result of `e` edges, `v` vertices and `c` components.
pub open spec fn betti_of(e: usize, v: usize, c: usize) -> BettiResult {
    let beta = e - v + c;
    let threshold = v - 2;
    BettiResult {
        beta: beta as isize,
        edge_count: e,
        vertex_count: v,
        component_count: c,
        is_rigid: beta == threshold,
        has_emergence: beta > threshold,
    }
}

/// The Laman count of a Betti result: the edges that 2V − 3 asks for, the edges there are,
/// and whether the two agree.
pub open spec fn laman_of(b: BettiResult) -> (usize, usize, bool) {
    let expected: int = if b.vertex_count >= 2 { 2 * b.vertex_count - 3 } else { 0 };
    (expected as usize, b.edge_count, expected == b.edge_count)
}

impl BettiResult {
    /// Compute Betti number from edge count, vertex count, component count.
    ///
    /// Formula: β₁ = E - V + C
    pub fn compute(edge_count: usize, vertex_count: usize, component_count: usize) -> (r: Self)
        requires
            betti_in_range(edge_count as int, vertex_count as int, component_count as int),
        ensures
            r == betti_of(edge_count, vertex_count, component_count),
            r.beta == edge_count - vertex_count + component_count,
    {
        let beta = (edge_count as isize) - (vertex_count as isize) + (component_count as isize);
        let threshold = (vertex_count as isize) - 2;
        let is_rigid = beta == threshold;
        let has_emergence = beta > threshold;
        BettiResult { beta, edge_count, vertex_count, component_count, is_rigid, has_emergence }
    }

    /// Laman's theorem check: E = 2V - 3.
    ///
    /// If this holds, the graph is exactly rigid (no under/over constraint).
    pub fn laman_check(&self) -> (r: (usize, usize, bool))
        requires
            self.vertex_count >= 2 ==> 2 * self.vertex_count <= usize::MAX,
        ensures
            r == laman_of(*self),
    {
        let expected = if self.vertex_count >= 2 {
            2 * self.vertex_count - 3
        } else {
            0
        };
        (expected, self.edge_count, expected == self.edge_count)
    }
}

/// A room is never both exactly rigid and emergent; for a connected room with
/// at least two tiles it is rigid exactly when Laman's count E = 2V − 3 holds.
pub proof fn law_rigid_is_laman(e: usize, v: usize, c: usize)
    requires
        betti_in_range(e as int, v as int, c as int),
    ensures
        !(betti_of(e, v, c).is_rigid && betti_of(e, v, c).has_emergence),
        c == 1 && v >= 2 ==> (betti_of(e, v, c).is_rigid <==> laman_of(betti_of(e, v, c)).2),
{
}

/// The model of a holonomy room: its name, and how many edges, snaps
/// (verified tiles) and inferences (unverified tiles) it holds.
pub struct RoomView {
    pub name: Seq<char>,
    pub edges: nat,
    pub snaps: nat,
    pub inferences: nat,
}

/// The number of tiles of a room.
pub open spec fn vertices_of(r: RoomView) -> nat {
    r.snaps + r.inferences
}

/// The counts of a room for which its Betti number is a machine integer.
pub open spec fn room_in_range(r: RoomView) -> bool {
    betti_in_range(r.edges as int, vertices_of(r) as int, 1)
}

/// The Betti result of a room: one component.
pub open spec fn room_betti(r: RoomView) -> BettiResult {
    betti_of(r.edges as usize, vertices_of(r) as usize, 1)
}

/// The edges that Laman's theorem allows a room of `v` tiles: 2V − 3 from
/// two tiles on, none below that.
pub open spec fn laman_edges(v: nat) -> int {
    if v >= 2 { 2 * v - 3 } else { 0 }
}

/// A room is emergent when it holds more edges than Laman's theorem allows.
pub open spec fn room_emergent(r: RoomView) -> bool {
    r.edges > laman_edges(vertices_of(r))
}

/// The status that a room reports: emergent when it has more edges than
/// Laman's count allows; otherwise pending on each of its inferences when it
/// holds some under a hard dial; verified otherwise.
pub open spec fn status_fits(r: RoomView, hard_dial: bool, s: HolonomyStatus) -> bool {
    let b = room_betti(r);
    match s {
        HolonomyStatus::Emergent { beta, threshold } => {
            &&& room_emergent(r)
            &&& beta == b.beta
            &&& threshold == vertices_of(r) - 2
        },
        HolonomyStatus::Pending(tiles) => {
            &&& !room_emergent(r)
            &&& r.inferences > 0 && hard_dial
            &&& tiles@ == Seq::new(r.inferences, |i: int| i as usize)
        },
        HolonomyStatus::Verified => !room_emergent(r) && !(r.inferences > 0 && hard_dial),
        HolonomyStatus::Inconsistent(_) => false,
    }
}

/// From two tiles on, a room's Laman excess is exactly what the Betti
/// number reports as emergence; a room with an edge excess always has it.
pub proof fn law_emergence_is_laman_excess(r: RoomView)
    requires
        room_in_range(r),
    ensures
        vertices_of(r) >= 2 ==> (room_emergent(r) <==> room_betti(r).has_emergence),
        room_emergent(r) ==> room_betti(r).has_emergence,
{
}

/// Holonomy room — a room that counts its tiles and the edges between them.
#[derive(Debug, Clone)]
pub struct HolonomyRoom {
    /// Room identifier
    pub name: String,
    edge_count: usize,
    snap_count: usize,
    inference_count: usize,
}

impl View for HolonomyRoom {
    type V = RoomView;

    closed spec fn view(&self) -> RoomView {
        RoomView {
            name: self.name@,
            edges: self.edge_count as nat,
            snaps: self.snap_count as nat,
            inferences: self.inference_count as nat,
        }
    }
}

impl HolonomyRoom {
    /// Create a new holonomy room with no tiles and no edges.
    pub fn new(name: &str) -> (r: Self)
        ensures
            r@ == (RoomView { name: name@, edges: 0, snaps: 0, inferences: 0 }),
    {
        HolonomyRoom { name: name.to_owned(), edge_count: 0, snap_count: 0, inference_count: 0 }
    }

    /// Add a snap — verified tile, zero holonomy.
    pub fn add_snap(&mut self)
        requires
            vertices_of(old(self)@) < usize::MAX,
        ensures
            final(self)@ == (RoomView { snaps: old(self)@.snaps + 1, ..old(self)@ }),
    {
        self.snap_count = self.snap_count + 1;
    }

    /// Add an inference — unverified tile, non-trivial holonomy.
    pub fn add_inference(&mut self)
        requires
            vertices_of(old(self)@) < usize::MAX,
        ensures
            final(self)@ == (RoomView { inferences: old(self)@.inferences + 1, ..old(self)@ }),
    {
        self.inference_count = self.inference_count + 1;
    }

    /// Add an edge (connection between two tiles).
    pub fn add_edge(&mut self)
        requires
            old(self)@.edges < usize::MAX,
        ensures
            final(self)@ == (RoomView { edges: old(self)@.edges + 1, ..old(self)@ }),
    {
        self.edge_count = self.edge_count + 1;
    }

    /// Add a connection between two tiles (adds one edge).
    pub fn connect(&mut self, _tile_a: usize, _tile_b: usize)
        requires
            old(self)@.edges < usize::MAX,
        ensures
            final(self)@ == (RoomView { edges: old(self)@.edges + 1, ..old(self)@ }),
    {
        self.add_edge();
    }

    /// Compute the Betti number for this room (one component).
    pub fn betti(&self) -> (r: BettiResult)
        requires
            room_in_range(self@),
        ensures
            r == room_betti(self@),
    {
        BettiResult::compute(self.edge_count, self.snap_count + self.inference_count, 1)
    }

    /// Get holonomy status based on current room state; `hard_dial` tells
    /// whether the room's dial lies in the hard band (below 0.25).
    ///
    /// A room with more edges than Laman's theorem allows (2V − 3 from two
    /// tiles on, none below) is emergent; otherwise a room with inferences
    /// under a hard dial is pending on each of them, and any other room is
    /// verified.
    pub fn status(&self, hard_dial: bool) -> (r: HolonomyStatus)
        requires
            room_in_range(self@),
        ensures
            status_fits(self@, hard_dial, r),
    {
        let betti = self.betti();
        let tiles = self.snap_count + self.inference_count;
        let allowed: usize = if tiles >= 2 { 2 * tiles - 3 } else { 0 };
        if self.edge_count > allowed {
            HolonomyStatus::Emergent { beta: betti.beta, threshold: (tiles as isize) - 2 }
        } else if self.inference_count > 0 && hard_dial {
            let mut tiles: Vec<usize> = Vec::new();
            let mut k: usize = 0;
            while k < self.inference_count
                invariant
                    k <= self.inference_count,
                    tiles@ == Seq::new(k as nat, |i: int| i as usize),
                decreases self.inference_count - k,
            {
                tiles.push(k);
                assert(tiles@ =~= Seq::new((k + 1) as nat, |i: int| i as usize));
                k += 1;
            }
            HolonomyStatus::Pending(tiles)
        } else {
            HolonomyStatus::Verified
        }
    }

    /// Check if this room passes the hard threshold: snaps only, at least one.
    pub fn passes_hard(&self) -> (r: bool)
        ensures
            r == (self@.inferences == 0 && self@.snaps > 0),
    {
        self.inference_count == 0 && self.snap_count > 0
    }

    /// Room vertex count.
    pub fn vertex_count(&self) -> (r: usize)
        requires
            vertices_of(self@) <= usize::MAX,
        ensures
            r == vertices_of(self@),
    {
        self.snap_count + self.inference_count
    }

    /// Room edge count.
    pub fn edge_count(&self) -> (r: usize)
        ensures
            r == self@.edges,
    {
        self.edge_count
    }
}

/// The total of the edges of a list of rooms.
pub open spec fn edges_total(rs: Seq<RoomView>) -> int
    decreases rs.len(),
{
    if rs.len() == 0 {
        0
    } else {
        edges_total(rs.drop_last()) + rs.last().edges
    }
}

/// The total of the tiles of a list of rooms.
pub open spec fn vertices_total(rs: Seq<RoomView>) -> int
    decreases rs.len(),
{
    if rs.len() == 0 {
        0
    } else {
        vertices_total(rs.drop_last()) + vertices_of(rs.last())
    }
}

/// The total of the Betti numbers of a list of rooms.
pub open spec fn betti_total(rs: Seq<RoomView>) -> int
    decreases rs.len(),
{
    if rs.len() == 0 {
        0
    } else {
        betti_total(rs.drop_last()) + room_betti(rs.last()).beta
    }
}

/// Every room of the list has a Betti number that is a machine integer.
pub open spec fn rooms_in_range(rs: Seq<RoomView>) -> bool {
    forall|k: int| 0 <= k < rs.len() ==> #[trigger] room_in_range(rs[k])
}

/// The model of a holonomy chain: its name and its rooms, in the order added.
pub struct ChainView {
    pub name: Seq<char>,
    pub rooms: Seq<RoomView>,
}

/// The names and Betti numbers of the emergent rooms of a list, in order.
pub open spec fn emergent_of(rs: Seq<RoomView>) -> Seq<(Seq<char>, isize)> {
    rs.filter(|r: RoomView| room_betti(r).has_emergence).map_values(|r: RoomView| (r.name, room_betti(r).beta))
}

/// The names of the exactly rigid rooms of a list, in order.
pub open spec fn rigid_of(rs: Seq<RoomView>) -> Seq<Seq<char>> {
    rs.filter(|r: RoomView| room_betti(r).is_rigid).map_values(|r: RoomView| r.name)
}

/// Holonomy chain — a chain in which every room computes Betti numbers.
#[derive(Debug, Clone)]
pub struct HolonomyChain {
    name: String,
    rooms: Vec<HolonomyRoom>,
}

impl View for HolonomyChain {
    type V = ChainView;

    closed spec fn view(&self) -> ChainView {
        ChainView { name: self.name@, rooms: self.rooms@.map_values(|r: HolonomyRoom| r@) }
    }
}

impl HolonomyChain {
    /// Create a chain with no rooms.
    pub fn new(name: &str) -> (r: Self)
        ensures
            r@ == (ChainView { name: name@, rooms: Seq::empty() }),
    {
        let r = HolonomyChain { name: name.to_owned(), rooms: Vec::new() };
        assert(r@.rooms =~= Seq::empty());
        r
    }

    /// Add a holonomy room to the chain.
    pub fn add_room(&mut self, room: HolonomyRoom)
        ensures
            final(self)@ == (ChainView { rooms: old(self)@.rooms.push(room@), ..old(self)@ }),
    {
        self.rooms.push(room);
        assert(self@.rooms =~= old(self)@.rooms.push(room@));
    }

    /// Get all emergent rooms (β₁ > V - 2), with their Betti numbers.
    pub fn emergent_rooms(&self) -> (r: Vec<(String, isize)>)
        requires
            rooms_in_range(self@.rooms),
        ensures
            r@.map_values(|p: (String, isize)| (p.0@, p.1)) == emergent_of(self@.rooms),
    {
        let ghost rs = self@.rooms;
        let mut out: Vec<(String, isize)> = Vec::new();
        let mut k: usize = 0;
        while k < self.rooms.len()
            invariant
                rs == self@.rooms,
                rooms_in_range(rs),
                k <= self.rooms.len(),
                out@.map_values(|p: (String, isize)| (p.0@, p.1)) == emergent_of(rs.take(k as int)),
            decreases self.rooms.len() - k,
        {
            proof {
                reveal_with_fuel(Seq::filter, 1);
                assert(rs.take(k + 1).drop_last() =~= rs.take(k as int));
                assert(room_in_range(rs[k as int]));
            }
            let room = &self.rooms[k];
            assert(room@ == rs[k as int]);
            let b = room.betti();
            let ghost before = out@;
            if b.has_emergence {
                out.push((room.name.clone(), b.beta));
                assert(out@.map_values(|p: (String, isize)| (p.0@, p.1)) =~= before.map_values(
                    |p: (String, isize)| (p.0@, p.1),
                ).push((rs[k as int].name, room_betti(rs[k as int]).beta)));
            }
            assert(emergent_of(rs.take(k + 1)) =~= if b.has_emergence {
                emergent_of(rs.take(k as int)).push((rs[k as int].name, room_betti(rs[k as int]).beta))
            } else {
                emergent_of(rs.take(k as int))
            });
            k += 1;
        }
        assert(rs.take(self.rooms.len() as int) =~= rs);
        out
    }

    /// Get all rigid rooms (β₁ = V - 2).
    pub fn rigid_rooms(&self) -> (r: Vec<String>)
        requires
            rooms_in_range(self@.rooms),
        ensures
            r@.map_values(|s: String| s@) == rigid_of(self@.rooms),
    {
        let ghost rs = self@.rooms;
        let mut out: Vec<String> = Vec::new();
        let mut k: usize = 0;
        while k < self.rooms.len()
            invariant
                rs == self@.rooms,
                rooms_in_range(rs),
                k <= self.rooms.len(),
                out@.map_values(|s: String| s@) == rigid_of(rs.take(k as int)),
            decreases self.rooms.len() - k,
        {
            proof {
                reveal_with_fuel(Seq::filter, 1);
                assert(rs.take(k + 1).drop_last() =~= rs.take(k as int));
                assert(room_in_range(rs[k as int]));
            }
            let room = &self.rooms[k];
            assert(room@ == rs[k as int]);
            let b = room.betti();
            let ghost before = out@;
            if b.is_rigid {
                out.push(room.name.clone());
                assert(out@.map_values(|s: String| s@) =~= before.map_values(|s: String| s@).push(
                    rs[k as int].name,
                ));
            }
            assert(rigid_of(rs.take(k + 1)) =~= if b.is_rigid {
                rigid_of(rs.take(k as int)).push(rs[k as int].name)
            } else {
                rigid_of(rs.take(k as int))
            });
            k += 1;
        }
        assert(rs.take(self.rooms.len() as int) =~= rs);
        out
    }

    /// Total edges across all rooms.
    pub fn total_edges(&self) -> (r: usize)
        requires
            edges_total(self@.rooms) <= usize::MAX,
        ensures
            r == edges_total(self@.rooms),
    {
        let ghost rs = self@.rooms;
        let mut total: usize = 0;
        let mut k: usize = 0;
        while k < self.rooms.len()
            invariant
                rs == self@.rooms,
                edges_total(rs) <= usize::MAX,
                k <= self.rooms.len(),
                total == edges_total(rs.take(k as int)),
            decreases self.rooms.len() - k,
        {
            assert(rs.take(k + 1).drop_last() =~= rs.take(k as int));
            proof { lemma_edges_total_prefix(rs, k + 1); }
            assert(self.rooms[k as int]@ == rs[k as int]);
            total = total + self.rooms[k].edge_count();
            k += 1;
        }
        assert(rs.take(self.rooms.len() as int) =~= rs);
        total
    }

    /// Total vertices across all rooms.
    pub fn total_vertices(&self) -> (r: usize)
        requires
            vertices_total(self@.rooms) <= usize::MAX,
        ensures
            r == vertices_total(self@.rooms),
    {
        let ghost rs = self@.rooms;
        let mut total: usize = 0;
        let mut k: usize = 0;
        while k < self.rooms.len()
            invariant
                rs == self@.rooms,
                vertices_total(rs) <= usize::MAX,
                k <= self.rooms.len(),
                total == vertices_total(rs.take(k as int)),
            decreases self.rooms.len() - k,
        {
            assert(rs.take(k + 1).drop_last() =~= rs.take(k as int));
            proof { lemma_vertices_total_prefix(rs, k + 1); }
            assert(self.rooms[k as int]@ == rs[k as int]);
            total = total + self.rooms[k].vertex_count();
            k += 1;
        }
        assert(rs.take(self.rooms.len() as int) =~= rs);
        total
    }

    /// Chain-wide Betti number (sum of room Betti numbers, added in room order).
    pub fn chain_betti(&self) -> (r: isize)
        requires
            rooms_in_range(self@.rooms),
            forall|k: int| 0 <= k <= self@.rooms.len() ==> isize::MIN <= #[trigger] betti_total(self@.rooms.take(k)) <= isize::MAX,
        ensures
            r == betti_total(self@.rooms),
    {
        let ghost rs = self@.rooms;
        let mut total: isize = 0;
        let mut k: usize = 0;
        while k < self.rooms.len()
            invariant
                rs == self@.rooms,
                rooms_in_range(rs),
                forall|j: int| 0 <= j <= rs.len() ==> isize::MIN <= #[trigger] betti_total(rs.take(j)) <= isize::MAX,
                k <= self.rooms.len(),
                total == betti_total(rs.take(k as int)),
            decreases self.rooms.len() - k,
        {
            assert(rs.take(k + 1).drop_last() =~= rs.take(k as int));
            assert(room_in_range(rs[k as int]));
            assert(self.rooms[k as int]@ == rs[k as int]);
            assert(isize::MIN <= betti_total(rs.take(k + 1)) <= isize::MAX);
            total = total + self.rooms[k].betti().beta;
            k += 1;
        }
        assert(rs.take(self.rooms.len() as int) =~= rs);
        total
    }
}

proof fn lemma_edges_total_prefix(rs: Seq<RoomView>, k: int)
    requires
        0 <= k <= rs.len(),
    ensures
        edges_total(rs.take(k)) <= edges_total(rs),
    decreases rs.len() - k,
{
    if k < rs.len() {
        lemma_edges_total_prefix(rs, k + 1);
        assert(rs.take(k + 1).drop_last() =~= rs.take(k));
    } else {
        assert(rs.take(k) =~= rs);
    }
}

proof fn lemma_vertices_total_prefix(rs: Seq<RoomView>, k: int)
    requires
        0 <= k <= rs.len(),
    ensures
        vertices_total(rs.take(k)) <= vertices_total(rs),
    decreases rs.len() - k,
{
    if k < rs.len() {
        lemma_vertices_total_prefix(rs, k + 1);
        assert(rs.take(k + 1).drop_last() =~= rs.take(k));
    } else {
        assert(rs.take(k) =~= rs);
    }
}

/// The chain's Betti number is its Euler count: the total of the edges, less
/// the total of the tiles, plus one component per room.
pub proof fn law_chain_betti_is_euler(rs: Seq<RoomView>)
    requires
        rooms_in_range(rs),
    ensures
        betti_total(rs) == edges_total(rs) - vertices_total(rs) + rs.len(),
    decreases rs.len(),
{
    if rs.len() > 0 {
        assert(rooms_in_range(rs.drop_last())) by {
            assert forall|k: int| 0 <= k < rs.drop_last().len() implies #[trigger] room_in_range(rs.drop_last()[k]) by {
                assert(room_in_range(rs[k]));
            }
        }
        assert(room_in_range(rs[rs.len() - 1]));
        law_chain_betti_is_euler(rs.drop_last());
    }
}


/// The Betti result of E edges, V vertices and C components holds
/// β₁ = E − V + C and the counts it was given; it is rigid exactly when
/// β₁ = V − 2 and emergent exactly when β₁ > V − 2, whatever C is; and its
/// Laman check asks for 2V − 3 edges from two vertices on, none below.
pub proof fn law_betti_classifies_by_threshold(e: usize, v: usize, c: usize)
    requires
        betti_in_range(e as int, v as int, c as int),
    ensures
        betti_of(e, v, c).beta == e - v + c,
        betti_of(e, v, c).edge_count == e,
        betti_of(e, v, c).vertex_count == v,
        betti_of(e, v, c).component_count == c,
        betti_of(e, v, c).is_rigid <==> e - v + c == v - 2,
        betti_of(e, v, c).has_emergence <==> e - v + c > v - 2,
        laman_of(betti_of(e, v, c)).0 == (if v >= 2 { 2 * v - 3 } else { 0 }),
        laman_of(betti_of(e, v, c)).1 == e,
        laman_of(betti_of(e, v, c)).2 <==> e == (if v >= 2 { 2 * v - 3 } else { 0 }),
{
}

/// Filtering with two tests that agree on every element, and mapping the
/// kept elements by two maps that agree on them, gives the same sequence.
proof fn lemma_filter_map_agree<A, B>(
    s: Seq<A>,
    p: spec_fn(A) -> bool,
    q: spec_fn(A) -> bool,
    f: spec_fn(A) -> B,
    g: spec_fn(A) -> B,
)
    requires
        forall|i: int| 0 <= i < s.len() ==> p(#[trigger] s[i]) == q(s[i]),
        forall|i: int| 0 <= i < s.len() && p(#[trigger] s[i]) ==> f(s[i]) == g(s[i]),
    ensures
        s.filter(p).map_values(f) == s.filter(q).map_values(g),
    decreases s.len(),
{
    reveal(Seq::filter);
    if s.len() > 0 {
        let t = s.drop_last();
        assert forall|i: int| 0 <= i < t.len() implies p(#[trigger] t[i]) == q(t[i]) by {
            assert(t[i] == s[i]);
        }
        assert forall|i: int| 0 <= i < t.len() && p(#[trigger] t[i]) implies f(t[i]) == g(t[i]) by {
            assert(t[i] == s[i]);
        }
        lemma_filter_map_agree(t, p, q, f, g);
        let x = s.last();
        assert(p(s[s.len() - 1]) == q(s[s.len() - 1]));
        if p(x) {
            assert(s.filter(p) == t.filter(p).push(x));
            assert(s.filter(q) == t.filter(q).push(x));
            assert(t.filter(p).push(x).map_values(f) =~= t.filter(p).map_values(f).push(f(x)));
            assert(t.filter(q).push(x).map_values(g) =~= t.filter(q).map_values(g).push(g(x)));
        } else {
            assert(s.filter(p) == t.filter(p));
            assert(s.filter(q) == t.filter(q));
        }
    }
}

/// The rigid rooms of a chain are the names, in chain order, of exactly the
/// rooms whose Betti number β₁ = E − V + 1 equals V − 2, V counting all of a
/// room's tiles (snaps and inferences); under- and over-constrained rooms are
/// left out.
pub proof fn law_rigid_rooms_are_exactly_rigid(rs: Seq<RoomView>)
    requires
        rooms_in_range(rs),
    ensures
        rigid_of(rs) == rs.filter(
            |r: RoomView| r.edges - (r.snaps + r.inferences) + 1 == (r.snaps + r.inferences) - 2,
        ).map_values(|r: RoomView| r.name),
{
    let p = |r: RoomView| room_betti(r).is_rigid;
    let q = |r: RoomView| r.edges - (r.snaps + r.inferences) + 1 == (r.snaps + r.inferences) - 2;
    let f = |r: RoomView| r.name;
    assert forall|i: int| 0 <= i < rs.len() implies p(#[trigger] rs[i]) == q(rs[i]) by {
        assert(room_in_range(rs[i]));
    }
    lemma_filter_map_agree(rs, p, q, f, f);
    assert(rigid_of(rs) == rs.filter(p).map_values(f));
}

/// The emergent rooms of a chain are the names and Betti numbers, in chain
/// order, of exactly the rooms whose Betti number β₁ = E − V + 1 is greater
/// than V − 2, V counting all of a room's tiles; each is paired with that β₁.
pub proof fn law_emergent_rooms_are_exactly_emergent(rs: Seq<RoomView>)
    requires
        rooms_in_range(rs),
    ensures
        emergent_of(rs) == rs.filter(
            |r: RoomView| r.edges - (r.snaps + r.inferences) + 1 > (r.snaps + r.inferences) - 2,
        ).map_values(|r: RoomView| (r.name, (r.edges - (r.snaps + r.inferences) + 1) as isize)),
{
    let p = |r: RoomView| room_betti(r).has_emergence;
    let q = |r: RoomView| r.edges - (r.snaps + r.inferences) + 1 > (r.snaps + r.inferences) - 2;
    let f = |r: RoomView| (r.name, room_betti(r).beta);
    let g = |r: RoomView| (r.name, (r.edges - (r.snaps + r.inferences) + 1) as isize);
    assert forall|i: int| 0 <= i < rs.len() implies p(#[trigger] rs[i]) == q(rs[i]) by {
        assert(room_in_range(rs[i]));
    }
    assert forall|i: int| 0 <= i < rs.len() && p(#[trigger] rs[i]) implies f(rs[i]) == g(rs[i]) by {
        assert(room_in_range(rs[i]));
    }
    lemma_filter_map_agree(rs, p, q, f, g);
    assert(emergent_of(rs) == rs.filter(p).map_values(f));
}

/// What a room's status reports, over all its tiles V = snaps + inferences:
/// it is emergent exactly when the room has more edges than Laman allows
/// (2V − 3 from two tiles on, none below), with β₁ = E − V + 1 and threshold
/// V − 2; otherwise it is pending, on tiles 0, 1, …, k − 1, exactly when it
/// holds k > 0 inferences under a hard dial; otherwise it is verified.  It is
/// never inconsistent.  From two tiles on, emergence is β₁ > V − 2.
pub proof fn law_status_follows_laman_count(r: RoomView, hard_dial: bool, s: HolonomyStatus)
    requires
        room_in_range(r),
        status_fits(r, hard_dial, s),
    ensures
        (s is Emergent) <==> r.edges > (if r.snaps + r.inferences >= 2 { 2 * (r.snaps + r.inferences) - 3 } else { 0 }),
        r.snaps + r.inferences >= 2 ==> ((s is Emergent) <==> r.edges - (r.snaps + r.inferences) + 1 > (r.snaps + r.inferences) - 2),
        s matches HolonomyStatus::Emergent { beta, threshold } ==> beta == r.edges - (r.snaps + r.inferences) + 1
            && threshold == (r.snaps + r.inferences) - 2,
        (s is Pending) <==> !(s is Emergent) && r.inferences > 0 && hard_dial,
        s matches HolonomyStatus::Pending(tiles) ==> tiles@.len() == r.inferences
            && forall|i: int| 0 <= i < tiles@.len() ==> tiles@[i] == i,
        (s is Verified) <==> !(s is Emergent) && !(r.inferences > 0 && hard_dial),
        !(s is Inconsistent),
{
}


/// A room's tiles are its snaps and its inferences together, and its Betti
/// result is that of one component: β₁ = E − V + 1, rigid exactly when
/// β₁ = V − 2, emergent exactly when β₁ > V − 2.
pub proof fn law_room_betti_counts_all_tiles(r: RoomView)
    ensures
        vertices_of(r) == r.snaps + r.inferences,
        room_in_range(r) ==> {
            &&& room_betti(r).beta == r.edges - (r.snaps + r.inferences) + 1
            &&& room_betti(r).edge_count == r.edges
            &&& room_betti(r).vertex_count == r.snaps + r.inferences
            &&& room_betti(r).component_count == 1
            &&& (room_betti(r).is_rigid <==> r.edges - (r.snaps + r.inferences) + 1 == (r.snaps + r.inferences) - 2)
            &&& (room_betti(r).has_emergence <==> r.edges - (r.snaps + r.inferences) + 1 > (r.snaps + r.inferences) - 2)
        },
{
}

/// The chain totals start at zero and grow by each added room's edges, tiles
/// (snaps and inferences) and Betti number β₁ = E − V + 1.
pub proof fn law_chain_totals_add_up(rs: Seq<RoomView>, r: RoomView)
    ensures
        edges_total(Seq::<RoomView>::empty()) == 0,
        vertices_total(Seq::<RoomView>::empty()) == 0,
        betti_total(Seq::<RoomView>::empty()) == 0,
        edges_total(rs.push(r)) == edges_total(rs) + r.edges,
        vertices_total(rs.push(r)) == vertices_total(rs) + r.snaps + r.inferences,
        room_in_range(r) ==> betti_total(rs.push(r)) == betti_total(rs) + r.edges - (r.snaps + r.inferences) + 1,
{
    assert(rs.push(r).drop_last() =~= rs);
}

} // verus!
