use openconstruct::{BettiResult, HolonomyChain, HolonomyRoom, HolonomyStatus};

#[test]
fn test_laman_rigid() {
    let mut room = HolonomyRoom::new("test");
    for _ in 0..5 {
        room.add_snap();
    }
    for _ in 0..7 {
        room.add_edge();
    }
    let b = room.betti();
    assert!(b.is_rigid);
    assert!(!b.has_emergence);
    assert_eq!(b.beta, 3);
}

#[test]
fn test_emergence() {
    let mut room = HolonomyRoom::new("test");
    for _ in 0..5 {
        room.add_snap();
    }
    for _ in 0..10 {
        room.add_edge();
    }
    let b = room.betti();
    assert!(b.has_emergence);
    assert!(!b.is_rigid);
}

#[test]
fn test_hard_passes() {
    let mut room = HolonomyRoom::new("test");
    room.add_snap();
    room.add_snap();
    assert!(room.passes_hard());

    room.add_inference();
    assert!(!room.passes_hard());
}

#[test]
fn test_holonomy_chain() {
    let mut chain = HolonomyChain::new("fleet");

    let mut room1 = HolonomyRoom::new("room1");
    for _ in 0..5 {
        room1.add_snap();
    }
    for _ in 0..7 {
        room1.add_edge();
    }

    let mut room2 = HolonomyRoom::new("room2");
    for _ in 0..3 {
        room2.add_snap();
    }
    for _ in 0..4 {
        room2.add_edge();
    }

    chain.add_room(room1);
    chain.add_room(room2);

    assert_eq!(chain.rigid_rooms(), vec!["room1".to_string()]);
    assert_eq!(chain.total_vertices(), 8);
    assert_eq!(chain.total_edges(), 11);
}

#[test]
fn betti_compute_values() {
    let b = BettiResult::compute(7, 5, 1);
    assert_eq!(b.beta, 3);
    assert!(b.is_rigid && !b.has_emergence);
    let b = BettiResult::compute(2, 5, 2);
    assert_eq!(b.beta, -1);
    assert!(!b.is_rigid && !b.has_emergence);
    assert_eq!((b.edge_count, b.vertex_count, b.component_count), (2, 5, 2));
    let b = BettiResult::compute(0, 0, 0);
    assert_eq!(b.beta, 0);
    assert!(b.has_emergence);
}

#[test]
fn laman_check_values() {
    assert_eq!(BettiResult::compute(7, 5, 1).laman_check(), (7, 7, true));
    assert_eq!(BettiResult::compute(3, 5, 1).laman_check(), (7, 3, false));
    assert_eq!(BettiResult::compute(0, 1, 1).laman_check(), (0, 0, true));
    assert_eq!(BettiResult::compute(1, 2, 1).laman_check(), (1, 1, true));
}

#[test]
fn rigid_iff_laman_for_connected_rooms() {
    for v in 2..8usize {
        for e in 0..16usize {
            let b = BettiResult::compute(e, v, 1);
            assert_eq!(b.is_rigid, b.laman_check().2);
            assert!(!(b.is_rigid && b.has_emergence));
        }
    }
}

#[test]
fn status_variants() {
    let mut room = HolonomyRoom::new("r");
    // An empty room is trivially verified.
    assert_eq!(room.status(true), HolonomyStatus::Verified);
    assert_eq!(room.status(false), HolonomyStatus::Verified);
    room.add_snap();
    room.add_inference();
    room.add_inference();
    assert_eq!(room.status(true), HolonomyStatus::Pending(vec![0, 1]));
    assert_eq!(room.status(false), HolonomyStatus::Verified);
    for _ in 0..5 {
        room.add_edge();
    }
    assert_eq!(room.status(true), HolonomyStatus::Emergent { beta: 3, threshold: 1 });
    room.connect(0, 1);
    assert_eq!(room.edge_count(), 6);
    assert_eq!(room.vertex_count(), 3);
}

#[test]
fn chain_betti_is_euler_count() {
    let mut chain = HolonomyChain::new("c");
    let mut a = HolonomyRoom::new("a");
    for _ in 0..4 {
        a.add_snap();
    }
    for _ in 0..9 {
        a.add_edge();
    }
    let mut b = HolonomyRoom::new("b");
    b.add_inference();
    chain.add_room(a);
    chain.add_room(b);
    assert_eq!(chain.chain_betti(), 6 + 0);
    assert_eq!(
        chain.chain_betti(),
        chain.total_edges() as isize - chain.total_vertices() as isize + 2
    );
    assert_eq!(chain.emergent_rooms(), vec![("a".to_string(), 6), ("b".to_string(), 0)]);
    assert!(chain.rigid_rooms().is_empty());
}

#[test]
fn hard_dial_leaves_inferences_pending() {
    let mut room = HolonomyRoom::new("r");
    room.add_inference();
    assert_eq!(room.status(true), HolonomyStatus::Pending(vec![0]));
    assert_eq!(room.status(false), HolonomyStatus::Verified);
}

#[test]
fn emergence_needs_more_edges_than_laman_allows() {
    // One tile: Laman allows no edge.
    let mut single = HolonomyRoom::new("one");
    single.add_snap();
    assert_eq!(single.status(true), HolonomyStatus::Verified);
    single.add_edge();
    assert_eq!(single.status(true), HolonomyStatus::Emergent { beta: 1, threshold: -1 });
    // Two tiles: Laman allows one edge.
    let mut pair = HolonomyRoom::new("two");
    pair.add_snap();
    pair.add_snap();
    pair.add_edge();
    assert_eq!(pair.status(true), HolonomyStatus::Verified);
    assert!(pair.betti().is_rigid);
    pair.add_edge();
    assert_eq!(pair.status(false), HolonomyStatus::Emergent { beta: 1, threshold: 0 });
}
