use joints::Arena;
use joints::BodySet;
use joints::InteractionGraph;
use joints::IslandManager;
use joints::JointParams;
use joints::JointSet;
use joints::RigidBodyHandle;
use joints::RigidBodyType;
use joints::INVALID_U32;

#[test]
fn arena_insert_get_remove() {
    let mut arena: Arena<u64> = Arena::new();
    let a = arena.insert(10);
    let b = arena.insert(20);
    assert_eq!(arena.get(a), Some(&10));
    assert_eq!(arena.get(b), Some(&20));
    assert!(arena.contains(a));
    assert_eq!(arena.remove(a), Some(10));
    assert_eq!(arena.get(a), None);
    assert!(!arena.contains(a));
    assert_eq!(arena.remove(a), None);
    assert_eq!(arena.get(b), Some(&20));
}

#[test]
fn arena_reuses_slot_with_new_generation() {
    let mut arena: Arena<u64> = Arena::new();
    let a = arena.insert(1);
    arena.remove(a);
    let c = arena.insert(3);
    assert_eq!(c.index, a.index);
    assert_ne!(c.generation, a.generation);
    assert_eq!(arena.get(a), None);
    assert_eq!(arena.get(c), Some(&3));
}

#[test]
fn arena_get_unknown_gen_reports_current_occupant() {
    let mut arena: Arena<u64> = Arena::new();
    let a = arena.insert(5);
    let (v, h) = arena.get_unknown_gen(a.index).unwrap();
    assert_eq!(*v, 5);
    assert_eq!(h, a);
    arena.remove(a);
    assert!(arena.get_unknown_gen(a.index).is_none());
}

#[test]
fn graph_index_sentinel_is_invalid() {
    assert!(!InteractionGraph::<u32, u32>::is_graph_index_valid(INVALID_U32));
    assert!(InteractionGraph::<u32, u32>::is_graph_index_valid(0));
}

#[test]
fn graph_remove_edge_relocates_last() {
    let mut g: InteractionGraph<u32, u32> = InteractionGraph::new();
    let n0 = g.add_node(100);
    let n1 = g.add_node(101);
    let n2 = g.add_node(102);
    let e0 = g.add_edge(n0, n1, 1000);
    let _e1 = g.add_edge(n1, n2, 1001);
    let e2 = g.add_edge(n2, n0, 1002);
    assert_eq!(g.remove_edge(e0), Some(1000));
    // the previously-last edge now lives at the freed position
    assert_eq!(g.edge_weight(e0), Some(&1002));
    assert_eq!(g.edge_endpoints(e0), Some((n2, n0)));
    assert_eq!(g.remove_edge(e2), None); // out of range now
    assert_eq!(g.edges.len(), 2);
}

#[test]
fn graph_remove_node_reports_relocated_payload() {
    let mut g: InteractionGraph<u32, u32> = InteractionGraph::new();
    let n0 = g.add_node(100);
    let n1 = g.add_node(101);
    let n2 = g.add_node(102);
    g.add_edge(n1, n2, 1000);
    // node n0 has no incident edge, so it may be removed; the last node
    // (n2) relocates into its position and the edge endpoint follows
    assert_eq!(g.remove_node(n0), Some(102));
    assert_eq!(g.node_weight(n0), Some(&102));
    assert_eq!(g.edge_endpoints(0), Some((n1, n0)));
    // removing the (new) last node relocates nothing
    let last = (g.nodes.len() - 1) as u32;
    assert_eq!(g.remove_node(last), None);
}

#[test]
fn graph_interactions_with_lists_incident_edges() {
    let mut g: InteractionGraph<u32, u32> = InteractionGraph::new();
    let n0 = g.add_node(100);
    let n1 = g.add_node(101);
    let n2 = g.add_node(102);
    g.add_edge(n0, n1, 7);
    g.add_edge(n1, n2, 8);
    g.add_edge(n2, n0, 9);
    let inc = g.interactions_with(n1);
    assert_eq!(inc, vec![(100, 101, 7), (101, 102, 8)]);
    assert_eq!(g.interactions_with(n2), vec![(101, 102, 8), (102, 100, 9)]);
}

/// Arena entry and recorded edge handle must agree, in both directions,
/// after every single mutation -- not just at the end of a sequence.
fn assert_bidirectional(js: &JointSet) {
    for (handle, joint) in js.iter() {
        assert_eq!(joint.handle, handle);
        let resolved = js.get(handle).expect("recorded handle must resolve");
        assert_eq!(*resolved, joint);
    }
    let mut live = 0;
    let mut i = 0;
    while let Some(_) = js.joint_graph().edges.get(i) {
        live += 1;
        i += 1;
    }
    assert_eq!(live, js.len());
}

#[test]
fn consistency_holds_after_every_mutation() {
    let mut bodies = BodySet::new();
    for _ in 0..5 {
        bodies.push_body(RigidBodyType::Dynamic, false, 0);
    }
    let mut islands = IslandManager::new(1);
    let mut js = JointSet::new();
    let b: Vec<_> = (0..5).map(RigidBodyHandle).collect();
    let mut handles = Vec::new();
    for i in 0..4 {
        let h = js.insert(&mut bodies, b[i], b[i + 1], JointParams::Ball);
        handles.push(h);
        assert_bidirectional(&js);
    }
    js.remove(handles[1], &mut islands, &mut bodies, true);
    assert_bidirectional(&js);
    js.remove(handles[3], &mut islands, &mut bodies, false);
    assert_bidirectional(&js);
    let h = js.insert(&mut bodies, b[0], b[4], JointParams::Fixed);
    handles.push(h);
    assert_bidirectional(&js);
    let deleted = bodies.bodies[0].ids.joint_graph_index;
    js.remove_rigid_body(deleted, &mut islands, &mut bodies);
    assert_bidirectional(&js);
}
