use joints::BodySet;
use joints::IslandManager;
use joints::JointHandle;
use joints::JointParams;
use joints::JointSet;
use joints::RigidBodyType;
use joints::INVALID_U32;

fn world(kinds: &[(RigidBodyType, bool, usize)]) -> BodySet {
    let mut bodies = BodySet::new();
    for &(t, sleeping, island) in kinds {
        bodies.push_body(t, sleeping, island);
    }
    bodies
}

fn dynamic_awake(n: usize) -> BodySet {
    let mut bodies = BodySet::new();
    for _ in 0..n {
        bodies.push_body(RigidBodyType::Dynamic, false, 0);
    }
    bodies
}

#[test]
fn handle_raw_parts_round_trip() {
    let h = JointHandle::from_raw_parts(3, 7);
    assert_eq!(h.into_raw_parts(), (3, 7));
    let inv = JointHandle::invalid();
    assert_eq!(inv.into_raw_parts(), (INVALID_U32, INVALID_U32));
}

#[test]
fn invalid_handle_always_absent() {
    let mut bodies = dynamic_awake(2);
    let mut js = JointSet::new();
    assert!(js.get(JointHandle::invalid()).is_none());
    let b: Vec<_> = (0..2).map(joints::RigidBodyHandle).collect();
    js.insert(&mut bodies, b[0], b[1], JointParams::Ball);
    assert!(js.get(JointHandle::invalid()).is_none());
    assert!(!js.contains(JointHandle::invalid()));
}

#[test]
fn insert_then_get() {
    let mut bodies = dynamic_awake(2);
    let mut js = JointSet::new();
    assert!(js.is_empty());
    let b0 = joints::RigidBodyHandle(0);
    let b1 = joints::RigidBodyHandle(1);
    let h = js.insert(&mut bodies, b0, b1, JointParams::Revolute);
    assert_eq!(js.len(), 1);
    assert!(!js.is_empty());
    assert!(js.contains(h));
    let j = js.get(h).unwrap();
    assert_eq!(j.body1, b0);
    assert_eq!(j.body2, b1);
    assert_eq!(j.handle, h);
    assert_eq!(j.params, JointParams::Revolute);
}

#[test]
fn relocation_repair_keeps_other_joints() {
    // three joints inserted in order; removing the middle one exercises
    // the swap-remove relocation path
    let mut bodies = dynamic_awake(4);
    let mut islands = IslandManager::new(1);
    let mut js = JointSet::new();
    let b: Vec<_> = (0..4).map(joints::RigidBodyHandle).collect();
    let ha = js.insert(&mut bodies, b[0], b[1], JointParams::Ball);
    let hb = js.insert(&mut bodies, b[1], b[2], JointParams::Fixed);
    let hc = js.insert(&mut bodies, b[2], b[3], JointParams::Prismatic);
    let removed = js.remove(hb, &mut islands, &mut bodies, false);
    assert!(removed.is_some());
    assert_eq!(removed.unwrap().params, JointParams::Fixed);
    assert_eq!(js.len(), 2);
    let ja = js.get(ha).unwrap();
    assert_eq!((ja.body1, ja.body2, ja.params), (b[0], b[1], JointParams::Ball));
    let jc = js.get(hc).unwrap();
    assert_eq!((jc.body1, jc.body2, jc.params), (b[2], b[3], JointParams::Prismatic));
    assert!(js.get(hb).is_none());
    assert!(!js.contains(hb));
}

#[test]
fn double_remove_returns_none_second_time() {
    let mut bodies = dynamic_awake(2);
    let mut islands = IslandManager::new(1);
    let mut js = JointSet::new();
    let b0 = joints::RigidBodyHandle(0);
    let b1 = joints::RigidBodyHandle(1);
    let h = js.insert(&mut bodies, b0, b1, JointParams::Ball);
    assert!(js.remove(h, &mut islands, &mut bodies, true).is_some());
    assert!(js.remove(h, &mut islands, &mut bodies, true).is_none());
    assert!(js.get(h).is_none());
}

#[test]
fn slot_reuse_does_not_resurrect_old_handle() {
    let mut bodies = dynamic_awake(2);
    let mut islands = IslandManager::new(1);
    let mut js = JointSet::new();
    let b0 = joints::RigidBodyHandle(0);
    let b1 = joints::RigidBodyHandle(1);
    let h1 = js.insert(&mut bodies, b0, b1, JointParams::Ball);
    js.remove(h1, &mut islands, &mut bodies, false);
    let h2 = js.insert(&mut bodies, b0, b1, JointParams::Fixed);
    // same slot, advanced generation
    assert_eq!(h1.into_raw_parts().0, h2.into_raw_parts().0);
    assert_ne!(h1, h2);
    assert!(js.get(h1).is_none());
    assert_eq!(js.get(h2).unwrap().params, JointParams::Fixed);
}

#[test]
fn remove_wakes_endpoints_when_asked() {
    let mut bodies = world(&[
        (RigidBodyType::Dynamic, true, 0),
        (RigidBodyType::Dynamic, true, 0),
    ]);
    let mut islands = IslandManager::new(1);
    let mut js = JointSet::new();
    let b0 = joints::RigidBodyHandle(0);
    let b1 = joints::RigidBodyHandle(1);
    let h = js.insert(&mut bodies, b0, b1, JointParams::Ball);
    js.remove(h, &mut islands, &mut bodies, true);
    assert!(!bodies.bodies[0].activation.sleeping);
    assert!(!bodies.bodies[1].activation.sleeping);

    let mut bodies2 = world(&[
        (RigidBodyType::Dynamic, true, 0),
        (RigidBodyType::Dynamic, true, 0),
    ]);
    let mut js2 = JointSet::new();
    let h2 = js2.insert(&mut bodies2, b0, b1, JointParams::Ball);
    js2.remove(h2, &mut islands, &mut bodies2, false);
    assert!(bodies2.bodies[0].activation.sleeping);
    assert!(bodies2.bodies[1].activation.sleeping);
}

#[test]
fn cascading_deletion_removes_all_incident_joints() {
    // body 1 carries two joints; an unrelated third joint must survive
    let mut bodies = world(&[
        (RigidBodyType::Dynamic, true, 0),
        (RigidBodyType::Dynamic, false, 0),
        (RigidBodyType::Dynamic, true, 0),
        (RigidBodyType::Dynamic, false, 0),
    ]);
    let mut islands = IslandManager::new(1);
    let mut js = JointSet::new();
    let b: Vec<_> = (0..4).map(joints::RigidBodyHandle).collect();
    let ha = js.insert(&mut bodies, b[0], b[1], JointParams::Ball);
    let hb = js.insert(&mut bodies, b[1], b[2], JointParams::Fixed);
    let hc = js.insert(&mut bodies, b[2], b[3], JointParams::Revolute);
    let nodes_before = js.joint_graph().nodes.len();
    let deleted_id = bodies.bodies[1].ids.joint_graph_index;
    assert_ne!(deleted_id, INVALID_U32);

    js.remove_rigid_body(deleted_id, &mut islands, &mut bodies);

    // every joint touching body 1 is gone; the unrelated one survives
    assert!(js.get(ha).is_none());
    assert!(js.get(hb).is_none());
    let jc = js.get(hc).unwrap();
    assert_eq!((jc.body1, jc.body2), (b[2], b[3]));
    assert_eq!(js.len(), 1);
    // the node array shrank by one, with relocation repaired
    assert_eq!(js.joint_graph().nodes.len(), nodes_before - 1);
    for (i, body) in bodies.bodies.iter().enumerate() {
        if i == 1 {
            continue; // the deleted body's cache is allowed to dangle
        }
        let cache = body.ids.joint_graph_index;
        if cache != INVALID_U32 {
            assert_eq!(js.joint_graph().nodes[cache as usize].0 as usize, i);
        }
    }
    // cascading deletion always wakes both endpoints of removed joints
    assert!(!bodies.bodies[0].activation.sleeping);
    assert!(!bodies.bodies[2].activation.sleeping);
}

#[test]
fn cascading_deletion_on_body_without_joints_is_noop() {
    let mut bodies = dynamic_awake(2);
    let mut islands = IslandManager::new(1);
    let mut js = JointSet::new();
    js.remove_rigid_body(INVALID_U32, &mut islands, &mut bodies);
    assert!(js.is_empty());
    assert_eq!(js.joint_graph().nodes.len(), 0);
}

#[test]
fn island_selection_groups_and_excludes() {
    // island 0: bodies 0,1 dynamic awake; island 1: body 2 dynamic awake,
    // body 3 dynamic asleep
    let mut bodies = world(&[
        (RigidBodyType::Dynamic, false, 0),
        (RigidBodyType::Dynamic, false, 0),
        (RigidBodyType::Dynamic, false, 1),
        (RigidBodyType::Dynamic, true, 1),
    ]);
    let mut islands = IslandManager::new(2);
    let mut js = JointSet::new();
    let b: Vec<_> = (0..4).map(joints::RigidBodyHandle).collect();
    js.insert(&mut bodies, b[0], b[1], JointParams::Ball); // edge 0
    js.insert(&mut bodies, b[2], b[3], JointParams::Fixed); // edge 1

    let mut out: Vec<Vec<usize>> = vec![vec![], vec![]];
    js.select_active_interactions(&islands, &bodies, &mut out);
    assert_eq!(out[0], vec![0]);
    assert!(out[1].is_empty());

    // waking the sleeping body and recomputing includes its joint
    islands.wake_up(&mut bodies, b[3], true);
    js.select_active_interactions(&islands, &bodies, &mut out);
    assert_eq!(out[0], vec![0]);
    assert_eq!(out[1], vec![1]);
}

#[test]
fn island_selection_files_anchored_joint_under_dynamic_partner() {
    // a joint against a static anchor goes to its dynamic partner's island;
    // a static-static pair is never selected
    let mut bodies = world(&[
        (RigidBodyType::Static, false, 0),
        (RigidBodyType::Dynamic, false, 1),
        (RigidBodyType::Static, false, 0),
    ]);
    let islands = IslandManager::new(2);
    let mut js = JointSet::new();
    let b: Vec<_> = (0..3).map(joints::RigidBodyHandle).collect();
    js.insert(&mut bodies, b[0], b[1], JointParams::Ball); // edge 0: static-dynamic
    js.insert(&mut bodies, b[0], b[2], JointParams::Fixed); // edge 1: static-static

    let mut out: Vec<Vec<usize>> = vec![vec![], vec![]];
    js.select_active_interactions(&islands, &bodies, &mut out);
    assert!(out[0].is_empty());
    assert_eq!(out[1], vec![0]);
}

#[test]
fn island_selection_clears_only_repopulated_buckets() {
    let mut bodies = world(&[
        (RigidBodyType::Dynamic, false, 0),
        (RigidBodyType::Dynamic, false, 0),
    ]);
    let islands = IslandManager::new(1);
    let mut js = JointSet::new();
    let b0 = joints::RigidBodyHandle(0);
    let b1 = joints::RigidBodyHandle(1);
    js.insert(&mut bodies, b0, b1, JointParams::Ball);
    let mut out: Vec<Vec<usize>> = vec![vec![17, 23], vec![99]];
    js.select_active_interactions(&islands, &bodies, &mut out);
    assert_eq!(out[0], vec![0]);
    assert_eq!(out[1], vec![99]); // beyond the island count: untouched
}

#[test]
fn get_unknown_gen_finds_entry_by_position() {
    let mut bodies = dynamic_awake(2);
    let mut islands = IslandManager::new(1);
    let mut js = JointSet::new();
    let b0 = joints::RigidBodyHandle(0);
    let b1 = joints::RigidBodyHandle(1);
    let h = js.insert(&mut bodies, b0, b1, JointParams::Prismatic);
    let (j, found) = js.get_unknown_gen(0).unwrap();
    assert_eq!(found, h);
    assert_eq!(j.params, JointParams::Prismatic);
    js.remove(h, &mut islands, &mut bodies, false);
    assert!(js.get_unknown_gen(0).is_none());
}

#[test]
fn iter_lists_all_joints_in_edge_order() {
    let mut bodies = dynamic_awake(3);
    let mut js = JointSet::new();
    let b: Vec<_> = (0..3).map(joints::RigidBodyHandle).collect();
    let h0 = js.insert(&mut bodies, b[0], b[1], JointParams::Ball);
    let h1 = js.insert(&mut bodies, b[1], b[2], JointParams::Fixed);
    let all = js.iter();
    assert_eq!(all.len(), 2);
    assert_eq!(all[0].0, h0);
    assert_eq!(all[1].0, h1);
    assert_eq!(all[0].1.params, JointParams::Ball);
    assert_eq!(all[1].1.params, JointParams::Fixed);
}

#[test]
fn get_mut_updates_params_in_place() {
    let mut bodies = dynamic_awake(2);
    let mut js = JointSet::new();
    let b0 = joints::RigidBodyHandle(0);
    let b1 = joints::RigidBodyHandle(1);
    let h = js.insert(&mut bodies, b0, b1, JointParams::Ball);
    {
        let j = js.get_mut(h).unwrap();
        j.params = JointParams::Revolute;
    }
    assert_eq!(js.get(h).unwrap().params, JointParams::Revolute);
    assert!(js.get_mut(JointHandle::invalid()).is_none());
}

#[test]
fn get_unknown_gen_mut_sees_current_occupant() {
    let mut bodies = dynamic_awake(2);
    let mut js = JointSet::new();
    let b0 = joints::RigidBodyHandle(0);
    let b1 = joints::RigidBodyHandle(1);
    let h = js.insert(&mut bodies, b0, b1, JointParams::Ball);
    let (j, found) = js.get_unknown_gen_mut(0).unwrap();
    j.params = JointParams::Fixed;
    assert_eq!(found, h);
    assert_eq!(js.get(h).unwrap().params, JointParams::Fixed);
}

#[test]
fn joints_vec_mut_exposes_edge_array() {
    let mut bodies = dynamic_awake(2);
    let mut js = JointSet::new();
    let b0 = joints::RigidBodyHandle(0);
    let b1 = joints::RigidBodyHandle(1);
    let h = js.insert(&mut bodies, b0, b1, JointParams::Ball);
    let edges = js.joints_vec_mut();
    assert_eq!(edges.len(), 1);
    assert_eq!(edges[0].weight.handle, h);
}

#[test]
fn nodes_are_created_lazily_and_cached() {
    let mut bodies = dynamic_awake(3);
    let mut js = JointSet::new();
    let b: Vec<_> = (0..3).map(joints::RigidBodyHandle).collect();
    for body in &bodies.bodies {
        assert_eq!(body.ids.joint_graph_index, INVALID_U32);
    }
    assert_eq!(js.joint_graph().nodes.len(), 0);
    js.insert(&mut bodies, b[0], b[1], JointParams::Ball);
    assert_eq!(js.joint_graph().nodes.len(), 2);
    for i in 0..2 {
        let cache = bodies.bodies[i].ids.joint_graph_index;
        assert_ne!(cache, INVALID_U32);
        assert_eq!(js.joint_graph().nodes[cache as usize].0 as usize, i);
    }
    assert_eq!(bodies.bodies[2].ids.joint_graph_index, INVALID_U32);
    // a second joint between the same bodies adds no node
    js.insert(&mut bodies, b[0], b[1], JointParams::Fixed);
    assert_eq!(js.joint_graph().nodes.len(), 2);
    assert_eq!(js.len(), 2);
}

#[test]
fn joints_mut_exposes_edges_as_slice() {
    let mut bodies = dynamic_awake(2);
    let mut js = JointSet::new();
    let b0 = joints::RigidBodyHandle(0);
    let b1 = joints::RigidBodyHandle(1);
    let h = js.insert(&mut bodies, b0, b1, JointParams::Ball);
    let edges = js.joints_mut();
    edges[0].weight.params = JointParams::Prismatic;
    assert_eq!(js.get(h).unwrap().params, JointParams::Prismatic);
}
