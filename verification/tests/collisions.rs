use iwm_runtime_core::collision::{
    hazard_death, next_collision_step, CollisionAction, CollisionHitStage, CollisionObservation,
    collision_queries, collision_response, order_collision_hits, trace_collision, CollisionResponse, RuntimeCollisionHit,
};
use iwm_runtime_core::creates::{register_created_instance, CreateRunAction, CreateRunStage, RuntimeCreateQueue};
use iwm_runtime_core::model::RuntimeInstance;
use std::collections::HashMap;

fn instance(object_id: usize, alive: bool) -> RuntimeInstance<f64> {
    RuntimeInstance {
        runtime_id: 0,
        instance_id: 0,
        object_id,
        object_name: String::new(),
        x: 0.0,
        y: 0.0,
        previous_x: 0.0,
        previous_y: 0.0,
        hspeed: 0.0,
        vspeed: 0.0,
        width: 1,
        height: 1,
        origin_x: 0,
        origin_y: 0,
        bbox_left: 0,
        bbox_right: 0,
        bbox_top: 0,
        bbox_bottom: 0,
        facing_left: false,
        alive,
        solid: false,
        hazard: false,
        checkpoint: false,
        player_candidate: false,
        persistent: false,
        visible: true,
        collision_masks: Vec::new(),
        vars: HashMap::new(),
    }
}

fn hit(instance_idx: usize, solid_collision: bool, contact_y: Option<i32>) -> RuntimeCollisionHit {
    RuntimeCollisionHit { instance_idx, target_object_id: 9, other_idx: 1, solid_collision, contact_y }
}

#[test]
fn collision_queries_follow_room_then_target_then_match_order() {
    let mut targets: HashMap<usize, Vec<usize>> = HashMap::new();
    targets.insert(1, vec![5, 6, 7]);
    targets.insert(2, vec![]);
    let mut matching: HashMap<usize, Vec<usize>> = HashMap::new();
    matching.insert(5, vec![5, 50]);
    matching.insert(7, vec![7]);
    let instances = vec![instance(2, true), instance(1, false), instance(1, true), instance(3, true)];
    assert_eq!(collision_queries(&instances, &targets, &matching), vec![(2, 5, 5), (2, 5, 50), (2, 7, 7)]);
}

#[test]
fn solid_hits_come_first_in_found_order() {
    let hits = vec![hit(0, false, None), hit(1, true, None), hit(2, false, Some(3)), hit(3, true, None)];
    let order: Vec<usize> = order_collision_hits(&hits).iter().map(|h| h.instance_idx).collect();
    assert_eq!(order, vec![1, 3, 0, 2]);
}

#[test]
fn hits_are_rechecked_when_their_turn_comes() {
    assert_eq!(collision_response(hit(0, true, None), 2, true, true, true, true), CollisionResponse::Rollback);
    assert_eq!(collision_response(hit(0, true, None), 2, true, true, false, true), CollisionResponse::Skip);
    assert_eq!(collision_response(hit(0, false, Some(40)), 2, true, true, false, false), CollisionResponse::Land { contact_y: 40 });
    assert_eq!(collision_response(hit(0, false, None), 2, true, true, true, false), CollisionResponse::Touch);
    assert_eq!(collision_response(hit(0, false, None), 2, true, false, true, false), CollisionResponse::Skip);
    assert_eq!(collision_response(hit(4, false, None), 2, true, true, true, false), CollisionResponse::Skip);
}

#[test]
fn creations_run_first_in_first_out() {
    let mut queue = RuntimeCreateQueue::from_requests(vec!["a", "b"]);
    let mut order = Vec::new();
    while let Some(request) = queue.next_create() {
        order.push(request);
        let requested = if request == "a" { vec!["a1", "a2"] } else { Vec::new() };
        assert!(queue.after_create(requested, false));
    }
    assert_eq!(order, vec!["a", "b", "a1", "a2"]);
    assert!(queue.into_remaining().is_empty());
}

#[test]
fn a_scene_change_hands_back_what_is_left() {
    let mut queue = RuntimeCreateQueue::from_requests(vec![1, 2, 3]);
    assert_eq!(queue.next_create(), Some(1));
    assert!(!queue.after_create(vec![10], true));
    assert_eq!(queue.into_remaining(), vec![10, 2, 3]);
}

#[test]
fn created_instances_are_filed_under_their_object() {
    let mut by_object: HashMap<usize, Vec<usize>> = HashMap::new();
    by_object.insert(4, vec![0]);
    register_created_instance(&mut by_object, 4, 7);
    register_created_instance(&mut by_object, 5, 8);
    assert_eq!(by_object[&4], vec![0, 7]);
    assert_eq!(by_object[&5], vec![8]);
}

#[test]
fn player_collisions_are_traced_when_rising_or_hazardous() {
    assert!(trace_collision(false, true, true, false, true));
    assert!(trace_collision(false, true, false, true, false));
    assert!(!trace_collision(false, true, true, false, false));
    assert!(!trace_collision(false, false, true, true, true));
    assert!(!trace_collision(false, true, false, false, true));
    assert!(trace_collision(true, false, false, false, false));
}

fn observe(response: CollisionResponse, hazard_death: bool, solid_now: bool, still_overlapping: bool) -> CollisionObservation {
    CollisionObservation { response, hazard_death, solid_now, still_overlapping }
}

fn hit_actions(seen: CollisionObservation) -> Vec<CollisionAction> {
    let mut stage = CollisionHitStage::Start;
    let mut out = Vec::new();
    loop {
        let (next, action) = next_collision_step(stage, seen);
        if action == CollisionAction::Done {
            return out;
        }
        out.push(action);
        stage = next;
    }
}

#[test]
fn a_solid_hit_runs_its_event_then_reapplies_and_resolves() {
    assert_eq!(
        hit_actions(observe(CollisionResponse::Rollback, true, true, true)),
        vec![
            CollisionAction::ApplyResponse,
            CollisionAction::RunCollisionEvent,
            CollisionAction::RecordHazardDeath,
            CollisionAction::ReapplySpeeds,
            CollisionAction::ResolveFinalOverlap,
            CollisionAction::FlushTrace,
        ]
    );
    assert_eq!(
        hit_actions(observe(CollisionResponse::Touch, false, false, true)),
        vec![CollisionAction::ApplyResponse, CollisionAction::RunCollisionEvent, CollisionAction::FlushTrace]
    );
    assert!(hit_actions(observe(CollisionResponse::Skip, true, true, true)).is_empty());
    assert!(hazard_death(true, true, false));
    assert!(!hazard_death(true, true, true));
    assert!(!hazard_death(false, true, false));
}

#[test]
fn a_creation_run_queues_requests_and_hands_back_on_scene_changes() {
    let mut queue = RuntimeCreateQueue::from_requests(vec![1, 2]);
    let (stage, action) = queue.next_create_step(CreateRunStage::Next, Vec::new(), false);
    assert!(matches!(action, CreateRunAction::Create { request: 1 }));
    let (stage, action) = queue.next_create_step(stage, vec![3], false);
    assert!(matches!(action, CreateRunAction::Create { request: 2 }));
    let (stage, action) = queue.next_create_step(stage, vec![4], true);
    assert_eq!(stage, CreateRunStage::Finished);
    match action {
        CreateRunAction::HandBack { remaining } => assert_eq!(remaining, vec![4, 3]),
        _ => panic!("expected a hand-back"),
    }
    let mut empty: RuntimeCreateQueue<i32> = RuntimeCreateQueue::from_requests(Vec::new());
    let (stage, action) = empty.next_create_step(CreateRunStage::Next, Vec::new(), false);
    assert_eq!(stage, CreateRunStage::Finished);
    assert!(matches!(action, CreateRunAction::HandBack { remaining } if remaining.is_empty()));
    assert!(matches!(empty.next_create_step(stage, Vec::new(), false).1, CreateRunAction::Done));
}
