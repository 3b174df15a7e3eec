use std::sync::{Arc, RwLock};

use glam::{Mat4, Vec3};
use rayon::iter::{IntoParallelIterator, ParallelIterator};
use scene_store::scene::Scene;
use scene_store::table::{Component, ComponentTable, ComponentVec};

const TRANSFORM: u64 = 1;
const CONTROLLER: u64 = 2;
const LABEL: u64 = 3;

#[derive(Debug, Clone, PartialEq)]
enum Part {
    Transform(Mat4),
    Mover(Vec3),
    Label(u32),
}

impl Component for Part {}

fn transform_of(scene: &Scene<Part>, entity: usize) -> Option<Mat4> {
    match scene.get_component_vec(TRANSFORM)?.get(entity) {
        Some(Part::Transform(m)) => Some(*m),
        Some(other) => panic!("transform column holds {:?}", other),
        None => None,
    }
}

fn run_movers(scene: &mut Scene<Part>, order: &[usize]) {
    for &entity in order {
        let step = match scene.get_component_vec(CONTROLLER).unwrap().get(entity) {
            Some(Part::Mover(v)) => *v,
            _ => continue,
        };
        if let Some(Part::Transform(m)) = scene.take_component(TRANSFORM, entity) {
            scene.add_component_to_entity(TRANSFORM, entity, Part::Transform(Mat4::from_translation(step) * m));
        }
    }
}

#[test]
fn transform_registered_on_middle_entity() {
    let mut scene: Scene<Part> = Scene::new();
    assert_eq!(scene.new_entity(), 0);
    assert_eq!(scene.new_entity(), 1);
    assert_eq!(scene.new_entity(), 2);
    scene.add_component_to_entity(TRANSFORM, 1, Part::Transform(Mat4::IDENTITY));
    let table = scene.get_component_vec(TRANSFORM).unwrap();
    assert_eq!(table.len(), 3);
    assert!(table.get(0).is_none());
    assert!(table.get(1).is_some());
    assert!(table.get(2).is_none());
    assert_eq!(scene.new_entity(), 3);
    let table = scene.get_component_vec(TRANSFORM).unwrap();
    assert_eq!(table.len(), 4);
    assert!(table.get(3).is_none());
}

#[test]
fn two_controllers_translate_their_own_entities() {
    for order in [[0usize, 1], [1, 0]] {
        let mut scene: Scene<Part> = Scene::new();
        let a = scene.new_entity();
        let b = scene.new_entity();
        scene.add_component_to_entity(TRANSFORM, a, Part::Transform(Mat4::IDENTITY));
        scene.add_component_to_entity(TRANSFORM, b, Part::Transform(Mat4::IDENTITY));
        scene.add_component_to_entity(CONTROLLER, a, Part::Mover(Vec3::new(1.0, 0.0, 0.0)));
        scene.add_component_to_entity(CONTROLLER, b, Part::Mover(Vec3::new(0.0, 1.0, 0.0)));
        assert_eq!(scene.entities_with(CONTROLLER), vec![a, b]);
        run_movers(&mut scene, &order);
        assert_eq!(transform_of(&scene, a).unwrap().w_axis.truncate(), Vec3::new(1.0, 0.0, 0.0));
        assert_eq!(transform_of(&scene, b).unwrap().w_axis.truncate(), Vec3::new(0.0, 1.0, 0.0));
    }
}

#[test]
fn concurrent_pass_keeps_each_entity_own_write() {
    let n: usize = 32;
    let mut scene: Scene<Part> = Scene::new();
    for i in 0..n {
        let e = scene.new_entity();
        assert_eq!(e, i);
        scene.add_component_to_entity(TRANSFORM, e, Part::Transform(Mat4::IDENTITY));
        scene.add_component_to_entity(CONTROLLER, e, Part::Mover(Vec3::new(i as f32, 0.0, 0.0)));
    }
    let shared = Arc::new(RwLock::new(scene));
    let pass = shared.read().unwrap().entities_with(CONTROLLER);
    assert_eq!(pass.len(), n);
    pass.into_par_iter().for_each(|entity| {
        let mut scene = shared.write().unwrap();
        run_movers(&mut scene, &[entity]);
    });
    let scene = shared.read().unwrap();
    for i in 0..n {
        assert_eq!(transform_of(&scene, i).unwrap().w_axis.truncate(), Vec3::new(i as f32, 0.0, 0.0));
    }
}

#[test]
fn first_registration_back_fills_earlier_entities() {
    let mut scene: Scene<Part> = Scene::new();
    for _ in 0..5 {
        scene.new_entity();
    }
    scene.add_component_to_entity(LABEL, 4, Part::Label(9));
    let table = scene.get_component_vec(LABEL).unwrap();
    assert_eq!(table.len(), 5);
    for i in 0..4 {
        assert!(table.get(i).is_none());
    }
    assert_eq!(table.get(4), Some(&Part::Label(9)));
}

#[test]
fn stored_component_reads_back() {
    let mut scene: Scene<Part> = Scene::new();
    scene.new_entity();
    scene.new_entity();
    scene.add_component_to_entity(LABEL, 1, Part::Label(7));
    assert_eq!(scene.get_component_vec(LABEL).unwrap().get(1), Some(&Part::Label(7)));
    scene.add_component_to_entity(LABEL, 1, Part::Label(8));
    assert_eq!(scene.get_component_vec(LABEL).unwrap().get(1), Some(&Part::Label(8)));
    assert_eq!(scene.get_component_vec(LABEL).unwrap().len(), 2);
}

#[test]
fn unknown_component_type_has_no_table() {
    let mut scene: Scene<Part> = Scene::new();
    assert!(scene.get_component_vec(LABEL).is_none());
    assert!(scene.entities_with(LABEL).is_empty());
    scene.new_entity();
    assert!(scene.get_component_vec(LABEL).is_none());
    assert_eq!(scene.take_component(LABEL, 0), None);
    assert!(scene.get_component_vec(LABEL).is_none());
}

#[test]
fn every_column_grows_with_new_entity() {
    let mut scene: Scene<Part> = Scene::new();
    scene.new_entity();
    scene.add_component_to_entity(LABEL, 0, Part::Label(1));
    scene.add_component_to_entity(TRANSFORM, 0, Part::Transform(Mat4::IDENTITY));
    assert_eq!(scene.new_entity(), 1);
    assert_eq!(scene.new_entity(), 2);
    assert_eq!(scene.entities_index(), 3);
    assert_eq!(scene.get_component_vec(LABEL).unwrap().len(), 3);
    assert_eq!(scene.get_component_vec(TRANSFORM).unwrap().len(), 3);
    assert_eq!(scene.get_component_vec(LABEL).unwrap().get(0), Some(&Part::Label(1)));
}

#[test]
fn presence_listing_skips_absent_entities() {
    let mut scene: Scene<Part> = Scene::new();
    for _ in 0..6 {
        scene.new_entity();
    }
    scene.add_component_to_entity(LABEL, 4, Part::Label(4));
    scene.add_component_to_entity(LABEL, 1, Part::Label(1));
    scene.add_component_to_entity(LABEL, 5, Part::Label(5));
    assert_eq!(scene.entities_with(LABEL), vec![1, 4, 5]);
    assert_eq!(scene.get_component_vec(LABEL).unwrap().present_entities(), vec![1, 4, 5]);
}

#[test]
fn take_component_leaves_slot_absent() {
    let mut scene: Scene<Part> = Scene::new();
    scene.new_entity();
    scene.new_entity();
    scene.add_component_to_entity(LABEL, 0, Part::Label(3));
    assert_eq!(scene.take_component(LABEL, 0), Some(Part::Label(3)));
    assert_eq!(scene.take_component(LABEL, 0), None);
    assert_eq!(scene.get_component_vec(LABEL).unwrap().len(), 2);
    assert!(scene.entities_with(LABEL).is_empty());
}

#[test]
fn table_operations() {
    let mut table: ComponentTable<u32> = ComponentTable::with_absent(2);
    assert_eq!(table.len(), 2);
    assert_eq!(table.slot_count(), 2);
    table.set(1, 11);
    table.push_none();
    table.push_absent();
    assert_eq!(table.len(), 4);
    assert_eq!(table.get(1), Some(&11));
    table.take(1);
    table.set(3, 30);
    *table.slot_mut(0) = Some(10);
    assert_eq!(table.get(0), Some(&10));
    assert_eq!(table.get(1), None);
    assert_eq!(table.get(3), Some(&30));
    assert_eq!(table.take(3), Some(30));
    assert_eq!(table.present_entities(), vec![0]);
    let empty: ComponentTable<u32> = ComponentTable::new();
    assert_eq!(empty.len(), 0);
    assert!(empty.present_entities().is_empty());
}

#[test]
fn owners_of_several_types_skip_partial_entities() {
    let mut scene: Scene<Part> = Scene::new();
    for _ in 0..5 {
        scene.new_entity();
    }
    for e in [0usize, 2, 3] {
        scene.add_component_to_entity(TRANSFORM, e, Part::Transform(Mat4::IDENTITY));
    }
    for e in [2usize, 3, 4] {
        scene.add_component_to_entity(LABEL, e, Part::Label(e as u32));
    }
    assert_eq!(scene.entities_with_all(&vec![TRANSFORM, LABEL]), vec![2, 3]);
    assert_eq!(scene.entities_with_all(&vec![TRANSFORM]), vec![0, 2, 3]);
    assert!(scene.entities_with_all(&vec![TRANSFORM, CONTROLLER]).is_empty());
    assert_eq!(scene.entities_with_all(&vec![]), vec![0, 1, 2, 3, 4]);
}

#[test]
fn stored_value_survives_later_calls() {
    let mut scene: Scene<Part> = Scene::new();
    scene.new_entity();
    scene.new_entity();
    scene.add_component_to_entity(LABEL, 0, Part::Label(5));
    scene.new_entity();
    scene.add_component_to_entity(LABEL, 1, Part::Label(6));
    scene.add_component_to_entity(TRANSFORM, 0, Part::Transform(Mat4::IDENTITY));
    let table = scene.get_component_vec(LABEL).unwrap();
    assert_eq!(table.len(), 3);
    assert_eq!(table.get(0), Some(&Part::Label(5)));
    assert_eq!(table.get(1), Some(&Part::Label(6)));
    assert!(table.get(2).is_none());
}
