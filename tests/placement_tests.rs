use iroha::index::Iroha;
use iroha::model::{check_model, index_model, DecodedModel, SetupError};
use iroha::placement::{grid_position, place_instances, Placement};
use iroha::scene::{AssetLoadingState, Scene};

fn model(names: &[&str], groups: &[&[u64]]) -> DecodedModel {
    DecodedModel {
        node_names: names.iter().map(|s| s.to_string()).collect(),
        mesh_groups: groups.iter().map(|g| g.to_vec()).collect(),
    }
}

fn grid_model(n: usize) -> DecodedModel {
    DecodedModel {
        node_names: (0..n).map(|i| format!("node{}", i)).collect(),
        mesh_groups: (0..n).map(|i| vec![100 + i as u64, 900 + i as u64]).collect(),
    }
}

#[test]
fn add_and_look_up_both_ways() {
    let mut index = Iroha::new();
    index.add_mesh("hair", 4);
    index.add_mesh("body", 9);
    assert_eq!(index.get_mesh("hair"), Some(4));
    assert_eq!(index.get_mesh("body"), Some(9));
    assert_eq!(index.get_mesh("hand"), None);
    assert_eq!(index.get_name(&9), Some("body".to_string()));
    assert_eq!(index.get_name(&5), None);
    let mut all = index.all_meshes();
    all.sort();
    assert_eq!(all, vec![4, 9]);
}

#[test]
fn insert_overwrites_name_and_mesh() {
    let mut index = Iroha::new();
    index.add_mesh("a", 1);
    index.add_mesh("b", 2);
    // same name: the name moves to the new mesh
    index.add_mesh("a", 3);
    assert_eq!(index.get_mesh("a"), Some(3));
    assert_eq!(index.get_name(&1), None);
    // same mesh: the earlier name loses it
    index.add_mesh("c", 2);
    assert_eq!(index.get_mesh("b"), None);
    assert_eq!(index.get_name(&2), Some("c".to_string()));
    let mut all = index.all_meshes();
    all.sort();
    assert_eq!(all, vec![2, 3]);
}

#[test]
fn grid_position_values() {
    assert_eq!(grid_position(0), (-3, -1, 0));
    assert_eq!(grid_position(9), (6, -1, 0));
    assert_eq!(grid_position(10), (-3, 0, 0));
    assert_eq!(grid_position(47), (4, 3, 0));
}

#[test]
fn every_instance_sits_on_its_grid_cell() {
    let m = grid_model(25);
    let mut scene = Scene::new();
    assert_eq!(scene.on_loaded(&m), Ok(()));
    let inst = scene.instances();
    assert_eq!(inst.len(), 25);
    for (i, p) in inst.iter().enumerate() {
        assert_eq!(p.x, (i % 10) as i64 - 3);
        assert_eq!(p.y, (i / 10) as i64 - 1);
        assert_eq!(p.z, 0);
        assert_eq!(p.mesh, 100 + i as u64);
    }
}

#[test]
fn counts_match_the_number_of_mesh_groups() {
    let m = grid_model(12);
    let mut scene = Scene::new();
    assert_eq!(scene.on_loaded(&m), Ok(()));
    assert_eq!(scene.instances().len(), 12);
    assert_eq!(scene.index().all_meshes().len(), 12);
}

#[test]
fn repeated_name_gives_fewer_entries_but_all_instances() {
    let m = model(&["a", "b", "a"], &[&[1], &[2], &[3]]);
    let mut scene = Scene::new();
    assert_eq!(scene.on_loaded(&m), Ok(()));
    assert_eq!(scene.index().all_meshes().len(), 2);
    let meshes: Vec<u64> = scene.instances().iter().map(|p| p.mesh).collect();
    assert_eq!(meshes, vec![3, 2, 3]);
}

#[test]
fn shared_mesh_loses_the_earlier_name() {
    let m = model(&["a", "b"], &[&[5], &[5]]);
    let mut scene = Scene::new();
    assert_eq!(scene.on_loaded(&m), Err(SetupError::GeometryNotFound { index: 0 }));
    assert!(scene.instances().is_empty());
    assert_eq!(scene.index().get_mesh("b"), Some(5));
}

#[test]
fn placement_is_deterministic() {
    let m = grid_model(17);
    let mut first = Scene::new();
    let mut second = Scene::new();
    assert_eq!(first.on_loaded(&m), Ok(()));
    assert_eq!(second.on_loaded(&m), Ok(()));
    assert_eq!(first.instances(), second.instances());
}

#[test]
fn second_run_is_refused() {
    let m = grid_model(3);
    let mut scene = Scene::new();
    assert_eq!(scene.on_loaded(&m), Ok(()));
    let before: Vec<Placement> = scene.instances().clone();
    assert_eq!(scene.on_loaded(&m), Err(SetupError::AlreadyPlaced));
    assert_eq!(scene.instances(), &before);
    assert_eq!(scene.index().all_meshes().len(), 3);
    assert_eq!(scene.state(), AssetLoadingState::Loaded);
}

#[test]
fn empty_model_places_nothing() {
    let m = model(&[], &[]);
    let mut scene = Scene::new();
    assert_eq!(scene.on_loaded(&m), Ok(()));
    assert!(scene.instances().is_empty());
    assert!(scene.index().all_meshes().is_empty());
}

#[test]
fn length_mismatch_is_refused() {
    let m = model(&["a", "b"], &[&[1]]);
    assert_eq!(check_model(&m), Err(SetupError::LengthMismatch));
    let mut index = Iroha::new();
    assert_eq!(index_model(&mut index, &m), Err(SetupError::LengthMismatch));
    assert!(index.all_meshes().is_empty());
}

#[test]
fn missing_primitive_is_refused_before_indexing() {
    let m = model(&["a", "b", "c", "d"], &[&[1], &[2], &[], &[]]);
    let mut index = Iroha::new();
    assert_eq!(index_model(&mut index, &m), Err(SetupError::MissingPrimitive { index: 2 }));
    assert!(index.all_meshes().is_empty());
    let mut scene = Scene::new();
    assert_eq!(scene.on_loaded(&m), Err(SetupError::MissingPrimitive { index: 2 }));
    assert!(scene.instances().is_empty());
}

#[test]
fn placement_without_index_reports_first_gap() {
    let m = model(&["a", "b"], &[&[1], &[2]]);
    let mut index = Iroha::new();
    index.add_mesh("a", 1);
    assert_eq!(place_instances(&index, &m), Err(SetupError::GeometryNotFound { index: 1 }));
    index.add_mesh("b", 2);
    let placed = place_instances(&index, &m).unwrap();
    assert_eq!(placed[1], Placement { mesh: 2, x: -2, y: -1, z: 0 });
}

#[test]
fn index_uses_first_primitive() {
    let m = model(&["a"], &[&[7, 8, 9]]);
    let mut index = Iroha::new();
    assert_eq!(index_model(&mut index, &m), Ok(()));
    assert_eq!(index.get_mesh("a"), Some(7));
    assert_eq!(index.get_name(&8), None);
}

#[test]
fn latch_moves_forward_only() {
    let s = AssetLoadingState::Loading;
    assert!(!s.is_loaded());
    let t = s.finish();
    assert!(t.is_loaded());
    assert_eq!(t.finish(), AssetLoadingState::Loaded);
    assert_eq!(Scene::new().state(), AssetLoadingState::Loading);
}

#[test]
fn latch_starts_loading() {
    assert_eq!(AssetLoadingState::default(), AssetLoadingState::Loading);
}
