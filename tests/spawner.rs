use warbler_grass::dithering::Position;
use warbler_grass::grass_spawner::{
    GrassBlade, GrassSpawner, HeightRepresentation, Position3, SourceSlot, SpawnerError,
};
use warbler_grass::map::{DensityMap, HeightMap};

fn p3(x: i32, y: i32, z: i32) -> Position3 {
    Position3 { x, y, z }
}

#[test]
fn positions_then_density_map_is_refused() {
    let s = GrassSpawner::new().with_positions_xz(vec![Position { x: 1, z: 2 }]).unwrap();
    let r = s.with_density_map(DensityMap::new(7, 1000));
    assert_eq!(r.unwrap_err(), SpawnerError::AlreadyDefined(SourceSlot::Horizontal));
}

#[test]
fn density_map_then_positions_is_refused() {
    let s = GrassSpawner::new().with_density_map(DensityMap::new(7, 1000)).unwrap();
    assert!(s.flags.density_map && s.flags.xz_defined);
    let r = s.with_positions_xz(vec![Position { x: 1, z: 2 }]);
    assert_eq!(r.unwrap_err(), SpawnerError::AlreadyDefined(SourceSlot::Horizontal));
}

#[test]
fn ground_heights_and_height_map_exclude_each_other() {
    let s = GrassSpawner::new().with_positions_y(vec![3]).unwrap();
    let r = s.with_height_map(HeightMap { height_map: 4 });
    assert_eq!(r.unwrap_err(), SpawnerError::AlreadyDefined(SourceSlot::Vertical));
    let s = GrassSpawner::new().with_height_map(HeightMap { height_map: 4 }).unwrap();
    let r = s.with_positions_y(vec![3]);
    assert_eq!(r.unwrap_err(), SpawnerError::AlreadyDefined(SourceSlot::Vertical));
}

#[test]
fn heights_given_twice_are_refused() {
    let s = GrassSpawner::new().with_height_uniform(2000).unwrap();
    let r = s.clone().with_heights(vec![1000]);
    assert_eq!(r.unwrap_err(), SpawnerError::AlreadyDefined(SourceSlot::Height));
    let r = s.with_height_uniform(3000);
    assert_eq!(r.unwrap_err(), SpawnerError::AlreadyDefined(SourceSlot::Height));
}

#[test]
fn empty_lists_are_refused() {
    assert_eq!(
        GrassSpawner::new().with_positions_xz(vec![]).unwrap_err(),
        SpawnerError::EmptyInput
    );
    assert_eq!(GrassSpawner::new().with_positions_y(vec![]).unwrap_err(), SpawnerError::EmptyInput);
    assert_eq!(GrassSpawner::new().with_heights(vec![]).unwrap_err(), SpawnerError::EmptyInput);
    assert_eq!(GrassSpawner::new().with_positions(vec![]).unwrap_err(), SpawnerError::EmptyInput);
    assert_eq!(
        GrassSpawner::new().from_grass_blades(vec![]).unwrap_err(),
        SpawnerError::EmptyInput
    );
}

#[test]
fn non_positive_heights_are_refused() {
    assert_eq!(
        GrassSpawner::new().with_heights(vec![1000, 0]).unwrap_err(),
        SpawnerError::NonPositiveHeight
    );
    assert_eq!(
        GrassSpawner::new().with_height_uniform(-5).unwrap_err(),
        SpawnerError::NonPositiveHeight
    );
}

#[test]
fn lengths_must_match() {
    let s = GrassSpawner::new().with_positions_xz(vec![Position { x: 0, z: 0 }; 3]).unwrap();
    assert_eq!(s.clone().with_positions_y(vec![1, 2]).unwrap_err(), SpawnerError::LengthMismatch);
    assert_eq!(s.clone().with_heights(vec![1, 2]).unwrap_err(), SpawnerError::LengthMismatch);
    let s = s.with_heights(vec![1, 2, 3]).unwrap();
    assert_eq!(s.blade_count(), 3);
}

#[test]
fn from_positions_splits_positions() {
    let s = GrassSpawner::from_positions(vec![p3(1, 2, 3), p3(4, 5, 6)]).unwrap();
    assert_eq!(s.positions_xz, vec![Position { x: 1, z: 3 }, Position { x: 4, z: 6 }]);
    assert_eq!(s.positions_y, vec![2, 5]);
    assert!(s.flags.xz_defined && s.flags.y_defined && !s.flags.height_defined);
    assert_eq!(s.blade_count(), 2);
}

#[test]
fn from_grass_blades_sets_positions_and_heights() {
    let blades = vec![
        GrassBlade { position: p3(1, 2, 3), height: 500 },
        GrassBlade { position: p3(-1, 0, 7), height: 1500 },
    ];
    let s = GrassSpawner::new().from_grass_blades(blades).unwrap();
    assert_eq!(s.positions_xz, vec![Position { x: 1, z: 3 }, Position { x: -1, z: 7 }]);
    assert_eq!(s.positions_y, vec![2, 0]);
    match s.heights {
        HeightRepresentation::PerBlade(h) => assert_eq!(h, vec![500, 1500]),
        HeightRepresentation::Uniform(_) => panic!("expected per-blade heights"),
    }
}

#[test]
fn new_spawner_has_no_source() {
    let s = GrassSpawner::new();
    assert_eq!(s.blade_count(), 0);
    assert!(s.density_map.is_none() && s.height_map.is_none());
    match s.heights {
        HeightRepresentation::Uniform(h) => assert_eq!(h, 1000),
        HeightRepresentation::PerBlade(_) => panic!("expected a uniform height"),
    }
}

#[test]
fn maps_from_an_asset_alone() {
    assert_eq!(DensityMap::from(4), DensityMap { density_map: 4, density: 1000 });
    assert_eq!(HeightMap::from(9), HeightMap { height_map: 9 });
}
