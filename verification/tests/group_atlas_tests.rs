use cargo_vendormod::group_atlas::{
    create_alternating_group, create_cyclic_group, n, CompositionType, FiniteSimpleGroup, GroupAtlas, GroupFamily,
    SporadicGroup,
};
use num_bigint::BigUint;

fn value(s: &str) -> BigUint {
    s.parse::<BigUint>().unwrap()
}

#[test]
fn test_cyclic_group_creation() {
    let atlas = GroupAtlas::new();
    let group = atlas.groups.iter().find(|g| matches!(g.family, GroupFamily::Cyclic));
    assert!(group.is_some());
    let group = group.unwrap();
    assert!(group.properties.simple);
    assert_eq!(group.get_tile_size(), (64, 64));
}

#[test]
fn test_alternating_group_creation() {
    let atlas = GroupAtlas::new();
    let group = atlas.groups.iter().find(|g| matches!(g.family, GroupFamily::Alternating));
    assert!(group.is_some());
    let group = group.unwrap();
    assert!(group.properties.simple);
    assert!(group.properties.perfect);
}

#[test]
fn test_group_composition() {
    let mut atlas = GroupAtlas::new();
    atlas.create_composition(
        "C_2 × C_3".to_string(),
        vec!["C_2".to_string(), "C_3".to_string()],
        CompositionType::DirectProduct,
    );

    assert_eq!(atlas.compositions.len(), 1);
    assert_eq!(value(&atlas.compositions[0].order), BigUint::from(6u32));
}

#[test]
fn test_group_sorting() {
    let atlas = GroupAtlas::new();
    let sorted = atlas.get_groups_sorted_by_order();

    for i in 1..sorted.len() {
        assert!(value(&sorted[i - 1].order) <= value(&sorted[i].order));
    }
}

#[test]
fn test_family_filtering() {
    let atlas = GroupAtlas::new();
    let cyclic_groups = atlas.get_groups_by_family(GroupFamily::Cyclic);

    assert!(!cyclic_groups.is_empty());
    for group in cyclic_groups {
        assert!(matches!(group.family, GroupFamily::Cyclic));
    }
}

#[test]
fn atlas_holds_the_catalogue_in_order() {
    let atlas = GroupAtlas::default();
    assert_eq!(atlas.groups.len(), 31);
    assert!(atlas.compositions.is_empty());
    assert_eq!(atlas.groups[0].name, "C_2");
    assert_eq!(atlas.groups[11].name, "A_5");
    assert_eq!(atlas.groups[11].order, "60");
    assert_eq!(atlas.groups[17].name, "A_11");
    assert_eq!(atlas.groups[17].order, "19958400");
    assert_eq!(atlas.groups[18].name, "PSL(2,4)");
    assert_eq!(atlas.groups[30].name, "Monster");
    assert_eq!(atlas.groups[30].order, "808017424794512875886459904961710757005754368000000000");
    assert!(matches!(atlas.groups[30].family, GroupFamily::Sporadic(SporadicGroup::Monster)));
}

#[test]
fn get_group_finds_by_name() {
    let atlas = GroupAtlas::new();
    let g = atlas.get_group("Mathieu11").unwrap();
    assert_eq!(g.order, "7920");
    assert_eq!(g.get_complexity(), 4);
    assert_eq!(g.get_color(), "#96CEB4");
    assert!(atlas.get_group("Baby Monster").is_none());
}

#[test]
fn sorted_groups_start_with_smallest_and_keep_ties_in_order() {
    let atlas = GroupAtlas::new();
    let sorted = atlas.get_groups_sorted_by_order();
    assert_eq!(sorted.len(), atlas.groups.len());
    assert_eq!(sorted[0].name, "C_2");
    assert_eq!(sorted.last().unwrap().name, "Monster");
    // A_5, PSL(2,4) and PSL(2,5) all have order 60 and keep the atlas's order.
    let sixty: Vec<&str> = sorted.iter().filter(|g| g.order == "60").map(|g| g.name.as_str()).collect();
    assert_eq!(sixty, vec!["A_5", "PSL(2,4)", "PSL(2,5)"]);
    // Orders compare as numbers, not as strings: 7920 comes before 10200960.
    let pos = |name: &str| sorted.iter().position(|g| g.name == name).unwrap();
    assert!(pos("Mathieu11") < pos("Mathieu23"));
}

#[test]
fn composition_with_unknown_group_changes_nothing() {
    let mut atlas = GroupAtlas::new();
    atlas.create_composition(
        "C_2 × X".to_string(),
        vec!["C_2".to_string(), "X".to_string()],
        CompositionType::SemidirectProduct,
    );
    assert!(atlas.compositions.is_empty());
}

#[test]
fn composition_visualization_and_empty_product() {
    let mut atlas = GroupAtlas::new();
    atlas.create_composition(
        "A_5 wr M11".to_string(),
        vec!["A_5".to_string(), "Mathieu11".to_string(), "C_2".to_string()],
        CompositionType::WreathProduct,
    );
    let c = &atlas.compositions[0];
    assert_eq!(c.order, "950400");
    assert_eq!(c.visualization.tile_size, (192, 192));
    assert_eq!(c.visualization.complexity, 5);
    assert_eq!(c.visualization.color_scheme, "composite");
    assert_eq!(c.visualization.pattern, "mosaic");
    assert_eq!(c.visualization.connections, vec!["A_5", "Mathieu11", "C_2"]);
    assert_eq!(c.composition_type, CompositionType::WreathProduct);

    atlas.create_composition("unit".to_string(), vec![], CompositionType::CentralProduct);
    let u = &atlas.compositions[1];
    assert_eq!(u.order, "1");
    assert_eq!(u.visualization.tile_size, (0, 0));
    assert_eq!(u.visualization.complexity, 1);
}

#[test]
fn direct_products_of_all_composable_pairs() {
    let mut atlas = GroupAtlas::new();
    atlas.generate_all_direct_products();
    // 31 groups give 465 pairs, and every pair composes: groups of one
    // family differ in order, and PSL(2,4)/PSL(2,5) or PSL(2,7)/PSL(3,2),
    // of equal orders, differ in family.
    assert_eq!(atlas.compositions.len(), 465);
    assert_eq!(atlas.compositions[0].name, "C_2 × C_3");
    assert_eq!(atlas.compositions[0].order, "6");
    assert_eq!(atlas.compositions[0].groups, vec!["C_2", "C_3"]);
    assert_eq!(atlas.compositions.last().unwrap().name, "Mathieu24 × Monster");
}

#[test]
fn groups_of_same_family_and_order_do_not_compose() {
    let a = create_cyclic_group(5);
    let b = create_cyclic_group(5);
    assert!(!a.can_compose_with(&b));
    let c = create_alternating_group(5);
    assert!(a.can_compose_with(&c));
    assert_eq!(a.direct_product_order(&c), "300");
}

#[test]
fn group_parts_and_tiles() {
    let a7 = create_alternating_group(7);
    assert_eq!(a7.name, "A_7");
    assert_eq!(a7.order, "2520");
    assert_eq!(a7.properties.schur_multiplier, vec![6]);
    assert_eq!(a7.properties.conjugacy_classes, 21);
    assert_eq!(a7.get_tile_size(), (112, 112));
    let g = FiniteSimpleGroup::new(
        "G".to_string(),
        "12".to_string(),
        GroupFamily::Cyclic,
        "g".to_string(),
        a7.properties,
        a7.visualization,
    );
    assert_eq!(g.get_tile_size(), (80, 80));
    assert_eq!(n { value: 2, field_size: 9 }.to_string(), "2(9)");
}

#[test]
fn alternating_groups_up_to_degree_34() {
    let g = create_alternating_group(34);
    assert_eq!(g.order, "147616399519802070423809304821760000000");
    assert_eq!(g.name, "A_34");
    assert_eq!(create_alternating_group(5).order, "60");
    assert_eq!(create_alternating_group(1).order, "0");
}
