use std::collections::HashSet;

use sbepis::combat::{attack, find_in_ancestors, hit_to_damage, AttackAction};
use sbepis::indicators::check_states;
use sbepis::skybox::{is_skybox_parts_loaded, stitch_skybox, SkyboxError, SkyboxPart, SkyboxSide};
use sbepis::worldgen::{place_poi_structures, PoiStructure};

#[test]
fn ancestors_are_searched_nearest_first() {
    let matching: HashSet<u64> = [3, 5].into_iter().collect();
    assert_eq!(find_in_ancestors(5, &vec![3], &matching), Some(5));
    assert_eq!(find_in_ancestors(1, &vec![2, 5, 3], &matching), Some(5));
    assert_eq!(find_in_ancestors(1, &vec![2, 4], &matching), None);
    assert_eq!(find_in_ancestors(1, &vec![], &matching), None);
}

#[test]
fn hits_spare_allies() {
    let with_health: HashSet<u64> = [2].into_iter().collect();
    let allies: HashSet<u64> = [9].into_iter().collect();
    assert_eq!(hit_to_damage(1, &vec![2, 3], &with_health, &allies), Some(2));
    assert_eq!(hit_to_damage(7, &vec![8], &with_health, &allies), Some(7));
    assert_eq!(hit_to_damage(9, &vec![8], &with_health, &allies), None);
    let allied_parent: HashSet<u64> = [2].into_iter().collect();
    assert_eq!(hit_to_damage(1, &vec![2], &with_health, &allied_parent), None);
}

#[test]
fn attack_actions() {
    assert_eq!(attack(Some(true)), AttackAction::Replay);
    assert_eq!(attack(Some(false)), AttackAction::Continue);
    assert_eq!(attack(None), AttackAction::Start);
}

#[test]
fn skybox_loading_states() {
    let all_loaded: Vec<SkyboxPart> = (0..6).map(|_| SkyboxPart::Loaded).collect();
    assert!(matches!(is_skybox_parts_loaded(&all_loaded), Ok(true)));
    let one_loading = vec![SkyboxPart::Loaded, SkyboxPart::Loading, SkyboxPart::Missing];
    assert!(matches!(is_skybox_parts_loaded(&one_loading), Ok(false)));
    let failing = vec![
        SkyboxPart::Loading,
        SkyboxPart::Failed("bad png".to_string()),
        SkyboxPart::Unknown,
    ];
    match is_skybox_parts_loaded(&failing) {
        Err(SkyboxError::LoadFailed(message)) => assert_eq!(message, "bad png"),
        other => panic!("unexpected {other:?}"),
    }
    let unknown_first = vec![SkyboxPart::Unknown, SkyboxPart::Failed("x".to_string())];
    assert!(matches!(is_skybox_parts_loaded(&unknown_first), Err(SkyboxError::NoLoadState)));
    assert!(matches!(is_skybox_parts_loaded(&vec![SkyboxPart::NotLoaded]), Ok(false)));
}

fn side(width: u32, bytes: &[u8]) -> Option<SkyboxSide> {
    Some(SkyboxSide { width, data: Some(bytes.to_vec()) })
}

#[test]
fn skybox_sides_stack() {
    let sides = vec![side(2, &[1, 2]), side(2, &[3]), side(9, &[]), side(2, &[4, 5, 6])];
    let stitched = stitch_skybox(&sides).unwrap();
    assert_eq!(stitched.width, 2);
    assert_eq!(stitched.height, 12);
    assert_eq!(stitched.data, vec![1, 2, 3, 4, 5, 6]);
}

#[test]
fn skybox_stitching_errors() {
    assert!(matches!(stitch_skybox(&vec![]), Err(SkyboxError::SideImagesNotFound)));
    let missing = vec![side(2, &[1]), None, Some(SkyboxSide { width: 2, data: None })];
    assert!(matches!(stitch_skybox(&missing), Err(SkyboxError::SideImagesNotFound)));
    let no_data = vec![side(2, &[1]), Some(SkyboxSide { width: 2, data: None })];
    assert!(matches!(stitch_skybox(&no_data), Err(SkyboxError::NoImageData)));
}

#[test]
fn debug_state_lists_flagged_names() {
    let names: Vec<String> = ["Standing", "Moving", "Sprinting"].iter().map(|s| s.to_string()).collect();
    assert_eq!(check_states(&vec![true, false, true], &names), "Standing\nSprinting");
    assert_eq!(check_states(&vec![false, true, false], &names), "Moving");
    assert_eq!(check_states(&vec![false, false, false], &names), "");
    assert_eq!(check_states(&vec![true, true], &names), "Standing\nMoving");
}

#[test]
fn poi_structures_alternate() {
    assert_eq!(place_poi_structures(0), PoiStructure::ConsortVillage);
    assert_eq!(place_poi_structures(1), PoiStructure::ImpArena);
    assert_eq!(place_poi_structures(4), PoiStructure::ConsortVillage);
    assert_eq!(place_poi_structures(5), PoiStructure::ImpArena);
}
