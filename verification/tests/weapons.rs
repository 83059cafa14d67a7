use sbepis::weapons::{WeaponError, Weapons};

#[test]
fn initialize_shows_only_first_weapon() {
    let mut set = Weapons::new(vec![10, 11, 12]);
    let shown = set.initialize_weapon_set().unwrap();
    assert_eq!(set.active_weapon, Some(10));
    assert_eq!(shown, vec![(10, true), (11, false), (12, false)]);
}

#[test]
fn initialize_keeps_weapon_in_hand() {
    let mut set = Weapons::new(vec![10, 11, 12]);
    set.active_weapon = Some(12);
    let shown = set.initialize_weapon_set().unwrap();
    assert_eq!(set.active_weapon, Some(12));
    assert_eq!(shown, vec![(10, false), (11, false), (12, true)]);
}

#[test]
fn initialize_waits_for_weapons() {
    let mut set = Weapons::new(vec![]);
    assert_eq!(set.initialize_weapon_set(), None);
    assert_eq!(set.active_weapon, None);
}

#[test]
fn switching_wraps_around() {
    let mut set = Weapons::new(vec![10, 11, 12]);
    assert_eq!(set.switch_weapon_next(10), Ok(11));
    assert_eq!(set.switch_weapon_next(12), Ok(10));
    assert_eq!(set.active_weapon, Some(10));
    assert_eq!(set.switch_weapon_prev(10), Ok(12));
    assert_eq!(set.switch_weapon_prev(11), Ok(10));
    let mut single = Weapons::new(vec![7]);
    assert_eq!(single.switch_weapon_next(7), Ok(7));
    assert_eq!(single.switch_weapon_prev(7), Ok(7));
}

#[test]
fn next_then_prev_returns() {
    let mut set = Weapons::new(vec![3, 1, 4, 5, 9]);
    for w in [3, 1, 4, 5, 9] {
        let next = set.switch_weapon_next(w).unwrap();
        assert_eq!(set.switch_weapon_prev(next), Ok(w));
        let prev = set.switch_weapon_prev(w).unwrap();
        assert_eq!(set.switch_weapon_next(prev), Ok(w));
    }
    let mut w = 3;
    for _ in 0..5 {
        w = set.switch_weapon_next(w).unwrap();
    }
    assert_eq!(w, 3);
}

#[test]
fn switching_uses_first_occurrence() {
    let mut set = Weapons::new(vec![1, 2, 1, 3]);
    assert_eq!(set.switch_weapon_next(1), Ok(2));
    assert_eq!(set.switch_weapon_prev(1), Ok(3));
}

#[test]
fn switching_from_unknown_weapon_fails() {
    let mut set = Weapons::new(vec![10, 11]);
    set.active_weapon = Some(11);
    assert_eq!(set.switch_weapon_next(99), Err(WeaponError::CurrentWeaponNotFound));
    assert_eq!(set.switch_weapon_prev(99), Err(WeaponError::CurrentWeaponNotFound));
    assert_eq!(set.active_weapon, Some(11));
    let mut empty = Weapons::new(vec![]);
    assert_eq!(empty.switch_weapon_next(1), Err(WeaponError::CurrentWeaponNotFound));
}
