use vstd::prelude::*;
use vstd::arithmetic::div_mod::{
    lemma_add_mod_noop, lemma_mod_add_multiples_vanish, lemma_mod_self_0, lemma_small_mod,
};

verus! {

/// Whether `i` is the first position of `weapon` in `weapons`.
pub open spec fn is_first_position(weapons: Seq<u64>, weapon: u64, i: int) -> bool {
    &&& 0 <= i < weapons.len()
    &&& weapons[i] == weapon
    &&& forall|j: int| 0 <= j < i ==> weapons[j] != weapon
}

/// The first position of `weapon` in `weapons` (meaningful when it occurs).
pub open spec fn first_position(weapons: Seq<u64>, weapon: u64) -> int {
    choose|i: int| is_first_position(weapons, weapon, i)
}

/// The weapon after `weapon` in the set, wrapping around; `None` when
/// `weapon` is not in the set.
pub open spec fn spec_next_weapon(weapons: Seq<u64>, weapon: u64) -> Option<u64> {
    if weapons.contains(weapon) {
        Some(weapons[(first_position(weapons, weapon) + 1) % (weapons.len() as int)])
    } else {
        None
    }
}

/// The weapon before `weapon` in the set, wrapping around; `None` when
/// `weapon` is not in the set.
pub open spec fn spec_prev_weapon(weapons: Seq<u64>, weapon: u64) -> Option<u64> {
    if weapons.contains(weapon) {
        Some(weapons[(first_position(weapons, weapon) + weapons.len() - 1) % (weapons.len() as int)])
    } else {
        None
    }
}

pub proof fn lemma_first_position_unique(weapons: Seq<u64>, weapon: u64, i: int)
    requires
        is_first_position(weapons, weapon, i),
    ensures
        weapons.contains(weapon),
        first_position(weapons, weapon) == i,
{
    let k = first_position(weapons, weapon);
    assert(is_first_position(weapons, weapon, k));
    if k < i {
        assert(weapons[k] != weapon);
    } else if i < k {
        assert(weapons[i] != weapon);
    }
}

pub proof fn lemma_contains_has_first_position(weapons: Seq<u64>, weapon: u64)
    requires
        weapons.contains(weapon),
    ensures
        is_first_position(weapons, weapon, first_position(weapons, weapon)),
    decreases weapons.len(),
{
    if weapons[0] == weapon {
        assert(is_first_position(weapons, weapon, 0));
    } else {
        let rest = weapons.drop_first();
        let j = choose|j: int| 0 <= j < weapons.len() && weapons[j] == weapon;
        assert(rest[j - 1] == weapon);
        lemma_contains_has_first_position(rest, weapon);
        let k = first_position(rest, weapon);
        assert(is_first_position(weapons, weapon, k + 1)) by {
            assert forall|m: int| 0 <= m < k + 1 implies weapons[m] != weapon by {
                if m > 0 {
                    assert(weapons[m] == rest[m - 1]);
                }
            }
        }
    }
}

/// `(i + 1) % n` and `(i + n - 1) % n` for a position `i` below `n`.
proof fn lemma_wrapping_steps(i: int, n: int)
    requires
        0 <= i < n,
    ensures
        (i + 1) % n == if i + 1 == n { 0 } else { i + 1 },
        (i + n - 1) % n == if i == 0 { n - 1 } else { i - 1 },
{
    if i + 1 == n {
        lemma_mod_self_0(n);
    } else {
        lemma_small_mod((i + 1) as nat, n as nat);
    }
    if i == 0 {
        lemma_small_mod((n - 1) as nat, n as nat);
    } else {
        lemma_mod_add_multiples_vanish(i - 1, n);
        lemma_small_mod((i - 1) as nat, n as nat);
    }
}

/// Why a weapon switch could not be carried out.
#[derive(Clone, Copy, PartialEq, Eq, Structural, Debug)]
pub enum WeaponError {
    /// The weapon switched away from is not in its set.
    CurrentWeaponNotFound,
}

/// The weapons a character carries, in switching order, and the one in hand.
#[derive(Debug)]
pub struct Weapons {
    pub weapons: Vec<u64>,
    pub active_weapon: Option<u64>,
}

/// The entity a weapon belongs to.
#[derive(Clone, Copy, PartialEq, Eq, Structural, Debug)]
pub struct WeaponOf(pub u64);

impl Weapons {
    /// A weapon set with nothing in hand yet.
    pub fn new(weapons: Vec<u64>) -> (set: Weapons)
        ensures
            set.weapons@ == weapons@,
            set.active_weapon is None,
    {
        Weapons { weapons, active_weapon: None }
    }

    /// Sets up a freshly equipped weapon set: the first weapon goes in hand
    /// unless one already is, and every weapon is shown exactly when it is the
    /// one in hand. Returns, in order, each weapon with whether it is shown;
    /// `None`, with nothing changed, while the set is still empty.
    pub fn initialize_weapon_set(&mut self) -> (shown: Option<Vec<(u64, bool)>>)
        ensures
            final(self).weapons@ == old(self).weapons@,
            old(self).weapons@.len() == 0 ==> shown is None && final(self).active_weapon == old(self).active_weapon,
            old(self).weapons@.len() > 0 ==> (shown matches Some(list) && {
                &&& final(self).active_weapon == match old(self).active_weapon {
                    Some(w) => Some(w),
                    None => Some(old(self).weapons@[0]),
                }
                &&& list@.len() == old(self).weapons@.len()
                &&& forall|i: int| 0 <= i < list@.len() ==> #[trigger] list@[i] == (
                    old(self).weapons@[i],
                    final(self).active_weapon == Some(old(self).weapons@[i]),
                )
            }),
    {
        if self.weapons.len() == 0 {
            return None;
        }
        let active = match self.active_weapon {
            Some(w) => w,
            None => self.weapons[0],
        };
        self.active_weapon = Some(active);
        let mut shown: Vec<(u64, bool)> = Vec::new();
        for i in 0..self.weapons.len()
            invariant
                self.active_weapon == Some(active),
                shown@.len() == i,
                forall|j: int| 0 <= j < i ==> #[trigger] shown@[j] == (
                    self.weapons@[j],
                    self.active_weapon == Some(self.weapons@[j]),
                ),
        {
            let weapon = self.weapons[i];
            shown.push((weapon, weapon == active));
        }
        Some(shown)
    }

    /// The position of the first occurrence of `weapon`.
    fn position(&self, weapon: u64) -> (found: Option<usize>)
        ensures
            match found {
                Some(i) => is_first_position(self.weapons@, weapon, i as int),
                None => !self.weapons@.contains(weapon),
            },
    {
        for i in 0..self.weapons.len()
            invariant
                forall|j: int| 0 <= j < i ==> self.weapons@[j] != weapon,
        {
            if self.weapons[i] == weapon {
                return Some(i);
            }
        }
        None
    }

    /// Switches from `old_weapon` to the next weapon of the set, wrapping
    /// around, and returns it; it is now in hand. Fails, changing nothing, when
    /// `old_weapon` is not in the set.
    pub fn switch_weapon_next(&mut self, old_weapon: u64) -> (result: Result<u64, WeaponError>)
        ensures
            final(self).weapons@ == old(self).weapons@,
            match spec_next_weapon(old(self).weapons@, old_weapon) {
                Some(w) => result == Ok::<u64, WeaponError>(w) && final(self).active_weapon == Some(w),
                None => result == Err::<u64, WeaponError>(WeaponError::CurrentWeaponNotFound)
                    && final(self).active_weapon == old(self).active_weapon,
            },
    {
        let old_index = match self.position(old_weapon) {
            Some(i) => i,
            None => return Err(WeaponError::CurrentWeaponNotFound),
        };
        let len = self.weapons.len();
        proof {
            lemma_first_position_unique(self.weapons@, old_weapon, old_index as int);
            lemma_wrapping_steps(old_index as int, len as int);
        }
        let new_index = if old_index + 1 == len { 0 } else { old_index + 1 };
        let new_weapon = self.weapons[new_index];
        self.active_weapon = Some(new_weapon);
        Ok(new_weapon)
    }

    /// Switches from `old_weapon` to the previous weapon of the set, wrapping
    /// around, and returns it; it is now in hand. Fails, changing nothing, when
    /// `old_weapon` is not in the set.
    pub fn switch_weapon_prev(&mut self, old_weapon: u64) -> (result: Result<u64, WeaponError>)
        ensures
            final(self).weapons@ == old(self).weapons@,
            match spec_prev_weapon(old(self).weapons@, old_weapon) {
                Some(w) => result == Ok::<u64, WeaponError>(w) && final(self).active_weapon == Some(w),
                None => result == Err::<u64, WeaponError>(WeaponError::CurrentWeaponNotFound)
                    && final(self).active_weapon == old(self).active_weapon,
            },
    {
        let old_index = match self.position(old_weapon) {
            Some(i) => i,
            None => return Err(WeaponError::CurrentWeaponNotFound),
        };
        let len = self.weapons.len();
        proof {
            lemma_first_position_unique(self.weapons@, old_weapon, old_index as int);
            lemma_wrapping_steps(old_index as int, len as int);
        }
        let new_index = if old_index == 0 { len - 1 } else { old_index - 1 };
        let new_weapon = self.weapons[new_index];
        self.active_weapon = Some(new_weapon);
        Ok(new_weapon)
    }
}

/// In a set without repeated weapons, switching to the next weapon and then
/// back to the previous one returns to the starting weapon, and the other way
/// round.
pub proof fn lemma_next_then_prev_returns(weapons: Seq<u64>, weapon: u64)
    requires
        weapons.no_duplicates(),
        weapons.contains(weapon),
    ensures
        spec_next_weapon(weapons, weapon) matches Some(next) && spec_prev_weapon(weapons, next) == Some(weapon),
        spec_prev_weapon(weapons, weapon) matches Some(prev) && spec_next_weapon(weapons, prev) == Some(weapon),
{
    let n = weapons.len() as int;
    lemma_contains_has_first_position(weapons, weapon);
    let i = first_position(weapons, weapon);
    lemma_wrapping_steps(i, n);
    let j = (i + 1) % n;
    let k = (i + n - 1) % n;
    assert(is_first_position(weapons, weapons[j], j));
    lemma_first_position_unique(weapons, weapons[j], j);
    lemma_wrapping_steps(j, n);
    assert(is_first_position(weapons, weapons[k], k));
    lemma_first_position_unique(weapons, weapons[k], k);
    lemma_wrapping_steps(k, n);
}

/// Switching, in either direction, always lands on a weapon of the set.
pub proof fn lemma_switch_stays_in_set(weapons: Seq<u64>, weapon: u64)
    requires
        weapons.contains(weapon),
    ensures
        spec_next_weapon(weapons, weapon) matches Some(w) && weapons.contains(w),
        spec_prev_weapon(weapons, weapon) matches Some(w) && weapons.contains(w),
{
    let n = weapons.len() as int;
    lemma_contains_has_first_position(weapons, weapon);
    let i = first_position(weapons, weapon);
    lemma_wrapping_steps(i, n);
    assert(weapons.contains(weapons[(i + 1) % n]));
    assert(weapons.contains(weapons[(i + n - 1) % n]));
}

/// The weapon reached from `weapon` by switching to the next one `k` times.
pub open spec fn next_weapon_times(weapons: Seq<u64>, weapon: u64, k: nat) -> u64
    decreases k,
{
    if k == 0 {
        weapon
    } else {
        match spec_next_weapon(weapons, next_weapon_times(weapons, weapon, (k - 1) as nat)) {
            Some(w) => w,
            None => weapon,
        }
    }
}

proof fn lemma_next_weapon_times_position(weapons: Seq<u64>, weapon: u64, k: nat)
    requires
        weapons.no_duplicates(),
        weapons.contains(weapon),
    ensures
        next_weapon_times(weapons, weapon, k)
            == weapons[(first_position(weapons, weapon) + k) % (weapons.len() as int)],
    decreases k,
{
    let n = weapons.len() as int;
    lemma_contains_has_first_position(weapons, weapon);
    let i = first_position(weapons, weapon);
    if k == 0 {
        lemma_small_mod(i as nat, n as nat);
    } else {
        lemma_next_weapon_times_position(weapons, weapon, (k - 1) as nat);
        let p = (i + k - 1) % n;
        let current = weapons[p];
        assert(0 <= p < n);
        assert(is_first_position(weapons, current, p));
        lemma_first_position_unique(weapons, current, p);
        if n == 1 {
            assert((p + 1) % 1 == 0 && (i + k) % 1 == 0);
        } else {
            lemma_add_mod_noop(i + k - 1, 1, n);
            lemma_small_mod(1, n as nat);
        }
        assert((p + 1) % n == (i + k) % n);
    }
}

/// In a set without repeated weapons, switching to the next weapon as many
/// times as there are weapons comes back to the starting weapon.
pub proof fn lemma_switching_cycles_through_set(weapons: Seq<u64>, weapon: u64)
    requires
        weapons.no_duplicates(),
        weapons.contains(weapon),
    ensures
        next_weapon_times(weapons, weapon, weapons.len()) == weapon,
{
    let n = weapons.len() as int;
    lemma_next_weapon_times_position(weapons, weapon, weapons.len());
    lemma_contains_has_first_position(weapons, weapon);
    let i = first_position(weapons, weapon);
    lemma_mod_add_multiples_vanish(i, n);
    lemma_small_mod(i as nat, n as nat);
}

} // verus!
