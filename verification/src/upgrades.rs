use vstd::prelude::*;
use crate::external::random_u64;

verus! {

/// Upgrade kinds a player can be offered on leveling up.
#[derive(Debug, Clone, Copy, PartialEq, Eq, Hash, Structural)]
pub enum UpgradeType {
    // Weapon upgrades
    IncreaseDamage,
    IncreaseAttackSpeed,
    IncreaseProjectileSpeed,
    /// Fire multiple projectiles
    MultiShot,
    /// Projectiles pierce through enemies
    PiercingShots,
    // Stat upgrades
    IncreaseMaxHealth,
    IncreaseMovementSpeed,
    HealthRegeneration,
    // Passive abilities
    /// Increase XP pickup radius
    PickupRadius,
    /// Auto-collect XP
    Magnet,
    /// Reduce damage taken
    Armor,
    /// Better drops/bonuses
    Luck,
}

/// The full upgrade catalogue, in its fixed order.
pub open spec fn catalogue() -> Seq<UpgradeType> {
    seq![
        UpgradeType::IncreaseDamage,
        UpgradeType::IncreaseAttackSpeed,
        UpgradeType::IncreaseProjectileSpeed,
        UpgradeType::MultiShot,
        UpgradeType::PiercingShots,
        UpgradeType::IncreaseMaxHealth,
        UpgradeType::IncreaseMovementSpeed,
        UpgradeType::HealthRegeneration,
        UpgradeType::PickupRadius,
        UpgradeType::Magnet,
        UpgradeType::Armor,
        UpgradeType::Luck,
    ]
}

pub open spec fn name_spec(u: UpgradeType) -> Seq<char> {
    match u {
        UpgradeType::IncreaseDamage => "Damage+"@,
        UpgradeType::IncreaseAttackSpeed => "Attack Speed+"@,
        UpgradeType::IncreaseProjectileSpeed => "Projectile Speed+"@,
        UpgradeType::MultiShot => "Multi Shot"@,
        UpgradeType::PiercingShots => "Piercing Shots"@,
        UpgradeType::IncreaseMaxHealth => "Max Health+"@,
        UpgradeType::IncreaseMovementSpeed => "Move Speed+"@,
        UpgradeType::HealthRegeneration => "HP Regeneration"@,
        UpgradeType::PickupRadius => "Pickup Radius+"@,
        UpgradeType::Magnet => "Magnet"@,
        UpgradeType::Armor => "Armor"@,
        UpgradeType::Luck => "Luck"@,
    }
}

pub open spec fn description_spec(u: UpgradeType) -> Seq<char> {
    match u {
        UpgradeType::IncreaseDamage => "Increase damage by 20%"@,
        UpgradeType::IncreaseAttackSpeed => "Increase attack speed by 15%"@,
        UpgradeType::IncreaseProjectileSpeed => "Increase projectile speed by 25%"@,
        UpgradeType::MultiShot => "Fire 2 additional projectiles"@,
        UpgradeType::PiercingShots => "Projectiles pierce through 1 enemy"@,
        UpgradeType::IncreaseMaxHealth => "Increase max health by 25%"@,
        UpgradeType::IncreaseMovementSpeed => "Increase movement speed by 10%"@,
        UpgradeType::HealthRegeneration => "Regenerate 1 HP per second"@,
        UpgradeType::PickupRadius => "Increase pickup radius by 50%"@,
        UpgradeType::Magnet => "Automatically collect nearby XP"@,
        UpgradeType::Armor => "Reduce damage taken by 10%"@,
        UpgradeType::Luck => "Increase luck by 10%"@,
    }
}

impl UpgradeType {
    pub fn name(&self) -> (r: &'static str)
        ensures
            r@ == name_spec(*self),
    {
        match self {
            UpgradeType::IncreaseDamage => "Damage+",
            UpgradeType::IncreaseAttackSpeed => "Attack Speed+",
            UpgradeType::IncreaseProjectileSpeed => "Projectile Speed+",
            UpgradeType::MultiShot => "Multi Shot",
            UpgradeType::PiercingShots => "Piercing Shots",
            UpgradeType::IncreaseMaxHealth => "Max Health+",
            UpgradeType::IncreaseMovementSpeed => "Move Speed+",
            UpgradeType::HealthRegeneration => "HP Regeneration",
            UpgradeType::PickupRadius => "Pickup Radius+",
            UpgradeType::Magnet => "Magnet",
            UpgradeType::Armor => "Armor",
            UpgradeType::Luck => "Luck",
        }
    }

    pub fn description(&self) -> (r: &'static str)
        ensures
            r@ == description_spec(*self),
    {
        match self {
            UpgradeType::IncreaseDamage => "Increase damage by 20%",
            UpgradeType::IncreaseAttackSpeed => "Increase attack speed by 15%",
            UpgradeType::IncreaseProjectileSpeed => "Increase projectile speed by 25%",
            UpgradeType::MultiShot => "Fire 2 additional projectiles",
            UpgradeType::PiercingShots => "Projectiles pierce through 1 enemy",
            UpgradeType::IncreaseMaxHealth => "Increase max health by 25%",
            UpgradeType::IncreaseMovementSpeed => "Increase movement speed by 10%",
            UpgradeType::HealthRegeneration => "Regenerate 1 HP per second",
            UpgradeType::PickupRadius => "Increase pickup radius by 50%",
            UpgradeType::Magnet => "Automatically collect nearby XP",
            UpgradeType::Armor => "Reduce damage taken by 10%",
            UpgradeType::Luck => "Increase luck by 10%",
        }
    }

    /// A random selection of distinct upgrades from the catalogue, never one
    /// of `exclude`: exactly three where at least three kinds remain, else
    /// every remaining kind. Which ones come back is random; the contract
    /// holds of every outcome.
    pub fn random_choices(exclude: &Vec<UpgradeType>) -> (r: Vec<UpgradeType>)
        ensures
            valid_choices(r@, exclude@),
    {
        let mut all: Vec<UpgradeType> = Vec::new();
        all.push(UpgradeType::IncreaseDamage);
        all.push(UpgradeType::IncreaseAttackSpeed);
        all.push(UpgradeType::IncreaseProjectileSpeed);
        all.push(UpgradeType::MultiShot);
        all.push(UpgradeType::PiercingShots);
        all.push(UpgradeType::IncreaseMaxHealth);
        all.push(UpgradeType::IncreaseMovementSpeed);
        all.push(UpgradeType::HealthRegeneration);
        all.push(UpgradeType::PickupRadius);
        all.push(UpgradeType::Magnet);
        all.push(UpgradeType::Armor);
        all.push(UpgradeType::Luck);
        proof {
            assert(all@ =~= catalogue());
            assert(forall|a: int, b: int| 0 <= a < b < catalogue().len()
                ==> catalogue()[a] != catalogue()[b]);
        }

        let mut available: Vec<UpgradeType> = Vec::new();
        let mut k: usize = 0;
        while k < all.len()
            invariant
                k <= all.len(),
                all@ == catalogue(),
                forall|a: int, b: int| 0 <= a < b < catalogue().len()
                    ==> catalogue()[a] != catalogue()[b],
                available@.len() == available_count(catalogue().take(k as int), exclude@),
                forall|i: int| 0 <= i < available@.len()
                    ==> catalogue().take(k as int).contains(#[trigger] available@[i]),
                forall|i: int, j: int| 0 <= i < j < available@.len()
                    ==> available@[i] != available@[j],
                forall|i: int| 0 <= i < available@.len()
                    ==> catalogue().contains(#[trigger] available@[i])
                        && !exclude@.contains(available@[i]),
                forall|i: int, j: int| 0 <= i < available@.len() && 0 <= j < available@.len()
                    && i != j ==> available@[i] != available@[j],
            decreases all.len() - k,
        {
            let candidate = all[k];
            let mut excluded = false;
            let mut e: usize = 0;
            while e < exclude.len()
                invariant
                    e <= exclude.len(),
                    excluded <==> exists|i: int| 0 <= i < e && exclude@[i] == candidate,
                decreases exclude.len() - e,
            {
                if exclude[e] == candidate {
                    excluded = true;
                }
                e += 1;
            }
            proof {
                assert(excluded <==> exclude@.contains(candidate));
                // the catalogue has no repeats, so the candidate is new
                assert forall|i: int| 0 <= i < available@.len()
                    implies available@[i] != candidate by {
                    let w = choose|w: int| 0 <= w < k
                        && catalogue().take(k as int)[w] == available@[i];
                    assert(catalogue()[w] == available@[i]);
                }
                assert(catalogue().take(k + 1).drop_last() =~= catalogue().take(k as int));
                assert(catalogue().take(k + 1).last() == candidate);
            }
            let ghost before = available@;
            if !excluded {
                available.push(candidate);
            }
            proof {
                assert forall|i: int| 0 <= i < available@.len()
                    implies catalogue().take(k + 1).contains(#[trigger] available@[i]) by {
                    if i < before.len() {
                        let w = choose|w: int| 0 <= w < k
                            && catalogue().take(k as int)[w] == before[i];
                        assert(catalogue().take(k + 1)[w] == available@[i]);
                    } else {
                        assert(catalogue().take(k + 1)[k as int] == available@[i]);
                    }
                }
            }
            k += 1;
        }
        proof {
            assert(catalogue().take(12) =~= catalogue());
        }
        let ghost a0 = available@.len() as int;

        let mut r: Vec<UpgradeType> = Vec::new();
        let mut n: usize = 0;
        while n < 3
            invariant
                n <= 3,
                a0 == available_count(catalogue(), exclude@),
                r@.len() + available@.len() == a0,
                r@.len() == (if n as int <= a0 { n as int } else { a0 }),
                forall|i: int, j: int| 0 <= i < j < r@.len() ==> r@[i] != r@[j],
                forall|i: int| 0 <= i < r@.len()
                    ==> catalogue().contains(#[trigger] r@[i]) && !exclude@.contains(r@[i]),
                forall|i: int| 0 <= i < available@.len()
                    ==> catalogue().contains(#[trigger] available@[i])
                        && !exclude@.contains(available@[i]),
                forall|i: int, j: int| 0 <= i < available@.len() && 0 <= j < available@.len()
                    && i != j ==> available@[i] != available@[j],
                forall|i: int, j: int| 0 <= i < r@.len() && 0 <= j < available@.len()
                    ==> r@[i] != available@[j],
            decreases 3 - n,
        {
            if available.len() > 0 {
                let pick = (random_u64() % (available.len() as u64)) as usize;
                let chosen = available.remove(pick);
                r.push(chosen);
            }
            n += 1;
        }
        r
    }
}

/// How many catalogue kinds of `cat` are not excluded.
pub open spec fn available_count(cat: Seq<UpgradeType>, exclude: Seq<UpgradeType>) -> int
    decreases cat.len(),
{
    if cat.len() == 0 {
        0
    } else {
        available_count(cat.drop_last(), exclude) + (if exclude.contains(cat.last()) {
            0int
        } else {
            1int
        })
    }
}

/// How many upgrades one level-up offers: three, or every non-excluded kind
/// where fewer than three remain.
pub open spec fn offer_size(exclude: Seq<UpgradeType>) -> int {
    let a = available_count(catalogue(), exclude);
    if a < 3 {
        a
    } else {
        3
    }
}

/// What any offered choice set satisfies: exactly `offer_size(exclude)`
/// upgrades (three, when at least three kinds remain), pairwise distinct,
/// each from the catalogue and none of them excluded.
pub open spec fn valid_choices(r: Seq<UpgradeType>, exclude: Seq<UpgradeType>) -> bool {
    &&& r.len() == offer_size(exclude)
    &&& forall|i: int, j: int| 0 <= i < j < r.len() ==> r[i] != r[j]
    &&& forall|i: int| 0 <= i < r.len()
        ==> catalogue().contains(#[trigger] r[i]) && !exclude.contains(r[i])
}

/// With nothing excluded, every level-up offers exactly three upgrades.
pub proof fn lemma_fresh_offer_is_three()
    ensures
        offer_size(Seq::<UpgradeType>::empty()) == 3,
{
    reveal_with_fuel(available_count, 13);
    assert(available_count(catalogue(), Seq::<UpgradeType>::empty()) == 12);
}

/// A player's accumulated upgrade levels.
#[derive(Debug, Clone, Copy, PartialEq, Eq, Structural)]
pub struct PlayerUpgrades {
    pub damage_level: u32,
    pub attack_speed_level: u32,
    pub projectile_speed_level: u32,
    pub multi_shot_level: u32,
    pub piercing_level: u32,
    pub max_health_level: u32,
    pub movement_speed_level: u32,
    pub regen_level: u32,
    pub pickup_radius_level: u32,
    pub has_magnet: bool,
    pub armor_level: u32,
    pub luck_level: u32,
}

impl Default for PlayerUpgrades {
    fn default() -> (r: Self)
        ensures
            r == PlayerUpgrades::none(),
    {
        PlayerUpgrades {
            damage_level: 0,
            attack_speed_level: 0,
            projectile_speed_level: 0,
            multi_shot_level: 0,
            piercing_level: 0,
            max_health_level: 0,
            movement_speed_level: 0,
            regen_level: 0,
            pickup_radius_level: 0,
            has_magnet: false,
            armor_level: 0,
            luck_level: 0,
        }
    }
}

/// Saturating bump of one upgrade level counter.
pub open spec fn bumped(level: u32) -> u32 {
    if level < u32::MAX {
        (level + 1) as u32
    } else {
        level
    }
}

/// A player's upgrade levels after choosing `upgrade` once.
pub open spec fn applied(u: PlayerUpgrades, upgrade: UpgradeType) -> PlayerUpgrades {
    match upgrade {
        UpgradeType::IncreaseDamage => PlayerUpgrades { damage_level: bumped(u.damage_level), ..u },
        UpgradeType::IncreaseAttackSpeed => PlayerUpgrades {
            attack_speed_level: bumped(u.attack_speed_level),
            ..u
        },
        UpgradeType::IncreaseProjectileSpeed => PlayerUpgrades {
            projectile_speed_level: bumped(u.projectile_speed_level),
            ..u
        },
        UpgradeType::MultiShot => PlayerUpgrades { multi_shot_level: bumped(u.multi_shot_level), ..u },
        UpgradeType::PiercingShots => PlayerUpgrades { piercing_level: bumped(u.piercing_level), ..u },
        UpgradeType::IncreaseMaxHealth => PlayerUpgrades {
            max_health_level: bumped(u.max_health_level),
            ..u
        },
        UpgradeType::IncreaseMovementSpeed => PlayerUpgrades {
            movement_speed_level: bumped(u.movement_speed_level),
            ..u
        },
        UpgradeType::HealthRegeneration => PlayerUpgrades { regen_level: bumped(u.regen_level), ..u },
        UpgradeType::PickupRadius => PlayerUpgrades {
            pickup_radius_level: bumped(u.pickup_radius_level),
            ..u
        },
        UpgradeType::Magnet => PlayerUpgrades { has_magnet: true, ..u },
        UpgradeType::Armor => PlayerUpgrades { armor_level: bumped(u.armor_level), ..u },
        UpgradeType::Luck => PlayerUpgrades { luck_level: bumped(u.luck_level), ..u },
    }
}

impl PlayerUpgrades {
    /// The state with no upgrades taken.
    pub open spec fn none() -> PlayerUpgrades {
        PlayerUpgrades {
            damage_level: 0,
            attack_speed_level: 0,
            projectile_speed_level: 0,
            multi_shot_level: 0,
            piercing_level: 0,
            max_health_level: 0,
            movement_speed_level: 0,
            regen_level: 0,
            pickup_radius_level: 0,
            has_magnet: false,
            armor_level: 0,
            luck_level: 0,
        }
    }

    /// Record one chosen upgrade (level counters saturate rather than wrap).
    pub fn apply_upgrade(&mut self, upgrade: UpgradeType)
        ensures
            *final(self) == applied(*old(self), upgrade),
    {
        match upgrade {
            UpgradeType::IncreaseDamage => {
                if self.damage_level < u32::MAX {
                    self.damage_level = self.damage_level + 1;
                }
            }
            UpgradeType::IncreaseAttackSpeed => {
                if self.attack_speed_level < u32::MAX {
                    self.attack_speed_level = self.attack_speed_level + 1;
                }
            }
            UpgradeType::IncreaseProjectileSpeed => {
                if self.projectile_speed_level < u32::MAX {
                    self.projectile_speed_level = self.projectile_speed_level + 1;
                }
            }
            UpgradeType::MultiShot => {
                if self.multi_shot_level < u32::MAX {
                    self.multi_shot_level = self.multi_shot_level + 1;
                }
            }
            UpgradeType::PiercingShots => {
                if self.piercing_level < u32::MAX {
                    self.piercing_level = self.piercing_level + 1;
                }
            }
            UpgradeType::IncreaseMaxHealth => {
                if self.max_health_level < u32::MAX {
                    self.max_health_level = self.max_health_level + 1;
                }
            }
            UpgradeType::IncreaseMovementSpeed => {
                if self.movement_speed_level < u32::MAX {
                    self.movement_speed_level = self.movement_speed_level + 1;
                }
            }
            UpgradeType::HealthRegeneration => {
                if self.regen_level < u32::MAX {
                    self.regen_level = self.regen_level + 1;
                }
            }
            UpgradeType::PickupRadius => {
                if self.pickup_radius_level < u32::MAX {
                    self.pickup_radius_level = self.pickup_radius_level + 1;
                }
            }
            UpgradeType::Magnet => {
                self.has_magnet = true;
            }
            UpgradeType::Armor => {
                if self.armor_level < u32::MAX {
                    self.armor_level = self.armor_level + 1;
                }
            }
            UpgradeType::Luck => {
                if self.luck_level < u32::MAX {
                    self.luck_level = self.luck_level + 1;
                }
            }
        }
    }

    /// Effective damage multiplier, in hundredths: 100% plus 20% per level.
    pub fn damage_multiplier(&self) -> (r: u64)
        ensures
            r == 100 + 20 * (self.damage_level as int),
    {
        100 + 20 * (self.damage_level as u64)
    }

    /// Effective attack speed multiplier, in hundredths: 100% plus 15% per level.
    pub fn attack_speed_multiplier(&self) -> (r: u64)
        ensures
            r == 100 + 15 * (self.attack_speed_level as int),
    {
        100 + 15 * (self.attack_speed_level as u64)
    }

    /// Effective movement speed multiplier, in hundredths: 100% plus 10% per level.
    pub fn movement_speed_multiplier(&self) -> (r: u64)
        ensures
            r == 100 + 10 * (self.movement_speed_level as int),
    {
        100 + 10 * (self.movement_speed_level as u64)
    }

    /// Effective projectile speed multiplier, in hundredths: 100% plus 25% per level.
    pub fn projectile_speed_multiplier(&self) -> (r: u64)
        ensures
            r == 100 + 25 * (self.projectile_speed_level as int),
    {
        100 + 25 * (self.projectile_speed_level as u64)
    }

    /// Damage reduction from armor, in hundredths: 10% per level, at most 75%.
    pub fn damage_reduction(&self) -> (r: u64)
        ensures
            r == (if 10 * (self.armor_level as int) < 75 { 10 * (self.armor_level as int) } else { 75int }),
    {
        let raw = 10 * (self.armor_level as u64);
        if raw < 75 {
            raw
        } else {
            75
        }
    }

    /// Number of additional projectiles granted by multi-shot: two per level.
    pub fn extra_projectiles(&self) -> (r: u64)
        ensures
            r == 2 * (self.multi_shot_level as int),
    {
        2 * (self.multi_shot_level as u64)
    }
}

} // verus!
