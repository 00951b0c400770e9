//! Entities and combat: the player, the monsters, and what a blow does.

use vstd::prelude::*;

verus! {

/// A display color, by red, green and blue component.
#[derive(Clone, Copy, Debug, PartialEq, Eq, Structural)]
pub struct Color {
    pub r: u8,
    pub g: u8,
    pub b: u8,
}

impl Color {
    /// The player's color.
    #[verifier::allow_in_spec]
    pub fn white() -> Color
        returns
            (Color { r: 255, g: 255, b: 255 }),
    {
        Color { r: 255, g: 255, b: 255 }
    }

    /// The color of a corpse.
    #[verifier::allow_in_spec]
    pub fn dark_red() -> Color
        returns
            (Color { r: 191, g: 0, b: 0 }),
    {
        Color { r: 191, g: 0, b: 0 }
    }

    /// The color of an orc.
    #[verifier::allow_in_spec]
    pub fn desaturated_green() -> Color
        returns
            (Color { r: 63, g: 127, b: 63 }),
    {
        Color { r: 63, g: 127, b: 63 }
    }

    /// The color of a troll.
    #[verifier::allow_in_spec]
    pub fn darker_green() -> Color
        returns
            (Color { r: 0, g: 127, b: 0 }),
    {
        Color { r: 0, g: 127, b: 0 }
    }
}

/// The glyph every corpse is drawn with.
pub const CORPSE: char = '%';

/// What happens to an entity when it dies.
#[derive(Clone, Copy, Debug, PartialEq, Eq, Structural)]
pub enum DeathCallback {
    Player,
    Monster,
}

/// Combat-related properties of the player and the monsters.
#[derive(Clone, Copy, Debug, PartialEq, Eq, Structural)]
pub struct Fighter {
    pub max_hp: i32,
    pub hp: i32,
    pub defence: i32,
    pub power: i32,
    pub on_death: DeathCallback,
}

/// The strategy an entity follows when it is its turn.
#[derive(Clone, Copy, Debug, PartialEq, Eq, Structural)]
pub enum Ai {
    Basic,
}

/// Anything that stands on the map: the player, a monster, a corpse.
#[derive(Clone, Debug)]
pub struct Object {
    pub x: i32,
    pub y: i32,
    pub char: char,
    pub color: Color,
    pub name: String,
    pub blocks: bool,
    pub alive: bool,
    pub fighter: Option<Fighter>,
    pub ai: Option<Ai>,
}

/// What one attack did.
#[derive(Clone, Copy, Debug, PartialEq, Eq, Structural)]
pub struct AttackOutcome {
    /// Hit points the blow was worth; zero when it had no effect.
    pub damage: i32,
    /// The death it caused, if the target died of it.
    pub death: Option<DeathCallback>,
}

/// `n`, held to the range of hit-point arithmetic.
pub open spec fn clamp(n: int) -> int {
    if n < i32::MIN {
        i32::MIN as int
    } else if n > i32::MAX {
        i32::MAX as int
    } else {
        n
    }
}

/// The player as a corpse: only its looks change.
pub open spec fn player_corpse(o: Object) -> Object {
    Object { char: CORPSE, color: Color::dark_red(), ..o }
}

/// A monster as a corpse: it no longer blocks, fights or acts.
pub open spec fn monster_corpse(o: Object) -> Object {
    Object { char: CORPSE, color: Color::dark_red(), blocks: false, fighter: None, ai: None, ..o }
}

impl DeathCallback {
    /// The entity after this death has taken effect on it.
    pub open spec fn effect(self, o: Object) -> Object {
        match self {
            DeathCallback::Player => player_corpse(o),
            DeathCallback::Monster => monster_corpse(o),
        }
    }

    /// Applies this death to the entity.
    pub fn callback(self, object: &mut Object)
        ensures
            *final(object) == self.effect(*old(object)),
    {
        match self {
            DeathCallback::Player => player_death(object),
            DeathCallback::Monster => monster_death(object),
        }
    }
}

/// Turns the player into a corpse. It keeps its combat record and still blocks
/// movement.
pub fn player_death(player: &mut Object)
    ensures
        *final(player) == player_corpse(*old(player)),
{
    player.char = CORPSE;
    player.color = Color::dark_red();
}

/// Turns a monster into a corpse that can be walked over and can neither be
/// attacked nor act again.
pub fn monster_death(monster: &mut Object)
    ensures
        *final(monster) == monster_corpse(*old(monster)),
{
    monster.char = CORPSE;
    monster.color = Color::dark_red();
    monster.blocks = false;
    monster.fighter = None;
    monster.ai = None;
}

impl Object {
    /// Attack strength: the fighter's power, or zero without one.
    pub open spec fn power(self) -> int {
        match self.fighter {
            Some(f) => f.power as int,
            None => 0,
        }
    }

    /// Armor: the fighter's defence, or zero without one.
    pub open spec fn defence(self) -> int {
        match self.fighter {
            Some(f) => f.defence as int,
            None => 0,
        }
    }

    /// Hit points an attack by `self` on `target` is worth: power less
    /// defence, and nothing when the defence is at least the power.
    pub open spec fn damage_against(self, target: Object) -> int {
        if self.power() - target.defence() > 0 {
            clamp(self.power() - target.defence())
        } else {
            0
        }
    }

    /// The entity with `damage` taken off its hit points, before any death is
    /// looked at. Nothing changes without a fighter or for a harmless blow.
    pub open spec fn wounded(self, damage: int) -> Object {
        match self.fighter {
            Some(f) if damage > 0 => Object {
                fighter: Some(Fighter { hp: clamp(f.hp - damage) as i32, ..f }),
                ..self
            },
            _ => self,
        }
    }

    /// Taking `damage` kills the entity: it is still alive, and the blow
    /// leaves it with no hit points.
    pub open spec fn dies_of(self, damage: int) -> bool {
        self.alive && self.wounded(damage).fighter is Some && self.wounded(damage).fighter->0.hp <= 0
    }

    /// The entity after taking `damage`, its death included if it dies of it.
    pub open spec fn damaged(self, damage: int) -> Object {
        if self.dies_of(damage) {
            self.wounded(damage).fighter->0.on_death.effect(
                Object { alive: false, ..self.wounded(damage) },
            )
        } else {
            self.wounded(damage)
        }
    }

    /// The entity after `attacker` has attacked it: damaged if the blow is
    /// worth anything, untouched otherwise.
    pub open spec fn attacked_by(self, attacker: Object) -> Object {
        if attacker.damage_against(self) > 0 {
            self.damaged(attacker.damage_against(self))
        } else {
            self
        }
    }

    /// An attack by `attacker` kills the entity.
    pub open spec fn killed_by(self, attacker: Object) -> bool {
        attacker.damage_against(self) > 0 && self.dies_of(attacker.damage_against(self))
    }

    /// The entity after `attacker`, itself unchanged, has attacked it `n`
    /// times in a row.
    pub open spec fn attacked_repeatedly(self, attacker: Object, n: nat) -> Object
        decreases n,
    {
        if n == 0 {
            self
        } else {
            self.attacked_by(attacker).attacked_repeatedly(attacker, (n - 1) as nat)
        }
    }

    /// Squared straight-line distance from `self` to `other`.
    pub open spec fn distance_squared(self, other: Object) -> int {
        (other.x - self.x) * (other.x - self.x) + (other.y - self.y) * (other.y - self.y)
    }

    /// A new entity at `(x, y)`. It starts out not alive, with neither a
    /// fighter nor an AI.
    pub fn new(x: i32, y: i32, char: char, name: &str, color: Color, blocks: bool) -> (o: Object)
        ensures
            o.x == x,
            o.y == y,
            o.char == char,
            o.name@ == name@,
            o.color == color,
            o.blocks == blocks,
            !o.alive,
            o.fighter is None,
            o.ai is None,
    {
        Object {
            x: x,
            y: y,
            char: char,
            color: color,
            name: name.to_string(),
            blocks: blocks,
            alive: false,
            fighter: None,
            ai: None,
        }
    }

    /// The position of the entity.
    pub fn pos(&self) -> (p: (i32, i32))
        ensures
            p == (self.x, self.y),
    {
        (self.x, self.y)
    }

    /// Moves the entity to `(x, y)`.
    pub fn set_pos(&mut self, x: i32, y: i32)
        ensures
            *final(self) == (Object { x: x, y: y, ..*old(self) }),
    {
        self.x = x;
        self.y = y;
    }

    /// Squared straight-line distance to another entity.
    pub fn distance_squared_to(&self, other: &Object) -> (d: i128)
        ensures
            d == self.distance_squared(*other),
    {
        let dx: i128 = other.x as i128 - self.x as i128;
        let dy: i128 = other.y as i128 - self.y as i128;
        assert(dx * dx <= 0x1_0000_0000 * 0x1_0000_0000 && dx * dx >= 0) by (nonlinear_arith)
            requires
                -0x1_0000_0000 <= dx <= 0x1_0000_0000,
        ;
        assert(dy * dy <= 0x1_0000_0000 * 0x1_0000_0000 && dy * dy >= 0) by (nonlinear_arith)
            requires
                -0x1_0000_0000 <= dy <= 0x1_0000_0000,
        ;
        dx * dx + dy * dy
    }

    /// Takes `damage` hit points off the entity, if it has a fighter and the
    /// damage is positive. If that leaves a living entity with no hit points,
    /// it dies: it is flagged dead and its death takes effect, once. Returns
    /// the death that took effect, if any.
    pub fn take_damage(&mut self, damage: i32) -> (death: Option<DeathCallback>)
        ensures
            *final(self) == old(self).damaged(damage as int),
            death == (if old(self).dies_of(damage as int) {
                Some(old(self).fighter->0.on_death)
            } else {
                None::<DeathCallback>
            }),
            !old(self).alive ==> death is None && *final(self) == old(self).wounded(damage as int),
    {
        if let Some(fighter) = self.fighter {
            if damage > 0 {
                let hp: i64 = fighter.hp as i64 - damage as i64;
                let hp: i32 = if hp < i32::MIN as i64 {
                    i32::MIN
                } else {
                    hp as i32
                };
                self.fighter = Some(Fighter { hp: hp, ..fighter });
            }
        }
        if let Some(fighter) = self.fighter {
            if fighter.hp <= 0 && self.alive {
                self.alive = false;
                fighter.on_death.callback(self);
                return Some(fighter.on_death);
            }
        }
        None
    }

    /// Attacks `target`. A blow worth more than nothing is taken off the
    /// target's hit points; any other leaves the target as it was. The
    /// attacker is never changed.
    pub fn attack(&mut self, target: &mut Object) -> (outcome: AttackOutcome)
        ensures
            *final(self) == *old(self),
            outcome.damage == old(self).damage_against(*old(target)),
            *final(target) == old(target).attacked_by(*old(self)),
            outcome.death == (if old(target).killed_by(*old(self)) {
                Some(old(target).fighter->0.on_death)
            } else {
                None::<DeathCallback>
            }),
            outcome.damage == 0 ==> *final(target) == *old(target),
    {
        let power: i32 = match self.fighter {
            Some(f) => f.power,
            None => 0,
        };
        let defence: i32 = match target.fighter {
            Some(f) => f.defence,
            None => 0,
        };
        let damage: i64 = power as i64 - defence as i64;
        if damage > 0 {
            let damage: i32 = if damage > i32::MAX as i64 {
                i32::MAX
            } else {
                damage as i32
            };
            let death = target.take_damage(damage);
            AttackOutcome { damage: damage, death: death }
        } else {
            AttackOutcome { damage: 0, death: None }
        }
    }
}

/// The damage of an attack depends on nothing but the attacker's power and
/// the target's defence: it is the power less the defence, or zero where the
/// defence is at least the power. This holds wherever that difference is a
/// number hit points can take.
pub proof fn lemma_damage_formula(attacker: Object, target: Object)
    requires
        attacker.power() - target.defence() <= i32::MAX,
    ensures
        attacker.damage_against(target) == (if attacker.power() - target.defence() > 0 {
            attacker.power() - target.defence()
        } else {
            0
        }),
{
}

/// Attacks that are worth nothing change nothing, however often they are
/// repeated: the target keeps its hit points and everything else.
pub proof fn lemma_harmless_attacks_change_nothing(target: Object, attacker: Object, n: nat)
    requires
        attacker.damage_against(target) == 0,
    ensures
        target.attacked_repeatedly(attacker, n) == target,
    decreases n,
{
    if n > 0 {
        lemma_harmless_attacks_change_nothing(target, attacker, (n - 1) as nat);
    }
}

/// Damage to an entity that is no longer alive never brings its death on
/// again, and changes nothing about it but the hit points its fighter, if it
/// still has one, is left with.
pub proof fn lemma_dead_take_no_death(o: Object, damage: int)
    requires
        !o.alive,
    ensures
        !o.dies_of(damage),
        o.damaged(damage) == o.wounded(damage),
        !o.damaged(damage).alive,
        o.fighter is None ==> o.damaged(damage) == o,
        o.fighter is Some ==> o.damaged(damage) == (Object {
            fighter: Some(Fighter { hp: o.damaged(damage).fighter->0.hp, ..o.fighter->0 }),
            ..o
        }) && o.damaged(damage).fighter->0.hp <= o.fighter->0.hp,
{
}

/// An entity dies at most once: whatever damage it takes after the blow that
/// killed it, its death does not take effect a second time.
pub proof fn lemma_death_takes_effect_once(o: Object, first: int, second: int)
    requires
        o.dies_of(first),
    ensures
        !o.damaged(first).alive,
        !o.damaged(first).dies_of(second),
{
}

} // verus!
