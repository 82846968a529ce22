//! The combat engine: the events of a fight, its log, and the strategies by
//! which a trainer picks a creature.

pub mod dice;
pub mod pokemon_fight;
pub mod trainer_fight;

use vstd::prelude::*;

use crate::database::{same_text, DbError};
use dice::Dice;
use pokemon_fight::Combatant;

verus! {

/// How strongly an attack lands, from its type multiplier alone.
#[derive(Clone, Copy, Debug, PartialEq, Eq, Structural)]
pub enum Effectiveness {
    /// The type multiplier is above 1.8.
    SuperEffective,
    /// The type multiplier is between 0.6 and 1.8.
    Normal,
    /// The type multiplier is below 0.6.
    NotVeryEffective,
}

/// One event of a fight, in the order the engine emits them.
#[derive(Clone, Debug)]
pub enum FightEvent {
    /// A trainer sends a creature in.
    ChoosePokemon {
        /// The trainer who chose.
        trainer: String,
        /// The creature chosen.
        pokemon: String,
    },
    /// One creature attacks the other.
    Hit {
        /// The attacking creature.
        attacker: String,
        /// The defending creature.
        defender: String,
        /// The hit points taken off the defender.
        damage: u32,
        /// The defender's hit points after the attack.
        hp_left: u32,
        /// How strongly the attack landed.
        effectiveness: Effectiveness,
    },
    /// A creature's hit points reached zero.
    Fainted {
        /// The creature that fainted.
        pokemon: String,
    },
    /// A creature won an encounter.
    PokemonWinner {
        /// The winning creature.
        pokemon: String,
        /// Its hit points at the end of the encounter.
        hp_left: u32,
    },
    /// A trainer won the match.
    Winner {
        /// The winning trainer.
        trainer: String,
        /// The creatures left in the winner's team.
        pokemon_left: Vec<String>,
    },
}

/// The ordered events of one fight, with the names of the two sides.
#[derive(Clone, Debug)]
pub struct FightLog {
    /// The side passed first.
    pub contender_name: String,
    /// The side passed second.
    pub challenger_name: String,
    /// The events, in the order they happened.
    pub log: Vec<FightEvent>,
}


/// Whether an event is a creature fainting.
pub open spec fn is_faint(e: FightEvent) -> bool {
    e is Fainted
}

/// The number of faint events in `log`.
pub open spec fn count_faints(log: Seq<FightEvent>) -> nat
    decreases log.len(),
{
    if log.len() == 0 {
        0
    } else {
        count_faints(log.drop_last()) + if is_faint(log.last()) {
            1nat
        } else {
            0nat
        }
    }
}

/// Faints are counted over a log made of two parts by adding the counts.
pub proof fn lemma_count_faints_add(a: Seq<FightEvent>, b: Seq<FightEvent>)
    ensures
        count_faints(a + b) == count_faints(a) + count_faints(b),
    decreases b.len(),
{
    if b.len() > 0 {
        assert((a + b).drop_last() =~= a + b.drop_last());
        lemma_count_faints_add(a, b.drop_last());
    } else {
        assert(a + b =~= a);
    }
}

/// How a trainer picks the creature to send in.
#[derive(Clone, Copy, Debug, PartialEq, Eq, Structural)]
pub enum FightStrategy {
    /// The creature with the highest attack.
    StrongestAtk,
    /// The creature with the highest defense.
    StrongestDef,
    /// The creature with the highest sum of attack and defense.
    StrongestSum,
    /// The first creature with a type advantage over the enemy; else as
    /// `StrongestSum`.
    StrongestType,
    /// A creature picked at random.
    Random,
}

/// The strategy a name stands for, if any.
pub open spec fn strategy_named(s: Seq<char>) -> Option<FightStrategy> {
    if s == "StrongestAtk"@ {
        Some(FightStrategy::StrongestAtk)
    } else if s == "StrongestDef"@ {
        Some(FightStrategy::StrongestDef)
    } else if s == "StrongestSum"@ {
        Some(FightStrategy::StrongestSum)
    } else if s == "StrongestType"@ {
        Some(FightStrategy::StrongestType)
    } else if s == "Random"@ {
        Some(FightStrategy::Random)
    } else {
        None
    }
}

/// The number a strategy ranks a creature by.
pub open spec fn rank(strategy: FightStrategy, c: Combatant) -> int {
    match strategy {
        FightStrategy::StrongestAtk => c.pokemon.stats.attack as int,
        FightStrategy::StrongestDef => c.pokemon.stats.defense as int,
        _ => c.pokemon.stats.attack + c.pokemon.stats.defense,
    }
}

/// Whether `i` is the last position of `team` whose rank is the highest.
pub open spec fn is_last_best(strategy: FightStrategy, team: Seq<Combatant>, i: int) -> bool {
    &&& 0 <= i < team.len()
    &&& forall|j: int| 0 <= j < team.len() ==> rank(strategy, #[trigger] team[j]) <= rank(
        strategy,
        team[i],
    )
    &&& forall|j: int| i < j < team.len() ==> rank(strategy, #[trigger] team[j]) < rank(
        strategy,
        team[i],
    )
}

/// Whether creature `c` has a type advantage over `e`: one of its types is
/// strong against one of `e`'s types.
pub open spec fn has_advantage(c: Combatant, e: Combatant) -> bool {
    let ep = e.primary_type.name@;
    ||| c.primary_type.strong_against_spec(ep)
    ||| (match e.secondary_type {
        Some(es) => c.primary_type.strong_against_spec(es.name@),
        None => false,
    })
    ||| (match c.secondary_type {
        Some(os) => os.strong_against_spec(ep) || match e.secondary_type {
            Some(es) => os.strong_against_spec(es.name@),
            None => false,
        },
        None => false,
    })
}

/// Whether `i` is the first position of `team` with a type advantage over `e`.
pub open spec fn is_first_advantaged(team: Seq<Combatant>, e: Combatant, i: int) -> bool {
    &&& 0 <= i < team.len()
    &&& has_advantage(team[i], e)
    &&& forall|j: int| 0 <= j < i ==> !has_advantage(#[trigger] team[j], e)
}

/// Whether `i` is the pick of a strategy that needs no random value.
pub open spec fn is_pick(
    strategy: FightStrategy,
    team: Seq<Combatant>,
    enemy: Option<Combatant>,
    i: int,
) -> bool {
    match (strategy, enemy) {
        (FightStrategy::StrongestType, Some(e)) => if exists|k: int|
            is_first_advantaged(team, e, k) {
            is_first_advantaged(team, e, i)
        } else {
            is_last_best(FightStrategy::StrongestSum, team, i)
        },
        (FightStrategy::StrongestType, None) => is_last_best(FightStrategy::StrongestSum, team, i),
        _ => is_last_best(strategy, team, i),
    }
}

fn rank_of(strategy: FightStrategy, c: &Combatant) -> (r: u64)
    ensures
        r == rank(strategy, *c),
{
    match strategy {
        FightStrategy::StrongestAtk => c.pokemon.stats.attack as u64,
        FightStrategy::StrongestDef => c.pokemon.stats.defense as u64,
        _ => c.pokemon.stats.attack as u64 + c.pokemon.stats.defense as u64,
    }
}

fn last_best(strategy: FightStrategy, team: &[Combatant]) -> (r: usize)
    requires
        team@.len() > 0,
    ensures
        is_last_best(strategy, team@, r as int),
{
    let mut best: usize = 0;
    let mut best_rank = rank_of(strategy, &team[0]);
    let mut i: usize = 1;
    while i < team.len()
        invariant
            1 <= i <= team@.len(),
            best < i,
            best_rank == rank(strategy, team@[best as int]),
            forall|j: int| 0 <= j < i ==> rank(strategy, #[trigger] team@[j]) <= best_rank,
            forall|j: int| best < j < i ==> rank(strategy, #[trigger] team@[j]) < best_rank,
        decreases team@.len() - i,
    {
        let k = rank_of(strategy, &team[i]);
        if k >= best_rank {
            best = i;
            best_rank = k;
        }
        i += 1;
    }
    best
}

fn advantage(c: &Combatant, e: &Combatant) -> (r: bool)
    ensures
        r == has_advantage(*c, *e),
{
    let ep = &e.primary_type;
    let mut r = c.primary_type.is_strong_against(ep);
    if let Some(es) = &e.secondary_type {
        if c.primary_type.is_strong_against(es) {
            r = true;
        }
    }
    if let Some(os) = &c.secondary_type {
        if os.is_strong_against(ep) {
            r = true;
        }
        if let Some(es) = &e.secondary_type {
            if os.is_strong_against(es) {
                r = true;
            }
        }
    }
    r
}

fn first_advantaged(team: &[Combatant], e: &Combatant) -> (r: Option<usize>)
    ensures
        r matches Some(i) ==> is_first_advantaged(team@, *e, i as int),
        r is None ==> !exists|k: int| is_first_advantaged(team@, *e, k),
{
    let mut i: usize = 0;
    while i < team.len()
        invariant
            i <= team@.len(),
            forall|j: int| 0 <= j < i ==> !has_advantage(#[trigger] team@[j], *e),
        decreases team@.len() - i,
    {
        if advantage(&team[i], e) {
            return Some(i);
        }
        i += 1;
    }
    proof {
        assert forall|k: int| !is_first_advantaged(team@, *e, k) by {
            if 0 <= k < team@.len() {
                assert(!has_advantage(team@[k], *e));
            }
        }
    }
    None
}

impl FightStrategy {
    /// The strategy a name stands for; a name that is none of the five is
    /// refused.
    pub fn parse(s: &str) -> (r: Result<FightStrategy, DbError>)
        ensures
            r == match strategy_named(s@) {
                Some(x) => Ok::<FightStrategy, DbError>(x),
                None => Err(DbError::InvalidStrategyName),
            },
    {
        if same_text(s, "StrongestAtk") {
            Ok(FightStrategy::StrongestAtk)
        } else if same_text(s, "StrongestDef") {
            Ok(FightStrategy::StrongestDef)
        } else if same_text(s, "StrongestSum") {
            Ok(FightStrategy::StrongestSum)
        } else if same_text(s, "StrongestType") {
            Ok(FightStrategy::StrongestType)
        } else if same_text(s, "Random") {
            Ok(FightStrategy::Random)
        } else {
            Err(DbError::InvalidStrategyName)
        }
    }

    /// The position in `team` of the creature this strategy sends in against
    /// `enemy_pokemon` (unknown before the first pick); `None` for an empty
    /// team. Only `Random` draws from `dice`: one value, taken modulo the
    /// team's size.
    pub fn choose_pokemon(
        &self,
        team: &[Combatant],
        enemy_pokemon: Option<&Combatant>,
        dice: &mut Dice,
    ) -> (r: Option<usize>)
        ensures
            team@.len() == 0 ==> r is None && *final(dice) == *old(dice),
            team@.len() > 0 && *self != FightStrategy::Random ==> {
                &&& *final(dice) == *old(dice)
                &&& r matches Some(i) && is_pick(
                    *self,
                    team@,
                    match enemy_pokemon {
                        Some(e) => Some(*e),
                        None => None,
                    },
                    i as int,
                )
            },
            team@.len() > 0 && *self == FightStrategy::Random ==> {
                &&& final(dice).drawn().len() == old(dice).drawn().len() + 1
                &&& final(dice).drawn().drop_last() == old(dice).drawn()
                &&& r == Some((final(dice).drawn().last() % (team@.len() as u64)) as usize)
            },
    {
        if team.len() == 0 {
            return None;
        }
        match self {
            FightStrategy::Random => {
                let raw = dice.draw();
                proof {
                    assert(dice.drawn().drop_last() =~= old(dice).drawn());
                }
                Some((raw % (team.len() as u64)) as usize)
            },
            FightStrategy::StrongestType => {
                match enemy_pokemon {
                    Some(e) => match first_advantaged(team, e) {
                        Some(i) => Some(i),
                        None => Some(last_best(FightStrategy::StrongestSum, team)),
                    },
                    None => Some(last_best(FightStrategy::StrongestSum, team)),
                }
            },
            _ => Some(last_best(*self, team)),
        }
    }
}

impl std::str::FromStr for FightStrategy {
    type Err = DbError;

    fn from_str(s: &str) -> Result<FightStrategy, DbError> {
        FightStrategy::parse(s)
    }
}

} // verus!
