//! A match between two trainers' teams: encounter after encounter, each
//! fainted creature leaves its team, until one team is empty.
//!
//! The match is specified as a sequence of steps. A step plays one
//! encounter between the two active creatures to its end, takes the fainted
//! one off its own team, and lets that team pick a replacement against the
//! survivor. Only the random values (the rounds' rolls and the picks of the
//! `Random` strategy) are left open; everything else is fixed.

use vstd::prelude::*;

use super::dice::Dice;
use super::pokemon_fight::{
    bout_after, bout_over, can_conclude, drawn_after, encounter_concludes, encounter_log,
    lemma_encounter_faints_once, run_encounter, start_bout, Bout, Combatant,
};
use super::{count_faints, is_pick, lemma_count_faints_add, FightEvent, FightLog, FightStrategy};
use crate::database::DbError;

verus! {

/// A trainer and the creatures of its team, their types read.
#[derive(Debug)]
pub struct TrainerTeam {
    /// The trainer's name.
    pub trainer: String,
    /// The team, in the order the store gave it.
    pub team: Vec<Combatant>,
}

/// The fixed facts of a match: the trainers' names and strategies.
pub struct MatchSides {
    /// The challenger's name.
    pub chal_name: String,
    /// The contender's name.
    pub cont_name: String,
    /// The challenger's strategy.
    pub chal_strat: FightStrategy,
    /// The contender's strategy.
    pub cont_strat: FightStrategy,
}

/// The state of a match between encounters.
pub struct MatchState {
    /// What is left of the challenger's team.
    pub chal: Seq<Combatant>,
    /// What is left of the contender's team.
    pub cont: Seq<Combatant>,
    /// The position of the challenger's active creature.
    pub hi: int,
    /// The position of the contender's active creature.
    pub ci: int,
    /// The hit points of the challenger's active creature.
    pub chal_hp: u32,
    /// The hit points of the contender's active creature.
    pub cont_hp: u32,
}

/// The random part of one step: the raw values of the encounter's rounds,
/// and the position the losing team picked (unused when that team is empty).
pub struct Round {
    /// One raw value per round of the encounter.
    pub rolls: Seq<u64>,
    /// The replacement's position.
    pub pick: int,
}

/// Whether every encounter between a creature of `a` and one of `b` ends.
pub open spec fn all_conclude(a: Seq<Combatant>, b: Seq<Combatant>) -> bool {
    forall|i: int, j: int|
        0 <= i < a.len() && 0 <= j < b.len() ==> encounter_concludes(
            #[trigger] a[i],
            #[trigger] b[j],
        )
}

/// Whether every creature of `a` starts with some hit points.
pub open spec fn all_standing(a: Seq<Combatant>) -> bool {
    forall|i: int| 0 <= i < a.len() ==> (#[trigger] a[i]).pokemon.stats.hp > 0
}

/// The names of the creatures of `team`, in order.
pub open spec fn names(team: Seq<Combatant>) -> Seq<String> {
    team.map_values(|c: Combatant| c.pokemon.name)
}

/// Whether `i` is a pick a strategy may make: a position of the team, and
/// the strategy's own choice unless it picks at random.
pub open spec fn valid_pick(
    strategy: FightStrategy,
    team: Seq<Combatant>,
    enemy: Option<Combatant>,
    i: int,
) -> bool {
    &&& 0 <= i < team.len()
    &&& strategy != FightStrategy::Random ==> is_pick(strategy, team, enemy, i)
}

/// The state before the first encounter, the contender having picked `c0`
/// and the challenger `h0`; both start with full hit points.
pub open spec fn opening_state(chal: Seq<Combatant>, cont: Seq<Combatant>, c0: int, h0: int) -> MatchState {
    MatchState {
        chal,
        cont,
        hi: h0,
        ci: c0,
        chal_hp: chal[h0].pokemon.stats.hp,
        cont_hp: cont[c0].pokemon.stats.hp,
    }
}

/// Whether the opening picks are allowed: the contender picks first, with
/// no enemy known, then the challenger against the contender's creature.
pub open spec fn opening_ok(
    sides: MatchSides,
    chal: Seq<Combatant>,
    cont: Seq<Combatant>,
    c0: int,
    h0: int,
) -> bool {
    &&& valid_pick(sides.cont_strat, cont, None, c0)
    &&& valid_pick(sides.chal_strat, chal, Some(cont[c0]), h0)
}

/// The two events of the opening picks.
pub open spec fn opening_events(
    sides: MatchSides,
    chal: Seq<Combatant>,
    cont: Seq<Combatant>,
    c0: int,
    h0: int,
) -> Seq<FightEvent> {
    seq![
        FightEvent::ChoosePokemon { trainer: sides.cont_name, pokemon: cont[c0].pokemon.name },
        FightEvent::ChoosePokemon { trainer: sides.chal_name, pokemon: chal[h0].pokemon.name },
    ]
}

/// The state an encounter starts from: the challenger's creature is passed
/// first.
pub open spec fn step_start(s: MatchState) -> Bout {
    start_bout(s.chal[s.hi], s.cont[s.ci], s.chal_hp, s.cont_hp)
}

/// The state an encounter ends in.
pub open spec fn step_end(s: MatchState, r: Round) -> Bout {
    bout_after(s.chal[s.hi], s.cont[s.ci], step_start(s), r.rolls)
}

/// The state after one step: the fainted creature leaves its own team, the
/// survivor keeps the hit points it has left, and a replacement comes in
/// with its full hit points if the team has one.
pub open spec fn step_next(s: MatchState, r: Round) -> MatchState {
    let end = step_end(s, r);
    if end.contender_hp == 0 {
        let chal = s.chal.remove(s.hi);
        MatchState {
            chal,
            hi: if chal.len() > 0 {
                r.pick
            } else {
                s.hi
            },
            chal_hp: if chal.len() > 0 {
                chal[r.pick].pokemon.stats.hp
            } else {
                s.chal_hp
            },
            cont_hp: end.challenger_hp,
            ..s
        }
    } else {
        let cont = s.cont.remove(s.ci);
        MatchState {
            cont,
            ci: if cont.len() > 0 {
                r.pick
            } else {
                s.ci
            },
            cont_hp: if cont.len() > 0 {
                cont[r.pick].pokemon.stats.hp
            } else {
                s.cont_hp
            },
            chal_hp: end.contender_hp,
            ..s
        }
    }
}

/// The events of one step: the encounter, then the replacement's pick.
pub open spec fn step_events(sides: MatchSides, s: MatchState, r: Round) -> Seq<FightEvent> {
    let n = step_next(s, r);
    let enc = encounter_log(s.chal[s.hi], s.cont[s.ci], step_start(s), r.rolls);
    if step_end(s, r).contender_hp == 0 {
        if n.chal.len() > 0 {
            enc + seq![
                FightEvent::ChoosePokemon { trainer: sides.chal_name, pokemon: n.chal[n.hi].pokemon.name },
            ]
        } else {
            enc
        }
    } else {
        if n.cont.len() > 0 {
            enc + seq![
                FightEvent::ChoosePokemon { trainer: sides.cont_name, pokemon: n.cont[n.ci].pokemon.name },
            ]
        } else {
            enc
        }
    }
}

/// Whether a step may be taken from `s` with `r`: both teams have an active
/// creature, both stand and can end their encounter, the encounter is
/// played to its end, and the replacement is a pick the strategy may make.
pub open spec fn step_ok(sides: MatchSides, s: MatchState, r: Round) -> bool {
    let n = step_next(s, r);
    &&& 0 <= s.hi < s.chal.len()
    &&& 0 <= s.ci < s.cont.len()
    &&& !bout_over(step_start(s))
    &&& encounter_concludes(s.chal[s.hi], s.cont[s.ci])
    &&& bout_over(step_end(s, r))
    &&& step_end(s, r).contender_hp == 0 && n.chal.len() > 0 ==> valid_pick(
        sides.chal_strat,
        n.chal,
        Some(s.cont[s.ci]),
        r.pick,
    )
    &&& step_end(s, r).contender_hp != 0 && n.cont.len() > 0 ==> valid_pick(
        sides.cont_strat,
        n.cont,
        Some(s.chal[s.hi]),
        r.pick,
    )
}

/// The state after the given steps.
pub open spec fn run_state(s: MatchState, rounds: Seq<Round>) -> MatchState
    decreases rounds.len(),
{
    if rounds.len() == 0 {
        s
    } else {
        step_next(run_state(s, rounds.drop_last()), rounds.last())
    }
}

/// The events of the given steps.
pub open spec fn run_events(sides: MatchSides, s: MatchState, rounds: Seq<Round>) -> Seq<FightEvent>
    decreases rounds.len(),
{
    if rounds.len() == 0 {
        Seq::empty()
    } else {
        run_events(sides, s, rounds.drop_last()) + step_events(
            sides,
            run_state(s, rounds.drop_last()),
            rounds.last(),
        )
    }
}

/// Whether each of the given steps may be taken in turn.
pub open spec fn run_ok(sides: MatchSides, s: MatchState, rounds: Seq<Round>) -> bool
    decreases rounds.len(),
{
    rounds.len() == 0 || (run_ok(sides, s, rounds.drop_last()) && step_ok(
        sides,
        run_state(s, rounds.drop_last()),
        rounds.last(),
    ))
}

/// Whether a match with opening picks `c0`, `h0` and steps `rounds` ended
/// with `log`: one team is empty, and the log is the opening picks, the
/// steps' events and the win of the trainer with creatures left, naming
/// them in order.
pub open spec fn match_outcome(
    sides: MatchSides,
    chal: Seq<Combatant>,
    cont: Seq<Combatant>,
    c0: int,
    h0: int,
    rounds: Seq<Round>,
    log: Seq<FightEvent>,
) -> bool {
    let f = run_state(opening_state(chal, cont, c0, h0), rounds);
    &&& opening_ok(sides, chal, cont, c0, h0)
    &&& run_ok(sides, opening_state(chal, cont, c0, h0), rounds)
    &&& f.chal.len() == 0 || f.cont.len() == 0
    &&& log.len() > 0
    &&& log.drop_last() == opening_events(sides, chal, cont, c0, h0) + run_events(
        sides,
        opening_state(chal, cont, c0, h0),
        rounds,
    )
    &&& log.last() matches FightEvent::Winner { trainer, pokemon_left } && if f.cont.len() > 0 {
        trainer == sides.cont_name && pokemon_left@ == names(f.cont)
    } else {
        trainer == sides.chal_name && pokemon_left@ == names(f.chal) && f.chal.len() > 0
    }
}

/// Whether a match with opening picks `c0`, `h0` and steps `rounds` reached
/// an encounter that cannot be played: an active creature has no hit points,
/// or neither active creature can hurt the other.
pub open spec fn match_stuck(
    sides: MatchSides,
    chal: Seq<Combatant>,
    cont: Seq<Combatant>,
    c0: int,
    h0: int,
    rounds: Seq<Round>,
) -> bool {
    let f = run_state(opening_state(chal, cont, c0, h0), rounds);
    &&& opening_ok(sides, chal, cont, c0, h0)
    &&& run_ok(sides, opening_state(chal, cont, c0, h0), rounds)
    &&& 0 <= f.hi < f.chal.len()
    &&& 0 <= f.ci < f.cont.len()
    &&& (f.chal_hp == 0 || f.cont_hp == 0 || !encounter_concludes(f.chal[f.hi], f.cont[f.ci]))
}

proof fn lemma_remove_keeps(a: Seq<Combatant>, b: Seq<Combatant>, k: int, on_a: bool)
    requires
        all_conclude(a, b),
        on_a ==> 0 <= k < a.len(),
        !on_a ==> 0 <= k < b.len(),
    ensures
        on_a ==> all_conclude(a.remove(k), b),
        !on_a ==> all_conclude(a, b.remove(k)),
{
    if on_a {
        assert forall|i: int, j: int|
            0 <= i < a.remove(k).len() && 0 <= j < b.len() implies encounter_concludes(
            #[trigger] a.remove(k)[i],
            #[trigger] b[j],
        ) by {
            if i < k {
                assert(a.remove(k)[i] == a[i]);
            } else {
                assert(a.remove(k)[i] == a[i + 1]);
            }
        }
    } else {
        assert forall|i: int, j: int|
            0 <= i < a.len() && 0 <= j < b.remove(k).len() implies encounter_concludes(
            #[trigger] a[i],
            #[trigger] b.remove(k)[j],
        ) by {
            if j < k {
                assert(b.remove(k)[j] == b[j]);
            } else {
                assert(b.remove(k)[j] == b[j + 1]);
            }
        }
    }
}

proof fn lemma_remove_standing(a: Seq<Combatant>, k: int)
    requires
        all_standing(a),
        0 <= k < a.len(),
    ensures
        all_standing(a.remove(k)),
{
    assert forall|i: int| 0 <= i < a.remove(k).len() implies (#[trigger] a.remove(
        k,
    )[i]).pokemon.stats.hp > 0 by {
        if i < k {
            assert(a.remove(k)[i] == a[i]);
        } else {
            assert(a.remove(k)[i] == a[i + 1]);
        }
    }
}

/// Picks with `strategy` from a team that is not empty.
fn pick(
    strategy: FightStrategy,
    team: &Vec<Combatant>,
    enemy: Option<&Combatant>,
    dice: &mut Dice,
) -> (r: usize)
    requires
        team@.len() > 0,
    ensures
        valid_pick(
            strategy,
            team@,
            match enemy {
                Some(e) => Some(*e),
                None => None,
            },
            r as int,
        ),
{
    match strategy.choose_pokemon(team.as_slice(), enemy, dice) {
        Some(i) => i,
        None => 0,
    }
}

/// The match state as the program holds it.
struct Match {
    chal: Vec<Combatant>,
    cont: Vec<Combatant>,
    hi: usize,
    ci: usize,
    chal_hp: u32,
    cont_hp: u32,
}

impl Match {
    spec fn view(&self) -> MatchState {
        MatchState {
            chal: self.chal@,
            cont: self.cont@,
            hi: self.hi as int,
            ci: self.ci as int,
            chal_hp: self.chal_hp,
            cont_hp: self.cont_hp,
        }
    }
}

/// Plays one step: the encounter, the removal of the fainted creature and
/// the pick of its replacement. Gives the step's random part.
fn play_step(
    m: &mut Match,
    chal_name: &String,
    cont_name: &String,
    chal_strat: FightStrategy,
    cont_strat: FightStrategy,
    dice: &mut Dice,
    log: &mut Vec<FightEvent>,
    Ghost(sides): Ghost<MatchSides>,
) -> (r: Ghost<Round>)
    requires
        sides == (MatchSides {
            chal_name: *chal_name,
            cont_name: *cont_name,
            chal_strat,
            cont_strat,
        }),
        old(m).hi < old(m).chal@.len(),
        old(m).ci < old(m).cont@.len(),
        old(m).chal_hp > 0,
        old(m).cont_hp > 0,
        encounter_concludes(old(m).chal@[old(m).hi as int], old(m).cont@[old(m).ci as int]),
    ensures
        step_ok(sides, old(m).view(), r@),
        final(m).view() == step_next(old(m).view(), r@),
        final(log)@ == old(log)@ + step_events(sides, old(m).view(), r@),
        count_faints(final(log)@) == count_faints(old(log)@) + 1,
        final(m).chal@.len() + final(m).cont@.len() + 1 == old(m).chal@.len() + old(m).cont@.len(),
        final(m).chal@.len() > 0 && final(m).cont@.len() > 0 ==> final(m).hi < final(m).chal@.len()
            && final(m).ci < final(m).cont@.len(),
{
    let ghost s = m.view();
    let ghost before = dice.drawn();
    let (fl, end) = run_encounter(&m.chal[m.hi], &m.cont[m.ci], m.chal_hp, m.cont_hp, dice);
    let ghost rolls = drawn_after(before, *dice);
    proof {
        lemma_encounter_faints_once(m.chal@[m.hi as int], m.cont@[m.ci as int], step_start(s), rolls);
        lemma_count_faints_add(log@, fl.log@);
    }
    let mut encounter = fl.log;
    log.append(&mut encounter);
    let ghost after_encounter = log@;
    if end.contender_hp == 0 {
        m.chal.remove(m.hi);
        m.cont_hp = end.challenger_hp;
        if m.chal.len() > 0 {
            m.hi = pick(chal_strat, &m.chal, Some(&m.cont[m.ci]), dice);
            log.push(choose_event(chal_name, &m.chal[m.hi]));
            m.chal_hp = m.chal[m.hi].pokemon.stats.hp;
            proof {
                lemma_one_event_no_faint(after_encounter, log@.last());
                assert(log@ =~= after_encounter.push(log@.last()));
            }
        }
    } else {
        m.cont.remove(m.ci);
        m.chal_hp = end.contender_hp;
        if m.cont.len() > 0 {
            m.ci = pick(cont_strat, &m.cont, Some(&m.chal[m.hi]), dice);
            log.push(choose_event(cont_name, &m.cont[m.ci]));
            m.cont_hp = m.cont[m.ci].pokemon.stats.hp;
            proof {
                lemma_one_event_no_faint(after_encounter, log@.last());
                assert(log@ =~= after_encounter.push(log@.last()));
            }
        }
    }
    let ghost pick_index: int = if end.contender_hp == 0 {
        m.hi as int
    } else {
        m.ci as int
    };
    let ghost r = Round { rolls, pick: pick_index };
    proof {
        assert(step_end(s, r) == end);
        assert(m.view() == step_next(s, r));
        assert(log@ =~= old(log)@ + step_events(sides, s, r));
    }
    Ghost(r)
}

fn names_of(team: &Vec<Combatant>) -> (r: Vec<String>)
    ensures
        r@ == names(team@),
{
    let mut r: Vec<String> = Vec::new();
    let mut i: usize = 0;
    while i < team.len()
        invariant
            i <= team@.len(),
            r@ == names(team@.take(i as int)),
        decreases team@.len() - i,
    {
        r.push(team[i].pokemon.name.clone());
        proof {
            assert(names(team@.take(i + 1)) =~= names(team@.take(i as int)).push(
                team@[i as int].pokemon.name,
            ));
        }
        i += 1;
    }
    proof {
        assert(team@.take(team@.len() as int) =~= team@);
    }
    r
}

fn choose_event(trainer: &String, c: &Combatant) -> (r: FightEvent)
    ensures
        r == (FightEvent::ChoosePokemon { trainer: *trainer, pokemon: c.pokemon.name }),
{
    FightEvent::ChoosePokemon { trainer: trainer.clone(), pokemon: c.pokemon.name.clone() }
}

proof fn lemma_one_event_no_faint(log: Seq<FightEvent>, e: FightEvent)
    requires
        !(e is Fainted),
    ensures
        count_faints(log.push(e)) == count_faints(log),
{
    assert(log.push(e).drop_last() =~= log);
}

/// Plays a match. The contender picks first, knowing nothing of the enemy;
/// the challenger then picks against the contender's creature. Each
/// encounter starts from the hit points its creatures carry: a creature
/// just sent in has its full hit points, a survivor keeps what it had left.
/// The fainted creature leaves its own team, and that team picks again
/// against the survivor. When a team is empty, the other trainer wins with
/// what is left of its team, in order.
///
/// An encounter that cannot be played (an active creature with no hit
/// points, or two creatures that can never hurt each other) breaks the
/// match, as do two empty teams.
///
/// Each encounter ends in exactly one faint and takes exactly one creature
/// off the losing team, so the faints of the log and the creatures left to
/// the winner add up to the sizes of both teams: a match has fewer
/// encounters than the two teams have creatures.
pub fn process_fight(
    challenger: TrainerTeam,
    contender: TrainerTeam,
    challenger_strat: FightStrategy,
    contender_strat: FightStrategy,
    dice: &mut Dice,
) -> (r: Result<FightLog, DbError>)
    ensures
        ({
            let sides = MatchSides {
                chal_name: challenger.trainer,
                cont_name: contender.trainer,
                chal_strat: challenger_strat,
                cont_strat: contender_strat,
            };
            let chal = challenger.team@;
            let cont = contender.team@;
            &&& r matches Err(e) ==> e is OrchestrationInvariant
            &&& r is Err ==> (chal.len() == 0 && cont.len() == 0) || exists|
                c0: int,
                h0: int,
                rounds: Seq<Round>,
            | #[trigger] match_stuck(sides, chal, cont, c0, h0, rounds)
            &&& all_standing(chal) && all_standing(cont) && all_conclude(chal, cont) && (chal.len()
                > 0 || cont.len() > 0) ==> r is Ok
            &&& r matches Ok(l) ==> {
                &&& l.challenger_name == challenger.trainer
                &&& l.contender_name == contender.trainer
                &&& chal.len() > 0 && cont.len() > 0 ==> exists|
                    c0: int,
                    h0: int,
                    rounds: Seq<Round>,
                | #[trigger] match_outcome(sides, chal, cont, c0, h0, rounds, l.log@)
                &&& chal.len() == 0 ==> l.log@.len() == 1 && (l.log@[0] matches FightEvent::Winner {
                    trainer,
                    pokemon_left,
                } && trainer == contender.trainer && pokemon_left@ == names(cont))
                &&& cont.len() == 0 && chal.len() > 0 ==> l.log@.len() == 1
                    && (l.log@[0] matches FightEvent::Winner { trainer, pokemon_left } && trainer
                    == challenger.trainer && pokemon_left@ == names(chal))
                &&& l.log@.len() > 0
                &&& l.log@.last() matches FightEvent::Winner { pokemon_left, .. } && {
                    &&& pokemon_left@.len() > 0
                    &&& count_faints(l.log@) + pokemon_left@.len() == chal.len() + cont.len()
                }
            }
        }),
{
    let ghost sides = MatchSides {
        chal_name: challenger.trainer,
        cont_name: contender.trainer,
        chal_strat: challenger_strat,
        cont_strat: contender_strat,
    };
    let ghost chal0 = challenger.team@;
    let ghost cont0 = contender.team@;
    let TrainerTeam { trainer: chal_name, team: chal_team } = challenger;
    let TrainerTeam { trainer: cont_name, team: cont_team } = contender;
    let ghost total = chal0.len() + cont0.len();
    let ghost standing = all_standing(chal0) && all_standing(cont0) && all_conclude(chal0, cont0);
    let mut log: Vec<FightEvent> = Vec::new();
    if chal_team.len() > 0 && cont_team.len() > 0 {
        let ci = pick(contender_strat, &cont_team, None, dice);
        log.push(choose_event(&cont_name, &cont_team[ci]));
        let hi = pick(challenger_strat, &chal_team, Some(&cont_team[ci]), dice);
        log.push(choose_event(&chal_name, &chal_team[hi]));
        let cont_hp = cont_team[ci].pokemon.stats.hp;
        let chal_hp = chal_team[hi].pokemon.stats.hp;
        let mut m = Match { chal: chal_team, cont: cont_team, hi, ci, chal_hp, cont_hp };
        let ghost c0 = ci as int;
        let ghost h0 = hi as int;
        let ghost init = opening_state(chal0, cont0, c0, h0);
        let ghost mut rounds: Seq<Round> = Seq::empty();
        proof {
            reveal_with_fuel(count_faints, 3);
            assert(log@.drop_last().drop_last() =~= Seq::<FightEvent>::empty());
            assert(log@ =~= opening_events(sides, chal0, cont0, c0, h0) + run_events(
                sides,
                init,
                rounds,
            ));
            assert(m.view() == init);
        }
        while m.chal.len() > 0 && m.cont.len() > 0
            invariant
                m.chal@.len() > 0 || m.cont@.len() > 0,
                standing == (all_standing(chal0) && all_standing(cont0) && all_conclude(
                    chal0,
                    cont0,
                )),
                standing ==> all_standing(m.chal@) && all_standing(m.cont@) && all_conclude(
                    m.chal@,
                    m.cont@,
                ),
                m.chal@.len() > 0 && m.cont@.len() > 0 ==> {
                    &&& m.hi < m.chal@.len()
                    &&& m.ci < m.cont@.len()
                    &&& standing ==> m.chal_hp > 0 && m.cont_hp > 0
                },
                count_faints(log@) + m.chal@.len() + m.cont@.len() == total,
                total == chal0.len() + cont0.len(),
                chal0 == challenger.team@,
                cont0 == contender.team@,
                sides == (MatchSides {
                    chal_name: challenger.trainer,
                    cont_name: contender.trainer,
                    chal_strat: challenger_strat,
                    cont_strat: contender_strat,
                }),
                sides == (MatchSides {
                    chal_name,
                    cont_name,
                    chal_strat: challenger_strat,
                    cont_strat: contender_strat,
                }),
                init == opening_state(chal0, cont0, c0, h0),
                opening_ok(sides, chal0, cont0, c0, h0),
                run_ok(sides, init, rounds),
                run_state(init, rounds) == m.view(),
                log@ == opening_events(sides, chal0, cont0, c0, h0) + run_events(
                    sides,
                    init,
                    rounds,
                ),
            decreases m.chal@.len() + m.cont@.len(),
        {
            if m.chal_hp == 0 || m.cont_hp == 0 || !can_conclude(&m.chal[m.hi], &m.cont[m.ci]) {
                proof {
                    if standing {
                        assert(encounter_concludes(m.chal@[m.hi as int], m.cont@[m.ci as int]));
                    }
                    assert(match_stuck(sides, chal0, cont0, c0, h0, rounds));
                }
                return Err(
                    DbError::OrchestrationInvariant(String::from_str("an encounter cannot be played")),
                );
            }
            let ghost s = m.view();
            let Ghost(r) = play_step(
                &mut m,
                &chal_name,
                &cont_name,
                challenger_strat,
                contender_strat,
                dice,
                &mut log,
                Ghost(sides),
            );
            proof {
                if standing {
                    if step_end(s, r).contender_hp == 0 {
                        lemma_remove_keeps(s.chal, s.cont, s.hi, true);
                        lemma_remove_standing(s.chal, s.hi);
                    } else {
                        lemma_remove_keeps(s.chal, s.cont, s.ci, false);
                        lemma_remove_standing(s.cont, s.ci);
                    }
                    lemma_step_standing(s, r);
                }
                let rounds2 = rounds.push(r);
                assert(rounds2.drop_last() =~= rounds);
                rounds = rounds2;
            }
        }
        let ghost before_winner = log@;
        if m.cont.len() > 0 {
            let left = names_of(&m.cont);
            log.push(FightEvent::Winner { trainer: cont_name.clone(), pokemon_left: left });
        } else {
            let left = names_of(&m.chal);
            log.push(FightEvent::Winner { trainer: chal_name.clone(), pokemon_left: left });
        }
        proof {
            lemma_one_event_no_faint(before_winner, log@.last());
            assert(log@ =~= before_winner.push(log@.last()));
            assert(log@.drop_last() =~= before_winner);
            assert(match_outcome(sides, chal0, cont0, c0, h0, rounds, log@));
        }
        Ok(FightLog { contender_name: cont_name, challenger_name: chal_name, log })
    } else {
        if cont_team.len() > 0 {
            let left = names_of(&cont_team);
            log.push(FightEvent::Winner { trainer: cont_name.clone(), pokemon_left: left });
        } else if chal_team.len() > 0 {
            let left = names_of(&chal_team);
            log.push(FightEvent::Winner { trainer: chal_name.clone(), pokemon_left: left });
        } else {
            return Err(DbError::OrchestrationInvariant(String::from_str("both teams are empty")));
        }
        proof {
            lemma_one_event_no_faint(Seq::<FightEvent>::empty(), log@.last());
            assert(log@ =~= Seq::<FightEvent>::empty().push(log@.last()));
        }
        Ok(FightLog { contender_name: cont_name, challenger_name: chal_name, log })
    }
}

/// In a match where every creature stands, the active creatures of the
/// next step stand too: a replacement comes in with its full hit points,
/// and the survivor of an encounter keeps some.
proof fn lemma_step_standing(s: MatchState, r: Round)
    requires
        0 <= s.hi < s.chal.len(),
        0 <= s.ci < s.cont.len(),
        !bout_over(step_start(s)),
        bout_over(step_end(s, r)),
        all_standing(step_next(s, r).chal),
        all_standing(step_next(s, r).cont),
        step_end(s, r).contender_hp == 0 && step_next(s, r).chal.len() > 0 ==> 0 <= r.pick
            < step_next(s, r).chal.len(),
        step_end(s, r).contender_hp != 0 && step_next(s, r).cont.len() > 0 ==> 0 <= r.pick
            < step_next(s, r).cont.len(),
    ensures
        step_next(s, r).chal.len() > 0 && step_next(s, r).cont.len() > 0 ==> step_next(
            s,
            r,
        ).chal_hp > 0 && step_next(s, r).cont_hp > 0,
{
    lemma_encounter_faints_once(s.chal[s.hi], s.cont[s.ci], step_start(s), r.rolls);
}

} // verus!
