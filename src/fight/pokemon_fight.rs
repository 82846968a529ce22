//! One encounter between two creatures whose types have been read.
//!
//! Each round the attacker's damage is its attack stat times three factors:
//! the type multiplier, a random multiplier between 0.8 and 1.2, and the
//! defense multiplier `1 - defense / 100 * 0.5`. All three are kept in exact
//! fixed point (thousandths, thousandths, two-hundredths), and the hit points
//! lost are the product with its fractional part dropped.

use vstd::arithmetic::div_mod::lemma_div_is_ordered;
use vstd::arithmetic::mul::lemma_mul_inequality;
use vstd::prelude::*;

use super::dice::Dice;
use super::{count_faints, lemma_count_faints_add, Effectiveness, FightEvent, FightLog};
use crate::database::promise::Promise;
use crate::database::DbError;
use crate::pokemon::ptype::PokemonType;
use crate::pokemon::Pokemon;

verus! {

/// A creature together with the types its references name.
#[derive(Debug)]
pub struct Combatant {
    /// The creature.
    pub pokemon: Pokemon,
    /// Its primary type, read from the store.
    pub primary_type: PokemonType,
    /// Its secondary type, read from the store, if it has one.
    pub secondary_type: Option<PokemonType>,
}

/// Whether the given types are the ones the creature's references name.
pub open spec fn types_match(
    pokemon: Pokemon,
    primary: PokemonType,
    secondary: Option<PokemonType>,
) -> bool {
    &&& primary.name@ == pokemon.primary_type.ident_spec()
    &&& match (pokemon.secondary_type, secondary) {
        (None, None) => true,
        (Some(r), Some(t)) => t.name@ == r.ident_spec(),
        _ => false,
    }
}

fn same_opt_type(r: &Option<Promise<PokemonType>>, t: &Option<PokemonType>) -> (b: bool)
    ensures
        b == match (*r, *t) {
            (None, None) => true,
            (Some(r), Some(t)) => t.name@ == r.ident_spec(),
            _ => false,
        },
{
    match (r, t) {
        (None, None) => true,
        (Some(r), Some(t)) => crate::database::same_text(t.name.as_str(), r.ident()),
        _ => false,
    }
}

impl Combatant {
    /// Pairs a creature with its types once they have been read; refused
    /// when a type is not the one the creature refers to, or when one is
    /// missing or extra.
    pub fn resolve(
        pokemon: Pokemon,
        primary_type: PokemonType,
        secondary_type: Option<PokemonType>,
    ) -> (r: Result<Combatant, DbError>)
        ensures
            types_match(pokemon, primary_type, secondary_type) ==> r == Ok::<Combatant, DbError>(
                (Combatant { pokemon, primary_type, secondary_type }),
            ),
            !types_match(pokemon, primary_type, secondary_type) ==> r matches Err(
                DbError::Malformed(_),
            ),
    {
        let primary_ok = crate::database::same_text(
            primary_type.name.as_str(),
            pokemon.primary_type.ident(),
        );
        if primary_ok && same_opt_type(&pokemon.secondary_type, &secondary_type) {
            Ok(Combatant { pokemon, primary_type, secondary_type })
        } else {
            Err(DbError::Malformed(String::from_str("a type does not match its reference")))
        }
    }
}

/// What one type check adds to the multiplier, in thousandths: 375 when
/// `x` is strong against `y`, minus 225 when it is weak against it.
pub open spec fn type_check(x: PokemonType, y: PokemonType) -> int {
    if x.strong_against_spec(y.name@) {
        375
    } else if x.weak_against_spec(y.name@) {
        -225
    } else {
        0
    }
}

/// The type multiplier of `a` attacking `d`, in thousandths: 1000 adjusted by
/// the checks attacker-primary against defender-primary, attacker-primary
/// against defender-secondary, defender-primary against attacker-secondary
/// and defender-secondary against attacker-secondary.
pub open spec fn type_multiplier_spec(a: Combatant, d: Combatant) -> int {
    1000 + type_check(a.primary_type, d.primary_type) + match d.secondary_type {
        Some(ds) => type_check(a.primary_type, ds),
        None => 0,
    } + match a.secondary_type {
        Some(asec) => type_check(d.primary_type, asec),
        None => 0,
    } + match (a.secondary_type, d.secondary_type) {
        (Some(asec), Some(ds)) => type_check(ds, asec),
        _ => 0,
    }
}

/// The class of a type multiplier given in thousandths.
pub open spec fn effectiveness_of(m: int) -> Effectiveness {
    if m > 1800 {
        Effectiveness::SuperEffective
    } else if m < 600 {
        Effectiveness::NotVeryEffective
    } else {
        Effectiveness::Normal
    }
}

/// The random multiplier, in thousandths, that a raw value stands for.
pub open spec fn roll_of(raw: u64) -> int {
    800 + raw % 401
}

/// The divisor of the damage product: thousandths of the type multiplier,
/// thousandths of the random multiplier, two-hundredths of the defense one.
pub open spec fn damage_scale() -> int {
    200_000_000
}

/// The hit points `d` loses to an attack of `a` with random multiplier
/// `roll` (in thousandths), the fraction dropped. A defense above 200 would
/// make the defense multiplier negative; the loss is then held at zero, so
/// that a hit never heals.
pub open spec fn hit_loss_spec(a: Combatant, d: Combatant, roll: int) -> int {
    let p = a.pokemon.stats.attack * type_multiplier_spec(a, d) * roll;
    let def = d.pokemon.stats.defense as int;
    if def <= 200 {
        p * (200 - def) / damage_scale()
    } else {
        0
    }
}

/// `x` brought into the range of `u32`.
pub open spec fn clamp_u32(x: int) -> u32 {
    if x < 0 {
        0
    } else if x > u32::MAX {
        u32::MAX
    } else {
        x as u32
    }
}

/// The events of `a`, with `a_hp` hit points, attacking `d`, with `d_hp`.
pub open spec fn hit_events(a: Combatant, d: Combatant, a_hp: u32, d_hp: u32, raw: u64) -> Seq<
    FightEvent,
> {
    let loss = hit_loss_spec(a, d, roll_of(raw));
    let left = d_hp - loss;
    let hit = FightEvent::Hit {
        attacker: a.pokemon.name,
        defender: d.pokemon.name,
        damage: clamp_u32(loss),
        hp_left: clamp_u32(left),
        effectiveness: effectiveness_of(type_multiplier_spec(a, d)),
    };
    if left <= 0 {
        seq![
            hit,
            FightEvent::Fainted { pokemon: d.pokemon.name },
            FightEvent::PokemonWinner { pokemon: a.pokemon.name, hp_left: a_hp },
        ]
    } else {
        seq![hit]
    }
}

/// The state of an encounter between rounds.
#[derive(Clone, Copy, Debug, PartialEq, Eq, Structural)]
pub struct Bout {
    /// The hit points of the creature passed first.
    pub contender_hp: u32,
    /// The hit points of the creature passed second.
    pub challenger_hp: u32,
    /// Whether the creature passed first attacks next.
    pub contender_moves: bool,
}

/// The state before the first round: the creature with strictly higher
/// agility attacks first, and on equal agility the one passed second.
pub open spec fn start_bout(c: Combatant, ch: Combatant, c_hp: u32, ch_hp: u32) -> Bout {
    Bout {
        contender_hp: c_hp,
        challenger_hp: ch_hp,
        contender_moves: c.pokemon.stats.agility > ch.pokemon.stats.agility,
    }
}

/// Whether one side has no hit points left.
pub open spec fn bout_over(b: Bout) -> bool {
    b.contender_hp == 0 || b.challenger_hp == 0
}

/// The state after one round with raw random value `raw`.
pub open spec fn next_bout(c: Combatant, ch: Combatant, b: Bout, raw: u64) -> Bout {
    if b.contender_moves {
        Bout {
            challenger_hp: clamp_u32(b.challenger_hp - hit_loss_spec(c, ch, roll_of(raw))),
            contender_moves: false,
            ..b
        }
    } else {
        Bout {
            contender_hp: clamp_u32(b.contender_hp - hit_loss_spec(ch, c, roll_of(raw))),
            contender_moves: true,
            ..b
        }
    }
}

/// The events of one round.
pub open spec fn round_events(c: Combatant, ch: Combatant, b: Bout, raw: u64) -> Seq<FightEvent> {
    if b.contender_moves {
        hit_events(c, ch, b.contender_hp, b.challenger_hp, raw)
    } else {
        hit_events(ch, c, b.challenger_hp, b.contender_hp, raw)
    }
}

/// The events of the rounds played from `b` with the raw values `rolls`,
/// one per round, until one side has no hit points left.
pub open spec fn encounter_log(c: Combatant, ch: Combatant, b: Bout, rolls: Seq<u64>) -> Seq<
    FightEvent,
>
    decreases rolls.len(),
{
    if bout_over(b) || rolls.len() == 0 {
        Seq::empty()
    } else {
        round_events(c, ch, b, rolls[0]) + encounter_log(
            c,
            ch,
            next_bout(c, ch, b, rolls[0]),
            rolls.drop_first(),
        )
    }
}

/// The state reached from `b` with the raw values `rolls`.
pub open spec fn bout_after(c: Combatant, ch: Combatant, b: Bout, rolls: Seq<u64>) -> Bout
    decreases rolls.len(),
{
    if bout_over(b) || rolls.len() == 0 {
        b
    } else {
        bout_after(c, ch, next_bout(c, ch, b, rolls[0]), rolls.drop_first())
    }
}

/// Whether an encounter between the two ends whatever the random values:
/// one of them takes at least one hit point off the other with the lowest
/// random multiplier.
pub open spec fn encounter_concludes(c: Combatant, ch: Combatant) -> bool {
    hit_loss_spec(c, ch, 800) >= 1 || hit_loss_spec(ch, c, 800) >= 1
}

/// The values `d` handed out after `before` was its record.
pub open spec fn drawn_after(before: Seq<u64>, d: Dice) -> Seq<u64> {
    d.drawn().subrange(before.len() as int, d.drawn().len() as int)
}

/// The type multiplier of `a` attacking `d` lies between 0.1 and 2.5.
pub proof fn lemma_type_multiplier_bounds(a: Combatant, d: Combatant)
    ensures
        100 <= type_multiplier_spec(a, d) <= 2500,
{
}

/// An attack that takes at least one hit point with the lowest random
/// multiplier takes at least one with any other.
pub proof fn lemma_loss_grows_with_roll(a: Combatant, d: Combatant, roll: int)
    requires
        800 <= roll <= 1200,
        hit_loss_spec(a, d, 800) >= 1,
    ensures
        hit_loss_spec(a, d, roll) >= 1,
{
    let m = type_multiplier_spec(a, d);
    lemma_type_multiplier_bounds(a, d);
    let atk = a.pokemon.stats.attack as int;
    let def = d.pokemon.stats.defense as int;
    if def <= 200 {
        let k = atk * m;
        assert(k >= 0) by (nonlinear_arith)
            requires
                atk >= 0,
                m >= 0,
                k == atk * m,
        ;
        lemma_mul_inequality(800, roll, k);
        assert(atk * m * 800 <= atk * m * roll) by (nonlinear_arith)
            requires
                k * 800 <= k * roll,
                k == atk * m,
        ;
        lemma_mul_inequality(atk * m * 800, atk * m * roll, 200 - def);
        lemma_div_is_ordered(
            atk * m * 800 * (200 - def),
            atk * m * roll * (200 - def),
            damage_scale(),
        );
    }
}

/// An attack never raises the defender's hit points: the hit points left
/// after the hit are at most those before.
pub proof fn lemma_hit_never_heals(a: Combatant, d: Combatant, a_hp: u32, d_hp: u32, raw: u64)
    ensures
        hit_events(a, d, a_hp, d_hp, raw)[0] matches FightEvent::Hit { hp_left, .. } && hp_left
            <= d_hp,
        hit_loss_spec(a, d, roll_of(raw)) >= 0,
{
    lemma_loss_nonnegative(a, d, roll_of(raw));
}

/// A hit takes no hit points off, or some: never a negative number.
pub proof fn lemma_loss_nonnegative(a: Combatant, d: Combatant, roll: int)
    requires
        roll >= 0,
    ensures
        hit_loss_spec(a, d, roll) >= 0,
{
    let m = type_multiplier_spec(a, d);
    lemma_type_multiplier_bounds(a, d);
    let atk = a.pokemon.stats.attack as int;
    if d.pokemon.stats.defense <= 200 {
        let k = 200 - d.pokemon.stats.defense;
        let q = atk * m * roll * k;
        assert(q >= 0) by (nonlinear_arith)
            requires
                atk >= 0,
                m >= 0,
                roll >= 0,
                k >= 0,
                q == atk * m * roll * k,
        ;
    }
}

/// Over a whole encounter neither side's hit points ever rise: each state
/// reached has at most the hit points of the state it started from.
pub proof fn lemma_hp_never_rises(c: Combatant, ch: Combatant, b: Bout, rolls: Seq<u64>)
    ensures
        bout_after(c, ch, b, rolls).contender_hp <= b.contender_hp,
        bout_after(c, ch, b, rolls).challenger_hp <= b.challenger_hp,
    decreases rolls.len(),
{
    if !bout_over(b) && rolls.len() > 0 {
        let raw = rolls[0];
        lemma_loss_nonnegative(c, ch, roll_of(raw));
        lemma_loss_nonnegative(ch, c, roll_of(raw));
        lemma_hp_never_rises(c, ch, next_bout(c, ch, b, raw), rolls.drop_first());
    }
}

/// Every attack of an encounter is classed by its type multiplier alone,
/// and that multiplier lies between 0.1 and 2.5.
pub proof fn lemma_hits_effectiveness(
    a: Combatant,
    d: Combatant,
    a_hp: u32,
    d_hp: u32,
    raw: u64,
)
    ensures
        hit_events(a, d, a_hp, d_hp, raw)[0] matches FightEvent::Hit { effectiveness, damage, .. }
            && effectiveness == effectiveness_of(type_multiplier_spec(a, d)) && damage
            == clamp_u32(hit_loss_spec(a, d, roll_of(raw))),
        100 <= type_multiplier_spec(a, d) <= 2500,
{
    lemma_type_multiplier_bounds(a, d);
}

/// The effectiveness of a type multiplier given in thousandths.
pub fn effectiveness(m: i64) -> (r: Effectiveness)
    ensures
        r == effectiveness_of(m as int),
{
    if m > 1800 {
        Effectiveness::SuperEffective
    } else if m < 600 {
        Effectiveness::NotVeryEffective
    } else {
        Effectiveness::Normal
    }
}

fn type_check_of(x: &PokemonType, y: &PokemonType) -> (r: i64)
    ensures
        r == type_check(*x, *y),
{
    if x.is_strong_against(y) {
        375
    } else if x.is_weak_against(y) {
        -225
    } else {
        0
    }
}

/// The type multiplier of `a` attacking `d`, in thousandths.
pub fn type_multiplier(a: &Combatant, d: &Combatant) -> (r: i64)
    ensures
        r == type_multiplier_spec(*a, *d),
        100 <= r <= 2500,
{
    let mut m: i64 = 1000 + type_check_of(&a.primary_type, &d.primary_type);
    if let Some(ds) = &d.secondary_type {
        m = m + type_check_of(&a.primary_type, ds);
    }
    if let Some(asec) = &a.secondary_type {
        m = m + type_check_of(&d.primary_type, asec);
        if let Some(ds) = &d.secondary_type {
            m = m + type_check_of(ds, asec);
        }
    }
    m
}

/// The hit points `d` loses to an attack of `a` with random multiplier
/// `roll` in thousandths.
pub fn hit_loss(a: &Combatant, d: &Combatant, roll: u64) -> (r: i128)
    requires
        800 <= roll <= 1200,
    ensures
        r == hit_loss_spec(*a, *d, roll as int),
        0 <= r <= 77371252455336267181195264,
{
    let m = type_multiplier(a, d);
    let atk = a.pokemon.stats.attack as u128;
    proof {
        assert(atk * (m as u128) <= 4294967295u128 * 2500) by (nonlinear_arith)
            requires
                atk <= 4294967295,
                0 <= m <= 2500,
        ;
        assert(atk * (m as u128) * (roll as u128) <= 4294967295u128 * 2500 * 1200)
            by (nonlinear_arith)
            requires
                atk * (m as u128) <= 4294967295u128 * 2500,
                roll <= 1200,
        ;
    }
    let p: u128 = atk * (m as u128) * (roll as u128);
    let def = d.pokemon.stats.defense;
    if def <= 200 {
        let k = (200 - def) as u128;
        proof {
            assert(p * k <= 4294967295u128 * 2500 * 1200 * 200) by (nonlinear_arith)
                requires
                    p <= 4294967295u128 * 2500 * 1200,
                    k <= 200,
            ;
        }
        proof {
            assert((p * k) / 200_000_000 <= p * k) by (nonlinear_arith)
                requires
                    p * k >= 0,
            ;
        }
        ((p * k) / 200_000_000) as i128
    } else {
        0
    }
}

fn clamp_to_u32(x: i128) -> (r: u32)
    ensures
        r == clamp_u32(x as int),
{
    if x < 0 {
        0
    } else if x > u32::MAX as i128 {
        u32::MAX
    } else {
        x as u32
    }
}

/// Plays one round: the side that moves attacks the other, its events go
/// to `log`, and the state moves on.
fn play_round(c: &Combatant, ch: &Combatant, b: Bout, raw: u64, log: &mut Vec<FightEvent>) -> (r:
    Bout)
    ensures
        r == next_bout(*c, *ch, b, raw),
        final(log)@ == old(log)@ + round_events(*c, *ch, b, raw),
{
    let (a, d, a_hp, d_hp) = if b.contender_moves {
        (c, ch, b.contender_hp, b.challenger_hp)
    } else {
        (ch, c, b.challenger_hp, b.contender_hp)
    };
    let roll = 800 + raw % 401;
    let m = type_multiplier(a, d);
    let loss = hit_loss(a, d, roll);
    let left: i128 = d_hp as i128 - loss;
    log.push(
        FightEvent::Hit {
            attacker: a.pokemon.name.clone(),
            defender: d.pokemon.name.clone(),
            damage: clamp_to_u32(loss),
            hp_left: clamp_to_u32(left),
            effectiveness: effectiveness(m),
        },
    );
    if left <= 0 {
        log.push(FightEvent::Fainted { pokemon: d.pokemon.name.clone() });
        log.push(FightEvent::PokemonWinner { pokemon: a.pokemon.name.clone(), hp_left: a_hp });
    }
    proof {
        assert(final(log)@ =~= old(log)@ + round_events(*c, *ch, b, raw));
    }
    let new_hp = clamp_to_u32(left);
    if b.contender_moves {
        Bout { challenger_hp: new_hp, contender_moves: false, ..b }
    } else {
        Bout { contender_hp: new_hp, contender_moves: true, ..b }
    }
}

proof fn lemma_encounter_step(c: Combatant, ch: Combatant, b: Bout, rolls: Seq<u64>, raw: u64)
    requires
        !bout_over(bout_after(c, ch, b, rolls)),
    ensures
        encounter_log(c, ch, b, rolls.push(raw)) == encounter_log(c, ch, b, rolls) + round_events(
            c,
            ch,
            bout_after(c, ch, b, rolls),
            raw,
        ),
        bout_after(c, ch, b, rolls.push(raw)) == next_bout(c, ch, bout_after(c, ch, b, rolls), raw),
    decreases rolls.len(),
{
    if rolls.len() == 0 {
        assert(rolls.push(raw).drop_first() =~= Seq::<u64>::empty());
        assert(encounter_log(c, ch, next_bout(c, ch, b, raw), Seq::<u64>::empty()) =~= Seq::<
            FightEvent,
        >::empty());
        assert(encounter_log(c, ch, b, rolls.push(raw)) =~= round_events(c, ch, b, raw));
        assert(bout_after(c, ch, next_bout(c, ch, b, raw), Seq::<u64>::empty()) == next_bout(
            c,
            ch,
            b,
            raw,
        ));
    } else {
        assert(rolls.push(raw).drop_first() =~= rolls.drop_first().push(raw));
        assert(rolls.push(raw)[0] == rolls[0]);
        lemma_encounter_step(c, ch, next_bout(c, ch, b, rolls[0]), rolls.drop_first(), raw);
        assert(encounter_log(c, ch, b, rolls.push(raw)) =~= encounter_log(c, ch, b, rolls)
            + round_events(c, ch, bout_after(c, ch, b, rolls), raw));
    }
}

/// An encounter that starts with both sides standing ends with exactly one
/// faint, and with one side still standing.
pub proof fn lemma_encounter_faints_once(c: Combatant, ch: Combatant, b: Bout, rolls: Seq<u64>)
    requires
        !bout_over(b),
        bout_over(bout_after(c, ch, b, rolls)),
    ensures
        count_faints(encounter_log(c, ch, b, rolls)) == 1,
        bout_after(c, ch, b, rolls).contender_hp > 0 || bout_after(c, ch, b, rolls).challenger_hp
            > 0,
    decreases rolls.len(),
{
    let nb = next_bout(c, ch, b, rolls[0]);
    let ev = round_events(c, ch, b, rolls[0]);
    let rest = encounter_log(c, ch, nb, rolls.drop_first());
    lemma_count_faints_add(ev, rest);
    reveal_with_fuel(count_faints, 4);
    assert(ev.len() == 1 ==> ev.drop_last() =~= Seq::<FightEvent>::empty());
    assert(ev.len() == 3 ==> ev.drop_last().drop_last().drop_last() =~= Seq::<
        FightEvent,
    >::empty());
    if !bout_over(nb) {
        lemma_encounter_faints_once(c, ch, nb, rolls.drop_first());
    } else {
        assert(bout_after(c, ch, nb, rolls.drop_first()) == nb);
    }
}

/// Plays an encounter and gives its log and the state it ended in.
pub(crate) fn run_encounter(
    contender: &Combatant,
    challenger: &Combatant,
    contender_hp: u32,
    challenger_hp: u32,
    dice: &mut Dice,
) -> (r: (FightLog, Bout))
    requires
        encounter_concludes(*contender, *challenger),
    ensures
        r.1 == bout_after(
            *contender,
            *challenger,
            start_bout(*contender, *challenger, contender_hp, challenger_hp),
            drawn_after(old(dice).drawn(), *final(dice)),
        ),
        r.0.log@ == encounter_log(
            *contender,
            *challenger,
            start_bout(*contender, *challenger, contender_hp, challenger_hp),
            drawn_after(old(dice).drawn(), *final(dice)),
        ),
        final(dice).drawn().len() >= old(dice).drawn().len(),
        final(dice).drawn().take(old(dice).drawn().len() as int) == old(dice).drawn(),
        r.0.contender_name == contender.pokemon.name,
        r.0.challenger_name == challenger.pokemon.name,
        bout_over(r.1),
{
    let ghost start = start_bout(*contender, *challenger, contender_hp, challenger_hp);
    let ghost before = dice.drawn();
    let ghost by_contender = hit_loss_spec(*contender, *challenger, 800) >= 1;
    let mut b = Bout {
        contender_hp,
        challenger_hp,
        contender_moves: contender.pokemon.stats.agility > challenger.pokemon.stats.agility,
    };
    let mut log: Vec<FightEvent> = Vec::new();
    proof {
        assert(drawn_after(before, *dice) =~= Seq::<u64>::empty());
    }
    while b.contender_hp > 0 && b.challenger_hp > 0
        invariant
            encounter_concludes(*contender, *challenger),
            by_contender == (hit_loss_spec(*contender, *challenger, 800) >= 1),
            start == start_bout(*contender, *challenger, contender_hp, challenger_hp),
            dice.drawn().len() >= before.len(),
            dice.drawn().take(before.len() as int) == before,
            b == bout_after(*contender, *challenger, start, drawn_after(before, *dice)),
            log@ == encounter_log(*contender, *challenger, start, drawn_after(before, *dice)),
        decreases
            (if by_contender {
                2 * b.challenger_hp + if b.contender_moves {
                    1int
                } else {
                    2int
                }
            } else {
                2 * b.contender_hp + if b.contender_moves {
                    2int
                } else {
                    1int
                }
            }),
    {
        let ghost rolls = drawn_after(before, *dice);
        let ghost b0 = b;
        let raw = dice.draw();
        proof {
            assert(drawn_after(before, *dice) =~= rolls.push(raw));
            assert(dice.drawn().take(before.len() as int) =~= before);
            lemma_encounter_step(*contender, *challenger, start, rolls, raw);
            let roll = roll_of(raw);
            if by_contender {
                lemma_loss_grows_with_roll(*contender, *challenger, roll);
            } else {
                lemma_loss_grows_with_roll(*challenger, *contender, roll);
            }
        }
        b = play_round(contender, challenger, b, raw, &mut log);
    }
    (
        FightLog {
            contender_name: contender.pokemon.name.clone(),
            challenger_name: challenger.pokemon.name.clone(),
            log,
        },
        b,
    )
}

/// Plays an encounter from the given hit points until one side has none
/// left, drawing one raw value from `dice` per round.
pub fn process_fight_with_hp(
    contender: &Combatant,
    challenger: &Combatant,
    contender_hp: u32,
    challenger_hp: u32,
    dice: &mut Dice,
) -> (r: FightLog)
    requires
        encounter_concludes(*contender, *challenger),
    ensures
        final(dice).drawn().len() >= old(dice).drawn().len(),
        final(dice).drawn().take(old(dice).drawn().len() as int) == old(dice).drawn(),
        r.contender_name == contender.pokemon.name,
        r.challenger_name == challenger.pokemon.name,
        r.log@ == encounter_log(
            *contender,
            *challenger,
            start_bout(*contender, *challenger, contender_hp, challenger_hp),
            drawn_after(old(dice).drawn(), *final(dice)),
        ),
        bout_over(
            bout_after(
                *contender,
                *challenger,
                start_bout(*contender, *challenger, contender_hp, challenger_hp),
                drawn_after(old(dice).drawn(), *final(dice)),
            ),
        ),
{
    run_encounter(contender, challenger, contender_hp, challenger_hp, dice).0
}

/// Whether an encounter between the two ends whatever the random values.
pub fn can_conclude(c: &Combatant, ch: &Combatant) -> (r: bool)
    ensures
        r == encounter_concludes(*c, *ch),
{
    hit_loss(c, ch, 800) >= 1 || hit_loss(ch, c, 800) >= 1
}

/// Plays an encounter from both creatures' full hit points.
pub fn process_fight(contender: &Combatant, challenger: &Combatant, dice: &mut Dice) -> (r:
    FightLog)
    requires
        encounter_concludes(*contender, *challenger),
    ensures
        final(dice).drawn().len() >= old(dice).drawn().len(),
        final(dice).drawn().take(old(dice).drawn().len() as int) == old(dice).drawn(),
        r.contender_name == contender.pokemon.name,
        r.challenger_name == challenger.pokemon.name,
        r.log@ == encounter_log(
            *contender,
            *challenger,
            start_bout(
                *contender,
                *challenger,
                contender.pokemon.stats.hp,
                challenger.pokemon.stats.hp,
            ),
            drawn_after(old(dice).drawn(), *final(dice)),
        ),
        bout_over(
            bout_after(
                *contender,
                *challenger,
                start_bout(
                    *contender,
                    *challenger,
                    contender.pokemon.stats.hp,
                    challenger.pokemon.stats.hp,
                ),
                drawn_after(old(dice).drawn(), *final(dice)),
            ),
        ),
{
    process_fight_with_hp(
        contender,
        challenger,
        contender.pokemon.stats.hp,
        challenger.pokemon.stats.hp,
        dice,
    )
}

} // verus!
