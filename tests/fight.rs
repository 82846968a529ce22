use pokesim::database::promise::Promise;
use pokesim::database::DbError;
use pokesim::fight::dice::Dice;
use pokesim::fight::pokemon_fight::{
    can_conclude, effectiveness, hit_loss, process_fight, process_fight_with_hp, type_multiplier,
    Combatant,
};
use pokesim::fight::trainer_fight::{self, TrainerTeam};
use pokesim::fight::{Effectiveness, FightEvent, FightStrategy};
use pokesim::pokemon::ptype::{PokemonType, Relationship};
use pokesim::pokemon::stats::PokemonStats;
use pokesim::pokemon::Pokemon;

fn promise(name: &str) -> Promise<PokemonType> {
    Promise::from_ident_unchecked(name.to_string())
}

/// Water beats Fire, Fire beats Electric, Electric beats Water.
fn triangle() -> (PokemonType, PokemonType, PokemonType) {
    let mut water = PokemonType::new("Water".to_string());
    let mut fire = PokemonType::new("Fire".to_string());
    let mut electric = PokemonType::new("Electric".to_string());
    water
        .link_side_effect(&promise("Fire"), &Relationship::StrongAgainst)
        .unwrap();
    fire.link_side_effect(&promise("Electric"), &Relationship::StrongAgainst)
        .unwrap();
    electric
        .link_side_effect(&promise("Water"), &Relationship::StrongAgainst)
        .unwrap();
    (water, fire, electric)
}

fn type_named(name: &str) -> PokemonType {
    let (water, fire, electric) = triangle();
    match name {
        "Water" => water,
        "Fire" => fire,
        _ => electric,
    }
}

fn creature(name: &str, ty: &str, hp: u32, attack: u32, defense: u32, agility: u32) -> Combatant {
    let pokemon = Pokemon::new(
        name.to_string(),
        promise(ty),
        None,
        PokemonStats { hp, attack, defense, agility },
    );
    Combatant::resolve(pokemon, type_named(ty), None).unwrap()
}

fn pikachu() -> Combatant {
    creature("Pikachu", "Electric", 35, 55, 40, 90)
}

fn squirtle() -> Combatant {
    creature("Squirtle", "Water", 39, 52, 43, 84)
}

fn staryu() -> Combatant {
    creature("Staryu", "Water", 30, 45, 55, 85)
}

fn charmander() -> Combatant {
    creature("Charmander", "Fire", 39, 52, 43, 65)
}

fn vulpix() -> Combatant {
    creature("Vulpix", "Fire", 38, 41, 40, 65)
}

fn hit(e: &FightEvent) -> (String, String, u32, u32, Effectiveness) {
    match e {
        FightEvent::Hit { attacker, defender, damage, hp_left, effectiveness } => {
            (attacker.clone(), defender.clone(), *damage, *hp_left, *effectiveness)
        }
        other => panic!("expected a hit, got {:?}", other),
    }
}

fn fainted(e: &FightEvent) -> String {
    match e {
        FightEvent::Fainted { pokemon } => pokemon.clone(),
        other => panic!("expected a faint, got {:?}", other),
    }
}

fn winner(e: &FightEvent) -> (String, u32) {
    match e {
        FightEvent::PokemonWinner { pokemon, hp_left } => (pokemon.clone(), *hp_left),
        other => panic!("expected a winner, got {:?}", other),
    }
}

fn chosen(e: &FightEvent) -> (String, String) {
    match e {
        FightEvent::ChoosePokemon { trainer, pokemon } => (trainer.clone(), pokemon.clone()),
        other => panic!("expected a choice, got {:?}", other),
    }
}

#[test]
fn triangle_type_multipliers() {
    // Electric is strong against Water: 1.0 + 0.375.
    assert_eq!(type_multiplier(&pikachu(), &squirtle()), 1375);
    // Water is strong against Fire only, and weak against nothing.
    assert_eq!(type_multiplier(&squirtle(), &pikachu()), 1000);
    assert_eq!(type_multiplier(&squirtle(), &charmander()), 1375);
    assert_eq!(type_multiplier(&charmander(), &vulpix()), 1000);
}

#[test]
fn weak_against_lowers_the_multiplier() {
    let mut grass = PokemonType::new("Grass".to_string());
    grass
        .link_side_effect(&promise("Fire"), &Relationship::WeakAgainst)
        .unwrap();
    let pokemon = Pokemon::new(
        "Oddish".to_string(),
        promise("Grass"),
        None,
        PokemonStats { hp: 45, attack: 50, defense: 55, agility: 30 },
    );
    let oddish = Combatant::resolve(pokemon, grass, None).unwrap();
    assert_eq!(type_multiplier(&oddish, &charmander()), 775);
}

#[test]
fn dual_types_reach_the_documented_extremes() {
    let mut strong2 = PokemonType::new("A2".to_string());
    strong2.link_side_effect(&promise("B"), &Relationship::StrongAgainst).unwrap();
    strong2.link_side_effect(&promise("B2"), &Relationship::StrongAgainst).unwrap();
    let mut target = PokemonType::new("B".to_string());
    target.link_side_effect(&promise("A2"), &Relationship::StrongAgainst).unwrap();
    let mut target2 = PokemonType::new("B2".to_string());
    target2.link_side_effect(&promise("A2"), &Relationship::StrongAgainst).unwrap();
    let attacker = Combatant::resolve(
        Pokemon::new(
            "X".to_string(),
            promise("A2"),
            Some(promise("A2")),
            PokemonStats { hp: 1, attack: 1, defense: 1, agility: 1 },
        ),
        strong2,
        Some({
            let mut t = PokemonType::new("A2".to_string());
            t.link_side_effect(&promise("B"), &Relationship::StrongAgainst).unwrap();
            t.link_side_effect(&promise("B2"), &Relationship::StrongAgainst).unwrap();
            t
        }),
    )
    .unwrap();
    let defender = Combatant::resolve(
        Pokemon::new(
            "Y".to_string(),
            promise("B"),
            Some(promise("B2")),
            PokemonStats { hp: 1, attack: 1, defense: 1, agility: 1 },
        ),
        target,
        Some(target2),
    )
    .unwrap();
    let m = type_multiplier(&attacker, &defender);
    assert_eq!(m, 2500);
    assert_eq!(effectiveness(m), Effectiveness::SuperEffective);
}

#[test]
fn effectiveness_thresholds() {
    assert_eq!(effectiveness(1801), Effectiveness::SuperEffective);
    assert_eq!(effectiveness(1800), Effectiveness::Normal);
    assert_eq!(effectiveness(1000), Effectiveness::Normal);
    assert_eq!(effectiveness(600), Effectiveness::Normal);
    assert_eq!(effectiveness(599), Effectiveness::NotVeryEffective);
    assert_eq!(effectiveness(100), Effectiveness::NotVeryEffective);
}

#[test]
fn damage_follows_the_formula() {
    // 55 * 1.375 * 0.8 * (1 - 43/200) = 47.49
    assert_eq!(hit_loss(&pikachu(), &squirtle(), 800), 47);
    // 55 * 1.375 * 1.2 * 0.785 = 71.23
    assert_eq!(hit_loss(&pikachu(), &squirtle(), 1200), 71);
    assert_eq!(hit_loss(&squirtle(), &pikachu(), 1000), 41);
}

#[test]
fn defense_above_two_hundred_takes_nothing() {
    let wall = creature("Shuckle", "Fire", 20, 10, 230, 5);
    // 1 - 230/200 is negative: the loss is held at zero, a hit never heals.
    assert_eq!(hit_loss(&pikachu(), &wall, 1000), 0);
    assert_eq!(hit_loss(&pikachu(), &wall, 1200), 0);
}

#[test]
fn electric_against_water_scenario() {
    let electric = pikachu();
    let water = squirtle();
    assert!(can_conclude(&electric, &water));
    for raw in [0u64, 1, 57, 200, 399, 400, 12345] {
        let mut dice = Dice::scripted(vec![raw]);
        let log = process_fight(&electric, &water, &mut dice);
        assert_eq!(log.contender_name, "Pikachu");
        assert_eq!(log.challenger_name, "Squirtle");
        assert_eq!(log.log.len(), 3);
        let (attacker, defender, damage, hp_left, eff) = hit(&log.log[0]);
        // Electric has the higher agility and attacks first.
        assert_eq!(attacker, "Pikachu");
        assert_eq!(defender, "Squirtle");
        assert!((47..=71).contains(&damage), "damage {}", damage);
        assert_eq!(hp_left, 0);
        assert_eq!(eff, Effectiveness::Normal);
        assert_eq!(fainted(&log.log[1]), "Squirtle");
        assert_eq!(winner(&log.log[2]), ("Pikachu".to_string(), 35));
    }
}

#[test]
fn electric_against_water_with_random_rolls() {
    let mut dice = Dice::random();
    let log = process_fight(&pikachu(), &squirtle(), &mut dice);
    let (_, _, damage, _, _) = hit(&log.log[0]);
    assert!((47..=71).contains(&damage));
}

#[test]
fn encounter_exact_log() {
    let mut dice = Dice::scripted(vec![0, 0, 0]);
    let log = process_fight(&charmander(), &vulpix(), &mut dice);
    assert_eq!(log.log.len(), 5);
    // Equal agility: the creature passed second attacks first.
    assert_eq!(
        hit(&log.log[0]),
        ("Vulpix".to_string(), "Charmander".to_string(), 25, 14, Effectiveness::Normal)
    );
    assert_eq!(
        hit(&log.log[1]),
        ("Charmander".to_string(), "Vulpix".to_string(), 33, 5, Effectiveness::Normal)
    );
    assert_eq!(
        hit(&log.log[2]),
        ("Vulpix".to_string(), "Charmander".to_string(), 25, 0, Effectiveness::Normal)
    );
    assert_eq!(fainted(&log.log[3]), "Charmander");
    assert_eq!(winner(&log.log[4]), ("Vulpix".to_string(), 5));
}

#[test]
fn hp_never_rises_within_an_encounter() {
    let mut dice = Dice::scripted(vec![400, 3, 250, 17, 0, 99]);
    let c = charmander();
    let v = vulpix();
    let log = process_fight(&c, &v, &mut dice);
    let mut hp_charmander = 39u32;
    let mut hp_vulpix = 38u32;
    for e in &log.log {
        if let FightEvent::Hit { defender, hp_left, .. } = e {
            let before = if defender == "Charmander" { &mut hp_charmander } else { &mut hp_vulpix };
            assert!(*hp_left <= *before);
            *before = *hp_left;
        }
    }
}

#[test]
fn carried_hit_points_start_the_encounter() {
    let mut dice = Dice::scripted(vec![0]);
    let log = process_fight_with_hp(&charmander(), &vulpix(), 10, 38, &mut dice);
    // Vulpix moves first and takes 25 off the 10 left.
    assert_eq!(log.log.len(), 3);
    assert_eq!(hit(&log.log[0]).3, 0);
    assert_eq!(winner(&log.log[2]), ("Vulpix".to_string(), 38));
}

#[test]
fn encounter_with_a_fainted_side_has_no_rounds() {
    let mut dice = Dice::scripted(vec![]);
    let log = process_fight_with_hp(&charmander(), &vulpix(), 0, 38, &mut dice);
    assert!(log.log.is_empty());
}

#[test]
fn strategy_names_parse() {
    assert_eq!(FightStrategy::parse("StrongestAtk"), Ok(FightStrategy::StrongestAtk));
    assert_eq!(FightStrategy::parse("StrongestDef"), Ok(FightStrategy::StrongestDef));
    assert_eq!(FightStrategy::parse("StrongestSum"), Ok(FightStrategy::StrongestSum));
    assert_eq!(FightStrategy::parse("StrongestType"), Ok(FightStrategy::StrongestType));
    assert_eq!(FightStrategy::parse("Random"), Ok(FightStrategy::Random));
    assert_eq!(FightStrategy::parse("random"), Err(DbError::InvalidStrategyName));
    assert_eq!(FightStrategy::parse(""), Err(DbError::InvalidStrategyName));
    assert_eq!("StrongestSum".parse::<FightStrategy>(), Ok(FightStrategy::StrongestSum));
}

#[test]
fn strongest_strategies_pick_the_last_best() {
    let team = vec![pikachu(), squirtle(), staryu(), charmander()];
    let mut dice = Dice::scripted(vec![]);
    // Attack 55, 52, 45, 52.
    assert_eq!(FightStrategy::StrongestAtk.choose_pokemon(&team, None, &mut dice), Some(0));
    // Defense 40, 43, 55, 43.
    assert_eq!(FightStrategy::StrongestDef.choose_pokemon(&team, None, &mut dice), Some(2));
    // Sums 95, 95, 100, 95.
    assert_eq!(FightStrategy::StrongestSum.choose_pokemon(&team, None, &mut dice), Some(2));
    let ties = vec![squirtle(), charmander()];
    assert_eq!(FightStrategy::StrongestAtk.choose_pokemon(&ties, None, &mut dice), Some(1));
    let empty: Vec<Combatant> = vec![];
    assert_eq!(FightStrategy::StrongestAtk.choose_pokemon(&empty, None, &mut dice), None);
    assert_eq!(FightStrategy::Random.choose_pokemon(&empty, None, &mut dice), None);
}

#[test]
fn type_strategy_seeks_an_advantage() {
    let team = vec![charmander(), staryu(), pikachu()];
    let mut dice = Dice::scripted(vec![]);
    let enemy = squirtle();
    assert_eq!(
        FightStrategy::StrongestType.choose_pokemon(&team, Some(&enemy), &mut dice),
        Some(2)
    );
    // Fire is strong against Electric.
    let target = pikachu();
    assert_eq!(
        FightStrategy::StrongestType.choose_pokemon(&team, Some(&target), &mut dice),
        Some(0)
    );
    // No advantage over Fire in a Fire-only team: strongest sum.
    let fires = vec![vulpix(), charmander()];
    assert_eq!(
        FightStrategy::StrongestType.choose_pokemon(&fires, Some(&vulpix()), &mut dice),
        Some(1)
    );
    // Unknown enemy: strongest sum (95, 100, 95).
    assert_eq!(FightStrategy::StrongestType.choose_pokemon(&team, None, &mut dice), Some(1));
}

#[test]
fn random_strategy_uses_the_dice() {
    let team = vec![pikachu(), squirtle(), staryu()];
    let mut dice = Dice::scripted(vec![7, 3]);
    assert_eq!(FightStrategy::Random.choose_pokemon(&team, None, &mut dice), Some(1));
    assert_eq!(FightStrategy::Random.choose_pokemon(&team, None, &mut dice), Some(0));
}

#[test]
fn trainer_match_exact_log() {
    let ash = TrainerTeam { trainer: "Ash".to_string(), team: vec![pikachu()] };
    let misty = TrainerTeam { trainer: "Misty".to_string(), team: vec![squirtle(), staryu()] };
    let mut dice = Dice::scripted(vec![0, 0]);
    let log = trainer_fight::process_fight(
        ash,
        misty,
        FightStrategy::StrongestAtk,
        FightStrategy::StrongestAtk,
        &mut dice,
    )
    .unwrap();
    assert_eq!(log.challenger_name, "Ash");
    assert_eq!(log.contender_name, "Misty");
    let l = &log.log;
    assert_eq!(l.len(), 10);
    assert_eq!(chosen(&l[0]), ("Misty".to_string(), "Squirtle".to_string()));
    assert_eq!(chosen(&l[1]), ("Ash".to_string(), "Pikachu".to_string()));
    assert_eq!(hit(&l[2]).2, 47);
    assert_eq!(fainted(&l[3]), "Squirtle");
    assert_eq!(winner(&l[4]), ("Pikachu".to_string(), 35));
    assert_eq!(chosen(&l[5]), ("Misty".to_string(), "Staryu".to_string()));
    assert_eq!(hit(&l[6]), ("Pikachu".to_string(), "Staryu".to_string(), 43, 0, Effectiveness::Normal));
    assert_eq!(fainted(&l[7]), "Staryu");
    assert_eq!(winner(&l[8]), ("Pikachu".to_string(), 35));
    match &l[9] {
        FightEvent::Winner { trainer, pokemon_left } => {
            assert_eq!(trainer, "Ash");
            assert_eq!(pokemon_left, &vec!["Pikachu".to_string()]);
        }
        other => panic!("expected the match winner, got {:?}", other),
    }
}

#[test]
fn team_shrinks_by_one_per_faint() {
    let a = TrainerTeam { trainer: "Brock".to_string(), team: vec![charmander(), vulpix()] };
    let b = TrainerTeam {
        trainer: "Erika".to_string(),
        team: vec![squirtle(), staryu(), pikachu()],
    };
    let mut dice = Dice::scripted(vec![5, 100, 250, 399, 0, 77, 300, 12, 150, 42]);
    let log = trainer_fight::process_fight(
        a,
        b,
        FightStrategy::StrongestSum,
        FightStrategy::StrongestType,
        &mut dice,
    )
    .unwrap();
    let faints = log.log.iter().filter(|e| matches!(e, FightEvent::Fainted { .. })).count();
    match log.log.last().unwrap() {
        FightEvent::Winner { pokemon_left, .. } => {
            assert!(!pokemon_left.is_empty());
            assert_eq!(faints + pokemon_left.len(), 5);
            assert!(faints <= 4);
        }
        other => panic!("expected the match winner, got {:?}", other),
    }
}

#[test]
fn empty_team_loses_at_once() {
    let a = TrainerTeam { trainer: "Gary".to_string(), team: vec![] };
    let b = TrainerTeam { trainer: "Ash".to_string(), team: vec![pikachu()] };
    let mut dice = Dice::random();
    let log = trainer_fight::process_fight(
        a,
        b,
        FightStrategy::Random,
        FightStrategy::Random,
        &mut dice,
    )
    .unwrap();
    assert_eq!(log.log.len(), 1);
    match &log.log[0] {
        FightEvent::Winner { trainer, pokemon_left } => {
            assert_eq!(trainer, "Ash");
            assert_eq!(pokemon_left.len(), 1);
        }
        other => panic!("expected the match winner, got {:?}", other),
    }
    let none_a = TrainerTeam { trainer: "A".to_string(), team: vec![] };
    let none_b = TrainerTeam { trainer: "B".to_string(), team: vec![] };
    let r = trainer_fight::process_fight(
        none_a,
        none_b,
        FightStrategy::Random,
        FightStrategy::Random,
        &mut dice,
    );
    assert!(matches!(r, Err(DbError::OrchestrationInvariant(_))));
}

#[test]
fn fainted_creature_in_a_team_breaks_the_match() {
    let a = TrainerTeam {
        trainer: "A".to_string(),
        team: vec![creature("Ghost", "Fire", 0, 10, 10, 10)],
    };
    let b = TrainerTeam { trainer: "B".to_string(), team: vec![pikachu()] };
    let mut dice = Dice::random();
    let r = trainer_fight::process_fight(
        a,
        b,
        FightStrategy::StrongestAtk,
        FightStrategy::StrongestAtk,
        &mut dice,
    );
    assert!(matches!(r, Err(DbError::OrchestrationInvariant(_))));
}

#[test]
fn combatant_refuses_mismatched_types() {
    let pokemon = Pokemon::new(
        "Pikachu".to_string(),
        promise("Electric"),
        None,
        PokemonStats { hp: 35, attack: 55, defense: 40, agility: 90 },
    );
    let r = Combatant::resolve(pokemon, type_named("Water"), None);
    assert!(matches!(r, Err(DbError::Malformed(_))));
    let pokemon = Pokemon::new(
        "Pikachu".to_string(),
        promise("Electric"),
        Some(promise("Fire")),
        PokemonStats { hp: 35, attack: 55, defense: 40, agility: 90 },
    );
    let r = Combatant::resolve(pokemon, type_named("Electric"), None);
    assert!(matches!(r, Err(DbError::Malformed(_))));
}

#[test]
fn stalemate_is_detected() {
    let a = creature("A", "Fire", 10, 0, 10, 10);
    let b = creature("B", "Fire", 10, 0, 10, 10);
    assert!(!can_conclude(&a, &b));
    let ta = TrainerTeam { trainer: "A".to_string(), team: vec![a] };
    let tb = TrainerTeam { trainer: "B".to_string(), team: vec![b] };
    let r = trainer_fight::process_fight(
        ta,
        tb,
        FightStrategy::StrongestAtk,
        FightStrategy::StrongestAtk,
        &mut Dice::random(),
    );
    assert!(matches!(r, Err(DbError::OrchestrationInvariant(_))));
}

#[test]
fn stalemate_pairing_that_never_meets_is_allowed() {
    // Neither the harmless creature nor Squirtle could hurt the other, but
    // the harmless one has the lowest attack and is never sent in.
    let harmless = creature("Harmless", "Fire", 10, 0, 200, 10);
    assert!(!can_conclude(&harmless, &squirtle()));
    let a = TrainerTeam { trainer: "A".to_string(), team: vec![pikachu(), harmless] };
    let b = TrainerTeam { trainer: "B".to_string(), team: vec![squirtle()] };
    let log = trainer_fight::process_fight(
        a,
        b,
        FightStrategy::StrongestAtk,
        FightStrategy::StrongestAtk,
        &mut Dice::scripted(vec![0]),
    )
    .unwrap();
    match log.log.last().unwrap() {
        FightEvent::Winner { trainer, pokemon_left } => {
            assert_eq!(trainer, "A");
            assert_eq!(pokemon_left, &vec!["Pikachu".to_string(), "Harmless".to_string()]);
        }
        other => panic!("expected the match winner, got {:?}", other),
    }
}

#[test]
fn type_strategy_counts_a_primary_advantage_against_a_dual_type() {
    // Enemy: Water with a Fire secondary; Electric is strong against Water.
    let enemy = Combatant::resolve(
        Pokemon::new(
            "Steamy".to_string(),
            promise("Water"),
            Some(promise("Fire")),
            PokemonStats { hp: 50, attack: 50, defense: 50, agility: 50 },
        ),
        type_named("Water"),
        Some(type_named("Fire")),
    )
    .unwrap();
    let weak_but_advantaged = creature("Sparky", "Electric", 20, 10, 10, 10);
    let strong_plain = creature("Brute", "Fire", 90, 90, 90, 10);
    let team = vec![strong_plain, weak_but_advantaged];
    let mut dice = Dice::scripted(vec![]);
    assert_eq!(
        FightStrategy::StrongestType.choose_pokemon(&team, Some(&enemy), &mut dice),
        Some(1)
    );
}
