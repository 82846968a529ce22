use pokesim::database::promise::{promise_from_node, MaybePromise, Promise};
use pokesim::database::props::{decimal, NodeProps, PropValue};
use pokesim::database::query::{
    delete_query, get_all_query, get_first_query, get_linked_by_id_query, get_linked_to_query,
    is_linked_query, link_query, put_query, unlink_query, update_query,
};
use pokesim::database::{
    check_name, db_identifier, is_numeric_identifier, sanitize, same_text, strip_backslashes, DbError,
    DbRepr, NameError,
};
use pokesim::pokemon::ptype::{self, PokemonType};
use pokesim::pokemon::stats::PokemonStats;
use pokesim::pokemon::{self, Pokemon};
use pokesim::trainer::{self, Trainer};

fn type_ref(name: &str) -> Promise<PokemonType> {
    Promise::from_ident_unchecked(name.to_string())
}

fn pikachu() -> Pokemon {
    Pokemon::new(
        "Pikachu".to_string(),
        type_ref("Electric"),
        None,
        PokemonStats { hp: 35, attack: 55, defense: 40, agility: 90 },
    )
}

#[test]
fn sanitize_escapes_quotes_and_drops_backslashes() {
    assert_eq!(sanitize("plain"), "plain");
    assert_eq!(sanitize(""), "");
    assert_eq!(sanitize("O'Brien"), "O\\'Brien");
    assert_eq!(sanitize("say \"hi\""), "say \\\"hi\\\"");
    assert_eq!(sanitize("a\\b"), "ab");
    assert_eq!(sanitize("\\'"), "\\'");
    assert_eq!(sanitize("Flabébé"), "Flabébé");
}

#[test]
fn numeric_identifiers() {
    assert!(is_numeric_identifier("1"));
    assert!(is_numeric_identifier("0042"));
    assert!(is_numeric_identifier("+7"));
    assert!(is_numeric_identifier("18446744073709551615"));
    assert!(!is_numeric_identifier("18446744073709551616"));
    assert!(!is_numeric_identifier(""));
    assert!(!is_numeric_identifier("+"));
    assert!(!is_numeric_identifier("-1"));
    assert!(!is_numeric_identifier("12a"));
    assert!(!is_numeric_identifier("Pikachu"));
}

#[test]
fn identifiers_in_query_text() {
    assert_eq!(db_identifier("1"), "1");
    assert_eq!(db_identifier("Pikachu"), "'Pikachu'");
    assert_eq!(db_identifier("Farfetch'd"), "'Farfetch\\'d'");
    assert_eq!(type_ref("Water").ident_db(), "'Water'");
    assert_eq!(type_ref("Water").ident(), "Water");
    let p: Promise<Trainer> = Promise::from_ident_unchecked("12".to_string());
    assert_eq!(p.ident_db(), "12");
}

#[test]
fn same_text_compares_characters() {
    assert!(same_text("abc", "abc"));
    assert!(!same_text("abc", "abd"));
    assert!(!same_text("abc", "ab"));
    assert!(same_text("", ""));
}

#[test]
fn test_db_repr() {
    assert_eq!(Pokemon::node_kind(), "Pokemon");
    assert_eq!(PokemonType::node_kind(), "PokemonType");
    assert_eq!(Trainer::node_kind(), "Trainer");
    assert_eq!(Trainer::identifier_field(), "name");
    assert_eq!(pikachu().db_identifier(), "'Pikachu'");
}

#[test]
fn maybe_promise_identifiers() {
    let p: MaybePromise<PokemonType> = MaybePromise::from_ident_unchecked("Fire".to_string());
    assert_eq!(p.ident(), "Fire");
    assert_eq!(p.ident_db(), "'Fire'");
    let c = MaybePromise::from_concrete(PokemonType::new("Water".to_string()));
    assert_eq!(c.ident(), "Water");
    assert_eq!(c.ident_db(), "'Water'");
    assert!(c.into_concrete().is_ok());
    let q = MaybePromise::from_promise(type_ref("Grass"));
    assert!(q.into_concrete().is_err());
}

#[test]
fn read_queries() {
    assert_eq!(
        get_first_query::<Pokemon>("Pikachu"),
        "MATCH (n:Pokemon) WHERE n.name = 'Pikachu' RETURN n;"
    );
    assert_eq!(
        get_first_query::<Trainer>("7"),
        "MATCH (n:Trainer) WHERE n.name = 7 RETURN n;"
    );
    assert_eq!(get_all_query::<PokemonType>(), "MATCH (n:PokemonType) RETURN n;");
}

#[test]
fn write_queries() {
    let p = pikachu();
    assert_eq!(
        p.put_args(),
        "{ name: 'Pikachu', hp: 35, attack: 55, defense: 40, agility: 90 }"
    );
    assert_eq!(
        put_query::<Pokemon>(&p.put_args()),
        "MERGE (n:Pokemon { name: 'Pikachu', hp: 35, attack: 55, defense: 40, agility: 90 })"
    );
    assert_eq!(PokemonType::new("Water".to_string()).put_args(), "{ name: 'Water' }");
    assert_eq!(Trainer::new("O'Neil".to_string()).put_args(), "{ name: 'O\\'Neil' }");
    assert_eq!(
        update_query::<PokemonType>("Water", &PokemonType::new("Aqua".to_string()).update_args()),
        "MATCH (n:PokemonType) WHERE n.name = 'Water' SET n.name = 'Aqua'"
    );
    assert_eq!(
        p.update_args(),
        "n.name = 'Pikachu', n.hp = 35, n.attack = 55, n.defense = 40, n.agility = 90"
    );
    assert_eq!(
        delete_query::<Trainer>("Ash"),
        "MATCH (n:Trainer) WHERE n.name = 'Ash' DETACH DELETE n;"
    );
}

#[test]
fn edge_queries() {
    let p = pikachu();
    let electric = type_ref("Electric");
    assert_eq!(
        link_query(&p, &electric, &pokemon::Relationship::PrimaryType),
        "MATCH (a:Pokemon), (b:PokemonType) WHERE a.name = 'Pikachu' AND b.name = 'Electric' \
         MERGE (a)-[:PrimaryType]->(b);"
    );
    assert_eq!(
        unlink_query(&p, &electric, &pokemon::Relationship::SecondaryType),
        "MATCH (a:Pokemon), (b:PokemonType) WHERE a.name = 'Pikachu' AND b.name = 'Electric' \
         MATCH (a)-[r:SecondaryType]->(b) DELETE r;"
    );
    assert_eq!(
        is_linked_query(&p, &electric, "PrimaryType"),
        "MATCH (a:Pokemon), (b:PokemonType) WHERE a.name = 'Pikachu' AND b.name = 'Electric' \
         MATCH (a)-[:PrimaryType]->(b) RETURN b LIMIT 1;"
    );
    assert_eq!(
        get_linked_by_id_query::<PokemonType, PokemonType, _>(&ptype::Relationship::StrongAgainst, "Water"),
        "MATCH (a:PokemonType { name : 'Water' })-[:StrongAgainst]->(b:PokemonType) RETURN b;"
    );
    let ash = Trainer::new("Ash".to_string());
    assert_eq!(
        get_linked_to_query::<Trainer, Pokemon, _>(&ash, &trainer::Relationship::Owns),
        "MATCH (a:Trainer { name : 'Ash' })-[:Owns]->(b:Pokemon) RETURN b;"
    );
}

#[test]
fn decimal_text() {
    assert_eq!(decimal(0), "0");
    assert_eq!(decimal(7), "7");
    assert_eq!(decimal(1200), "1200");
    assert_eq!(decimal(u64::MAX), "18446744073709551615");
}

#[test]
fn negative_property_text() {
    let node = NodeProps { props: vec![("delta".to_string(), PropValue::Int(-42))] };
    assert_eq!(node.to_text(), "{ delta: -42 }");
    let empty = NodeProps { props: vec![] };
    assert_eq!(empty.to_text(), "{  }");
}

#[test]
fn pokemon_round_trip() {
    let p = pikachu();
    let node = p.put_props();
    let back = Pokemon::from_db_node(&node, vec![type_ref("Electric")], vec![]).unwrap();
    assert_eq!(back.name, "Pikachu");
    assert_eq!(back.stats, p.stats);
    assert_eq!(back.primary_type().ident(), "Electric");
    assert!(back.secondary_type().is_none());
    let dual =
        Pokemon::from_db_node(&node, vec![type_ref("Electric")], vec![type_ref("Steel")]).unwrap();
    assert_eq!(dual.secondary_type().unwrap().ident(), "Steel");
}

#[test]
fn pokemon_without_primary_type_is_malformed() {
    let node = pikachu().put_props();
    let r = Pokemon::from_db_node(&node, vec![], vec![]);
    assert!(matches!(r, Err(DbError::Malformed(_))));
}

#[test]
fn pokemon_with_bad_fields_is_malformed() {
    let missing = NodeProps {
        props: vec![("name".to_string(), PropValue::Text("Mew".to_string()))],
    };
    assert!(matches!(
        Pokemon::from_db_node(&missing, vec![type_ref("Psychic")], vec![]),
        Err(DbError::Malformed(_))
    ));
    let negative = NodeProps {
        props: vec![
            ("name".to_string(), PropValue::Text("Mew".to_string())),
            ("hp".to_string(), PropValue::Int(-1)),
            ("attack".to_string(), PropValue::Int(1)),
            ("defense".to_string(), PropValue::Int(1)),
            ("agility".to_string(), PropValue::Int(1)),
        ],
    };
    assert!(matches!(
        Pokemon::from_db_node(&negative, vec![type_ref("Psychic")], vec![]),
        Err(DbError::Malformed(_))
    ));
    let wrong_kind = NodeProps { props: vec![("name".to_string(), PropValue::Int(3))] };
    assert!(matches!(node_name(&wrong_kind), Err(DbError::Malformed(_))));
}

fn node_name(node: &NodeProps) -> Result<String, DbError> {
    node.get_text("name")
}

#[test]
fn first_property_of_a_name_wins() {
    let node = NodeProps {
        props: vec![
            ("hp".to_string(), PropValue::Int(5)),
            ("hp".to_string(), PropValue::Int(9)),
        ],
    };
    assert_eq!(node.get_u32("hp"), Ok(5));
    assert!(node.get_u32("attack").is_err());
}

#[test]
fn type_and_trainer_round_trip() {
    let node = PokemonType::new("Water".to_string()).put_props();
    let t = PokemonType::from_db_node(&node, vec![type_ref("Fire")], vec![type_ref("Grass")]).unwrap();
    assert_eq!(t.name, "Water");
    let fire = PokemonType::new("Fire".to_string());
    let grass = PokemonType::new("Grass".to_string());
    assert!(t.is_strong_against(&fire));
    assert!(!t.is_weak_against(&fire));
    assert!(t.is_weak_against(&grass));
    let node = Trainer::new("Ash".to_string()).put_props();
    let back = Trainer::from_db_node(&node, vec![Promise::from_ident_unchecked("Pikachu".to_string())]).unwrap();
    assert_eq!(back.name, "Ash");
    assert_eq!(back.team.len(), 1);
}

#[test]
fn linking_twice_keeps_one_edge() {
    let mut water = PokemonType::new("Water".to_string());
    let fire = PokemonType::new("Fire".to_string());
    water.link_side_effect(&type_ref("Fire"), &ptype::Relationship::StrongAgainst).unwrap();
    water.link_side_effect(&type_ref("Fire"), &ptype::Relationship::StrongAgainst).unwrap();
    assert_eq!(water.strong_against.len(), 1);
    assert!(water.is_strong_against(&fire));
    assert!(!water.is_weak_against(&fire));
    water.unlink_side_effect(&type_ref("Fire"), &ptype::Relationship::StrongAgainst).unwrap();
    assert!(!water.is_strong_against(&fire));
    assert!(water.unlink_side_effect(&type_ref("Fire"), &ptype::Relationship::StrongAgainst).is_ok());
    assert!(water.strong_against.is_empty());
}

#[test]
fn trainer_team_links() {
    let mut ash = Trainer::new("Ash".to_string());
    let pika: Promise<Pokemon> = Promise::from_ident_unchecked("Pikachu".to_string());
    let bulba: Promise<Pokemon> = Promise::from_ident_unchecked("Bulbasaur".to_string());
    ash.link_side_effect(&pika, &trainer::Relationship::Owns).unwrap();
    ash.link_side_effect(&bulba, &trainer::Relationship::Owns).unwrap();
    ash.link_side_effect(&pika, &trainer::Relationship::Owns).unwrap();
    assert_eq!(ash.team.len(), 2);
    assert!(ash.owns("Pikachu"));
    ash.unlink_side_effect(&pika, &trainer::Relationship::Owns).unwrap();
    assert_eq!(ash.team.len(), 1);
    assert_eq!(ash.team[0].ident(), "Bulbasaur");
    assert!(ash.unlink_side_effect(&pika, &trainer::Relationship::Owns).is_ok());
    assert_eq!(ash.team.len(), 1);
}

#[test]
fn pokemon_type_links() {
    let mut p = pikachu();
    p.link_side_effect(&type_ref("Steel"), &pokemon::Relationship::SecondaryType).unwrap();
    assert_eq!(p.secondary_type().unwrap().ident(), "Steel");
    p.link_side_effect(&type_ref("Fairy"), &pokemon::Relationship::PrimaryType).unwrap();
    assert_eq!(p.primary_type().ident(), "Fairy");
    p.unlink_side_effect(&type_ref("Steel"), &pokemon::Relationship::SecondaryType).unwrap();
    assert!(p.secondary_type().is_none());
    let r = p.unlink_side_effect(&type_ref("Fairy"), &pokemon::Relationship::PrimaryType);
    assert!(matches!(r, Err(DbError::Malformed(_))));
    assert_eq!(p.primary_type().ident(), "Fairy");
}

#[test]
fn test_create_pokemon() {
    let mut water = PokemonType::new("Water".to_string());
    let mut electric = PokemonType::new("Electric".to_string());
    let mut fire = PokemonType::new("Fire".to_string());
    let water_promise = type_ref("Water");
    let electric_promise = type_ref("Electric");
    let fire_promise = type_ref("Fire");
    water.link_side_effect(&electric_promise, &ptype::Relationship::StrongAgainst).unwrap();
    water.link_side_effect(&fire_promise, &ptype::Relationship::WeakAgainst).unwrap();
    electric.link_side_effect(&water_promise, &ptype::Relationship::WeakAgainst).unwrap();
    electric.link_side_effect(&fire_promise, &ptype::Relationship::StrongAgainst).unwrap();
    fire.link_side_effect(&water_promise, &ptype::Relationship::StrongAgainst).unwrap();
    fire.link_side_effect(&electric_promise, &ptype::Relationship::WeakAgainst).unwrap();
    let pikachu = Pokemon::new(
        "Pikachu".to_string(),
        electric_promise,
        None,
        PokemonStats { hp: 35, attack: 55, defense: 40, agility: 90 },
    );
    assert_eq!(pikachu.primary_type().ident(), "Electric");
    assert!(electric.is_strong_against(&fire));
    assert!(electric.is_weak_against(&water));
    assert!(water.is_strong_against(&electric));
    assert!(fire.is_weak_against(&electric));
}

#[test]
fn store_plan_for_a_new_pokemon() {
    let mut p = pikachu();
    let q = p.put_with_relationships();
    assert_eq!(q.len(), 2);
    assert_eq!(
        q[0],
        "MERGE (n:Pokemon { name: 'Pikachu', hp: 35, attack: 55, defense: 40, agility: 90 })"
    );
    assert_eq!(
        q[1],
        "MATCH (a:Pokemon), (b:PokemonType) WHERE a.name = 'Pikachu' AND b.name = 'Electric' \
         MERGE (a)-[:PrimaryType]->(b);"
    );
    let q = p.set_secondary_type(Some(type_ref("Steel")));
    assert_eq!(q.len(), 1);
    assert_eq!(
        q[0],
        "MATCH (a:Pokemon), (b:PokemonType) WHERE a.name = 'Pikachu' AND b.name = 'Steel' \
         MERGE (a)-[:SecondaryType]->(b);"
    );
    assert_eq!(p.put_with_relationships().len(), 3);
    let q = p.set_secondary_type(None);
    assert_eq!(q.len(), 1);
    assert_eq!(
        q[0],
        "MATCH (a:Pokemon), (b:PokemonType) WHERE a.name = 'Pikachu' AND b.name = 'Steel' \
         MATCH (a)-[r:SecondaryType]->(b) DELETE r;"
    );
    assert!(p.secondary_type().is_none());
    assert!(p.set_secondary_type(None).is_empty());
}

#[test]
fn promise_from_a_node() {
    let node = pikachu().put_props();
    let p: Promise<Pokemon> = promise_from_node(&node).unwrap();
    assert_eq!(p.ident(), "Pikachu");
    let bare = NodeProps { props: vec![] };
    assert!(matches!(promise_from_node::<Pokemon>(&bare), Err(DbError::Malformed(_))));
}

#[test]
fn names_are_checked() {
    assert_eq!(check_name(""), Err(NameError::Empty));
    assert_eq!(check_name("Ash"), Ok(()));
    assert_eq!(check_name(&"x".repeat(30)), Ok(()));
    assert_eq!(check_name(&"x".repeat(31)), Err(NameError::TooLong));
    assert_eq!(strip_backslashes("Mr\\. Mime"), "Mr. Mime");
    assert_eq!(strip_backslashes("plain"), "plain");
}
