//! Creatures: a name, base stats, and references to their types.

pub mod ptype;
pub mod stats;

use vstd::prelude::*;

use crate::database::promise::Promise;
use crate::database::props::{
    assignments_text, find_first, lemma_put_then_get, merged, props_text, text_prop, u32_prop,
    NodeProps, NodeView, PropValue, PropView,
};
use crate::database::query::{link_pair_text, link_query, put_query, put_text, unlink_query};
use crate::database::{AsDbString, DbError, DbRepr};
use ptype::PokemonType;
use stats::PokemonStats;

verus! {

/// A creature: its name, its types as references, and its base stats.
#[derive(Debug)]
pub struct Pokemon {
    /// The name, which identifies the creature.
    pub name: String,
    /// The mandatory primary type.
    pub primary_type: Promise<PokemonType>,
    /// The optional secondary type.
    pub secondary_type: Option<Promise<PokemonType>>,
    /// The base stats.
    pub stats: PokemonStats,
}

/// The identifier a type reference names, if there is one.
pub open spec fn opt_ident(t: Option<Promise<PokemonType>>) -> Option<Seq<char>> {
    match t {
        Some(p) => Some(p.ident_spec()),
        None => None,
    }
}

/// The scalar properties a creature's node holds.
pub open spec fn pokemon_props(name: Seq<char>, stats: PokemonStats) -> Seq<(Seq<char>, PropView)> {
    seq![
        ("name"@, PropView::TextV(name)),
        ("hp"@, PropView::IntV(stats.hp as int)),
        ("attack"@, PropView::IntV(stats.attack as int)),
        ("defense"@, PropView::IntV(stats.defense as int)),
        ("agility"@, PropView::IntV(stats.agility as int)),
    ]
}

/// The name and stats that a node's properties give, if they are all there.
pub open spec fn pokemon_fields(props: Seq<(Seq<char>, PropView)>) -> Option<(Seq<char>, PokemonStats)> {
    match (
        text_prop(props, "name"@),
        u32_prop(props, "hp"@),
        u32_prop(props, "attack"@),
        u32_prop(props, "defense"@),
        u32_prop(props, "agility"@),
    ) {
        (Some(name), Some(hp), Some(attack), Some(defense), Some(agility)) => Some(
            (name, PokemonStats { hp, attack, defense, agility }),
        ),
        _ => None,
    }
}

/// A creature read back from the properties its put wrote has the same
/// name and stats.
pub proof fn lemma_pokemon_round_trip(name: Seq<char>, stats: PokemonStats)
    ensures
        pokemon_fields(pokemon_props(name, stats)) == Some((name, stats)),
{
    reveal_strlit("name");
    reveal_strlit("hp");
    reveal_strlit("attack");
    reveal_strlit("defense");
    reveal_strlit("agility");
    let p = pokemon_props(name, stats);
    reveal_with_fuel(crate::database::props::lookup, 6);
    assert(p.drop_first()[0].0 == "hp"@);
    assert(p.drop_first().drop_first()[0].0 == "attack"@);
    assert(p.drop_first().drop_first().drop_first()[0].0 == "defense"@);
    assert(p.drop_first().drop_first().drop_first().drop_first()[0].0 == "agility"@);
    assert("name"@ != "hp"@);
    assert("name"@ != "attack"@ && "hp"@ != "attack"@);
    assert("name"@ != "defense"@ && "hp"@ != "defense"@ && "attack"@ != "defense"@);
    assert("defense"@[0] != "agility"@[0]);
    assert("name"@ != "agility"@ && "hp"@ != "agility"@ && "attack"@ != "agility"@
        && "defense"@ != "agility"@);
}

/// A creature put into a store that held no creature of its name is read
/// back by its name with the same name and stats.
pub proof fn lemma_pokemon_put_then_get(store: Seq<NodeView>, name: Seq<char>, stats: PokemonStats)
    requires
        find_first(store, "Pokemon"@, "name"@, name) is None,
    ensures
        find_first(merged(store, ("Pokemon"@, pokemon_props(name, stats))), "Pokemon"@, "name"@, name)
            matches Some(m) && pokemon_fields(m.1) == Some((name, stats)),
{
    lemma_pokemon_round_trip(name, stats);
    lemma_put_then_get(store, ("Pokemon"@, pokemon_props(name, stats)), "name"@, name);
}

/// The two edge labels from a creature to its types.
#[derive(Clone, Copy, Debug, PartialEq, Eq, Structural)]
pub enum Relationship {
    /// The edge to the primary type.
    PrimaryType,
    /// The edge to the secondary type.
    SecondaryType,
}

impl AsDbString for Relationship {
    open spec fn db_string_spec(&self) -> Seq<char> {
        match self {
            Relationship::PrimaryType => "PrimaryType"@,
            Relationship::SecondaryType => "SecondaryType"@,
        }
    }

    fn as_db_string(&self) -> (r: &'static str) {
        match self {
            Relationship::PrimaryType => "PrimaryType",
            Relationship::SecondaryType => "SecondaryType",
        }
    }
}

impl DbRepr for Pokemon {
    open spec fn node_kind_spec() -> Seq<char> {
        "Pokemon"@
    }

    open spec fn identifier_field_spec() -> Seq<char> {
        "name"@
    }

    open spec fn raw_identifier_spec(&self) -> Seq<char> {
        self.name@
    }

    fn node_kind() -> (r: &'static str) {
        "Pokemon"
    }

    fn identifier_field() -> (r: &'static str) {
        "name"
    }

    fn raw_identifier(&self) -> (r: &str) {
        self.name.as_str()
    }
}

impl Pokemon {
    /// A creature with the given name, types and stats.
    pub fn new(
        name: String,
        primary_type: Promise<PokemonType>,
        secondary_type: Option<Promise<PokemonType>>,
        stats: PokemonStats,
    ) -> (r: Self)
        ensures
            r == (Pokemon { name, primary_type, secondary_type, stats }),
    {
        Pokemon { name, primary_type, secondary_type, stats }
    }

    /// The scalar properties this creature's node holds.
    pub fn put_props(&self) -> (r: NodeProps)
        ensures
            r.view() == pokemon_props(self.name@, self.stats),
    {
        let mut props: Vec<(String, PropValue)> = Vec::new();
        props.push((String::from_str("name"), PropValue::Text(self.name.clone())));
        props.push((String::from_str("hp"), PropValue::Int(self.stats.hp as i64)));
        props.push((String::from_str("attack"), PropValue::Int(self.stats.attack as i64)));
        props.push((String::from_str("defense"), PropValue::Int(self.stats.defense as i64)));
        props.push((String::from_str("agility"), PropValue::Int(self.stats.agility as i64)));
        let r = NodeProps { props };
        assert(r.view() =~= pokemon_props(self.name@, self.stats));
        r
    }

    /// The properties as a map literal, for a put. Types are not part of it:
    /// they are edges.
    pub fn put_args(&self) -> (r: String)
        ensures
            r@ == props_text(pokemon_props(self.name@, self.stats)),
    {
        self.put_props().to_text()
    }

    /// The properties as assignments, for an update.
    pub fn update_args(&self) -> (r: String)
        ensures
            r@ == assignments_text(pokemon_props(self.name@, self.stats)),
    {
        self.put_props().to_assignments()
    }

    /// A creature from its node's properties and the targets of its type
    /// edges; refused when a property is missing or has the wrong kind, or
    /// when there is no primary type.
    pub fn from_db_node(
        node: &NodeProps,
        primary_types: Vec<Promise<PokemonType>>,
        secondary_types: Vec<Promise<PokemonType>>,
    ) -> (r: Result<Pokemon, DbError>)
        ensures
            (r is Ok) == (pokemon_fields(node.view()) is Some && primary_types@.len() > 0),
            r is Err ==> r matches Err(DbError::Malformed(_)),
            r matches Ok(p) ==> {
                &&& pokemon_fields(node.view()) == Some((p.name@, p.stats))
                &&& p.primary_type == primary_types@[0]
                &&& p.secondary_type == if secondary_types@.len() > 0 {
                    Some(secondary_types@[0])
                } else {
                    None
                }
            },
    {
        let mut primary_types = primary_types;
        let mut secondary_types = secondary_types;
        let name = node.get_text("name")?;
        let hp = node.get_u32("hp")?;
        let attack = node.get_u32("attack")?;
        let defense = node.get_u32("defense")?;
        let agility = node.get_u32("agility")?;
        if primary_types.len() == 0 {
            return Err(DbError::Malformed(String::from_str("No primary type found for Pokemon")));
        }
        let primary_type = primary_types.remove(0);
        let secondary_type = if secondary_types.len() > 0 {
            Some(secondary_types.remove(0))
        } else {
            None
        };
        Ok(
            Pokemon {
                name,
                primary_type,
                secondary_type,
                stats: PokemonStats { hp, attack, defense, agility },
            },
        )
    }

    /// The queries that store this creature with its types, in order: the
    /// put of its properties, then the link to its primary type, then the
    /// link to its secondary type if it has one.
    pub fn put_with_relationships(&self) -> (r: Vec<String>)
        ensures
            r@.len() == if self.secondary_type is Some {
                3int
            } else {
                2int
            },
            r@[0]@ == put_text("Pokemon"@, props_text(pokemon_props(self.name@, self.stats))),
            r@[1]@ == link_pair_text(*self, self.primary_type) + " MERGE (a)-[:"@
                + "PrimaryType"@ + "]->(b);"@,
            self.secondary_type matches Some(t) ==> r@[2]@ == link_pair_text(*self, t)
                + " MERGE (a)-[:"@ + "SecondaryType"@ + "]->(b);"@,
    {
        let mut r: Vec<String> = Vec::new();
        let args = self.put_args();
        r.push(put_query::<Pokemon>(args.as_str()));
        r.push(link_query(self, &self.primary_type, &Relationship::PrimaryType));
        if let Some(t) = &self.secondary_type {
            r.push(link_query(self, t, &Relationship::SecondaryType));
        }
        r
    }

    /// Changes the secondary type, and gives the queries that bring the
    /// store in line, in order: the removal of the edge to the old secondary
    /// type if there was one, then the edge to the new one if there is one.
    pub fn set_secondary_type(&mut self, new_secondary_type: Option<Promise<PokemonType>>) -> (r:
        Vec<String>)
        ensures
            final(self).name == old(self).name,
            final(self).stats == old(self).stats,
            final(self).primary_type == old(self).primary_type,
            opt_ident(final(self).secondary_type) == opt_ident(new_secondary_type),
            r@.len() == (if old(self).secondary_type is Some {
                1int
            } else {
                0int
            }) + (if new_secondary_type is Some {
                1int
            } else {
                0int
            }),
            old(self).secondary_type matches Some(o) ==> r@[0]@ == link_pair_text(*old(self), o)
                + " MATCH (a)-[r:"@ + "SecondaryType"@ + "]->(b) DELETE r;"@,
            new_secondary_type matches Some(n) ==> r@.last()@ == link_pair_text(*old(self), n)
                + " MERGE (a)-[:"@ + "SecondaryType"@ + "]->(b);"@,
    {
        let mut r: Vec<String> = Vec::new();
        if let Some(o) = &self.secondary_type {
            r.push(unlink_query(self, o, &Relationship::SecondaryType));
        }
        match new_secondary_type {
            Some(n) => {
                r.push(link_query(self, &n, &Relationship::SecondaryType));
                self.secondary_type = Some(n);
            },
            None => {
                self.secondary_type = None;
            },
        }
        r
    }

    /// The reference to the primary type.
    pub fn primary_type(&self) -> (r: &Promise<PokemonType>)
        ensures
            r == &self.primary_type,
    {
        &self.primary_type
    }

    /// The reference to the secondary type, if there is one.
    pub fn secondary_type(&self) -> (r: Option<&Promise<PokemonType>>)
        ensures
            r == match self.secondary_type {
                Some(p) => Some(&p),
                None => None::<&Promise<PokemonType>>,
            },
    {
        self.secondary_type.as_ref()
    }

    /// Brings this value in line with a new edge to the type `other`.
    pub fn link_side_effect(
        &mut self,
        other: &Promise<PokemonType>,
        relationship_type: &Relationship,
    ) -> (r: Result<(), DbError>)
        ensures
            r is Ok,
            final(self).name == old(self).name,
            final(self).stats == old(self).stats,
            *relationship_type == Relationship::PrimaryType ==> {
                &&& final(self).primary_type.ident_spec() == other.ident_spec()
                &&& final(self).secondary_type == old(self).secondary_type
            },
            *relationship_type == Relationship::SecondaryType ==> {
                &&& final(self).primary_type == old(self).primary_type
                &&& opt_ident(final(self).secondary_type) == Some(other.ident_spec())
            },
    {
        match relationship_type {
            Relationship::PrimaryType => {
                self.primary_type = other.duplicate();
            },
            Relationship::SecondaryType => {
                self.secondary_type = Some(other.duplicate());
            },
        }
        Ok(())
    }

    /// Brings this value in line with the removal of the edge to `other`.
    /// A creature cannot lose its primary type: that is refused.
    pub fn unlink_side_effect(
        &mut self,
        other: &Promise<PokemonType>,
        relationship_type: &Relationship,
    ) -> (r: Result<(), DbError>)
        ensures
            *relationship_type == Relationship::PrimaryType ==> {
                &&& r is Err
                &&& *final(self) == *old(self)
            },
            *relationship_type == Relationship::SecondaryType ==> {
                &&& r is Ok
                &&& final(self).name == old(self).name
                &&& final(self).stats == old(self).stats
                &&& final(self).primary_type == old(self).primary_type
                &&& final(self).secondary_type is None
            },
    {
        match relationship_type {
            Relationship::PrimaryType => Err(
                DbError::Malformed(String::from_str("Primary type cannot be unlinked")),
            ),
            Relationship::SecondaryType => {
                self.secondary_type = None;
                Ok(())
            },
        }
    }
}

} // verus!
