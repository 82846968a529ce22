//! Trainers and the creatures of their teams.

use vstd::prelude::*;

use crate::database::promise::Promise;
use crate::database::props::{props_text, text_prop, NodeProps, PropValue, PropView};
use crate::database::{other_than, same_text, with_link, AsDbString, DbError, DbRepr};
use crate::pokemon::Pokemon;

verus! {

/// A trainer: a name and references to the creatures of its team.
#[derive(Debug)]
pub struct Trainer {
    /// The name, which identifies the trainer.
    pub name: String,
    /// The team, in the order it was given; kept in line with the store's
    /// edges by the link side effects.
    pub team: Vec<Promise<Pokemon>>,
}

/// The single edge label from a trainer to a creature.
#[derive(Clone, Copy, Debug, PartialEq, Eq, Structural)]
pub enum Relationship {
    /// The trainer owns the creature.
    Owns,
}

impl AsDbString for Relationship {
    open spec fn db_string_spec(&self) -> Seq<char> {
        "Owns"@
    }

    fn as_db_string(&self) -> (r: &'static str) {
        "Owns"
    }
}

impl DbRepr for Trainer {
    open spec fn node_kind_spec() -> Seq<char> {
        "Trainer"@
    }

    open spec fn identifier_field_spec() -> Seq<char> {
        "name"@
    }

    open spec fn raw_identifier_spec(&self) -> Seq<char> {
        self.name@
    }

    fn node_kind() -> (r: &'static str) {
        "Trainer"
    }

    fn identifier_field() -> (r: &'static str) {
        "name"
    }

    fn raw_identifier(&self) -> (r: &str) {
        self.name.as_str()
    }
}

/// The identifiers of the creatures of a team.
pub open spec fn team_idents(team: Seq<Promise<Pokemon>>) -> Seq<Seq<char>> {
    team.map_values(|p: Promise<Pokemon>| p.ident_spec())
}

/// The scalar properties a trainer's node holds.
pub open spec fn trainer_props(name: Seq<char>) -> Seq<(Seq<char>, PropView)> {
    seq![("name"@, PropView::TextV(name))]
}

/// A trainer read back from the properties its put wrote has the same name.
pub proof fn lemma_trainer_round_trip(name: Seq<char>)
    ensures
        text_prop(trainer_props(name), "name"@) == Some(name),
{
}

impl Trainer {
    /// A trainer with the given name and an empty team.
    pub fn new(name: String) -> (r: Self)
        ensures
            r.name == name,
            r.team@.len() == 0,
    {
        Trainer { name, team: Vec::new() }
    }

    /// Whether the team holds a creature with identifier `id`.
    pub fn owns(&self, id: &str) -> (r: bool)
        ensures
            r == team_idents(self.team@).contains(id@),
    {
        let mut i: usize = 0;
        while i < self.team.len()
            invariant
                i <= self.team@.len(),
                forall|k: int| 0 <= k < i ==> self.team@[k].ident_spec() != id@,
            decreases self.team@.len() - i,
        {
            if same_text(self.team[i].ident(), id) {
                assert(team_idents(self.team@)[i as int] == id@);
                return true;
            }
            i += 1;
        }
        proof {
            if team_idents(self.team@).contains(id@) {
                let k = choose|k: int|
                    0 <= k < team_idents(self.team@).len() && team_idents(self.team@)[k] == id@;
                assert(self.team@[k].ident_spec() == id@);
            }
        }
        false
    }

    /// The scalar properties this trainer's node holds.
    pub fn put_props(&self) -> (r: NodeProps)
        ensures
            r.view() == trainer_props(self.name@),
    {
        let mut props: Vec<(String, PropValue)> = Vec::new();
        props.push((String::from_str("name"), PropValue::Text(self.name.clone())));
        let r = NodeProps { props };
        assert(r.view() =~= trainer_props(self.name@));
        r
    }

    /// The properties as a map literal, for a put. The team is made of
    /// edges and is not part of it.
    pub fn put_args(&self) -> (r: String)
        ensures
            r@ == props_text(trainer_props(self.name@)),
    {
        self.put_props().to_text()
    }

    /// A trainer from its node's properties and the targets of its `Owns`
    /// edges; refused when the name is missing or not a text.
    pub fn from_db_node(node: &NodeProps, team: Vec<Promise<Pokemon>>) -> (r: Result<
        Trainer,
        DbError,
    >)
        ensures
            (r is Ok) == (text_prop(node.view(), "name"@) is Some),
            r is Err ==> r matches Err(DbError::Malformed(_)),
            r matches Ok(t) ==> text_prop(node.view(), "name"@) == Some(t.name@) && t.team == team,
    {
        let name = node.get_text("name")?;
        Ok(Trainer { name, team })
    }

    /// Brings this value in line with a new `Owns` edge: the creature joins
    /// the team unless it is there already.
    pub fn link_side_effect(
        &mut self,
        pokemon: &Promise<Pokemon>,
        relationship: &Relationship,
    ) -> (r: Result<(), DbError>)
        ensures
            r is Ok,
            final(self).name == old(self).name,
            team_idents(final(self).team@) == with_link(
                team_idents(old(self).team@),
                pokemon.ident_spec(),
            ),
    {
        if !self.owns(pokemon.ident()) {
            self.team.push(pokemon.duplicate());
            proof {
                assert(team_idents(final(self).team@) =~= team_idents(old(self).team@).push(
                    pokemon.ident_spec(),
                ));
            }
        }
        Ok(())
    }

    /// Brings this value in line with the removal of an `Owns` edge: every
    /// reference to the creature leaves the team, the rest keep their order.
    pub fn unlink_side_effect(
        &mut self,
        pokemon: &Promise<Pokemon>,
        relationship: &Relationship,
    ) -> (r: Result<(), DbError>)
        ensures
            r is Ok,
            final(self).name == old(self).name,
            team_idents(final(self).team@) == team_idents(old(self).team@).filter(
                other_than(pokemon.ident_spec()),
            ),
    {
        let ghost id = pokemon.ident_spec();
        let ghost before = team_idents(self.team@);
        let ghost pred = other_than(id);
        let mut kept: Vec<Promise<Pokemon>> = Vec::new();
        let mut i: usize = 0;
        while i < self.team.len()
            invariant
                i <= self.team@.len(),
                id == pokemon.ident_spec(),
                pred == other_than(id),
                before == team_idents(self.team@),
                self.team == old(self).team,
                team_idents(kept@) == before.take(i as int).filter(pred),
            decreases self.team@.len() - i,
        {
            proof {
                assert(before.take(i + 1) =~= before.take(i as int).push(before[i as int]));
                before.take(i as int).lemma_filter_push(before[i as int], pred);
            }
            let ghost kept_before = kept@;
            if !same_text(self.team[i].ident(), pokemon.ident()) {
                kept.push(self.team[i].duplicate());
                proof {
                    assert(team_idents(kept@) =~= team_idents(kept_before).push(before[i as int]));
                }
            }
            i += 1;
        }
        proof {
            assert(before.take(self.team@.len() as int) =~= before);
        }
        self.team = kept;
        Ok(())
    }
}

} // verus!
