//! Creature types and the strong-against and weak-against relations between them.

use vstd::prelude::*;

use crate::database::promise::{MaybePromise, Promise};
use crate::database::props::{
    assignments_text, props_text, text_prop, NodeProps, PropValue, PropView,
};
use crate::database::{same_text, with_link, AsDbString, DbError, DbRepr};

verus! {

/// A creature type: a name, and the types it is strong against and weak against.
#[derive(Debug)]
pub struct PokemonType {
    /// The name, which identifies the type.
    pub name: String,
    /// The types this one is strong against; kept in line with the store's
    /// edges by the link side effects.
    pub strong_against: Vec<MaybePromise<PokemonType>>,
    /// The types this one is weak against.
    pub weak_against: Vec<MaybePromise<PokemonType>>,
}

/// The identifiers of a list of references.
pub open spec fn idents(refs: Seq<MaybePromise<PokemonType>>) -> Seq<Seq<char>> {
    refs.map_values(|t: MaybePromise<PokemonType>| t.ident_spec())
}

/// The list without the references to `id`, in the same order.
pub open spec fn without_ident(
    refs: Seq<MaybePromise<PokemonType>>,
    id: Seq<char>,
) -> Seq<MaybePromise<PokemonType>> {
    refs.filter(other_than(id))
}

/// Holds of the references that do not name `id`.
pub open spec fn other_than(id: Seq<char>) -> spec_fn(MaybePromise<PokemonType>) -> bool {
    |t: MaybePromise<PokemonType>| t.ident_spec() != id
}

/// The scalar properties a type's node holds.
pub open spec fn type_props(name: Seq<char>) -> Seq<(Seq<char>, PropView)> {
    seq![("name"@, PropView::TextV(name))]
}

/// A type read back from the properties its put wrote has the same name.
pub proof fn lemma_type_round_trip(name: Seq<char>)
    ensures
        text_prop(type_props(name), "name"@) == Some(name),
{
}

/// The identifiers of a list of handles.
pub open spec fn promise_idents(v: Seq<Promise<PokemonType>>) -> Seq<Seq<char>> {
    v.map_values(|p: Promise<PokemonType>| p.ident_spec())
}

fn refs_of(v: &Vec<Promise<PokemonType>>) -> (r: Vec<MaybePromise<PokemonType>>)
    ensures
        idents(r@) == promise_idents(v@),
{
    let mut r: Vec<MaybePromise<PokemonType>> = Vec::new();
    let mut i: usize = 0;
    while i < v.len()
        invariant
            i <= v@.len(),
            idents(r@) == promise_idents(v@.take(i as int)),
        decreases v@.len() - i,
    {
        let ghost r_before = r@;
        r.push(MaybePromise::from_promise(v[i].duplicate()));
        proof {
            assert(idents(r@) =~= idents(r_before).push(v@[i as int].ident_spec()));
            assert(v@.take(i + 1) =~= v@.take(i as int).push(v@[i as int]));
            assert(promise_idents(v@.take(i + 1)) =~= promise_idents(v@.take(i as int)).push(
                v@[i as int].ident_spec(),
            ));
        }
        i += 1;
    }
    proof {
        assert(v@.take(v@.len() as int) =~= v@);
    }
    r
}

/// Dropping the references to an identifier that none of them names
/// changes nothing.
pub proof fn lemma_unlink_absent_refs(refs: Seq<MaybePromise<PokemonType>>, id: Seq<char>)
    requires
        !idents(refs).contains(id),
    ensures
        without_ident(refs, id) == refs,
    decreases refs.len(),
{
    reveal(Seq::filter);
    if refs.len() > 0 {
        let last = refs.len() - 1;
        assert(idents(refs)[last] == refs[last].ident_spec());
        assert(idents(refs.drop_last()) =~= idents(refs).drop_last());
        assert(!idents(refs.drop_last()).contains(id)) by {
            if idents(refs.drop_last()).contains(id) {
                let k = choose|k: int|
                    0 <= k < idents(refs.drop_last()).len() && idents(refs.drop_last())[k] == id;
                assert(idents(refs)[k] == id);
            }
        }
        lemma_unlink_absent_refs(refs.drop_last(), id);
        assert(refs.drop_last().push(refs.last()) =~= refs);
    }
}

/// The two edge labels between creature types.
#[derive(Clone, Copy, Debug, PartialEq, Eq, Structural)]
pub enum Relationship {
    /// The source type deals more damage to the target type.
    StrongAgainst,
    /// The source type deals less damage to the target type.
    WeakAgainst,
}

impl AsDbString for Relationship {
    open spec fn db_string_spec(&self) -> Seq<char> {
        match self {
            Relationship::StrongAgainst => "StrongAgainst"@,
            Relationship::WeakAgainst => "WeakAgainst"@,
        }
    }

    fn as_db_string(&self) -> (r: &'static str) {
        match self {
            Relationship::StrongAgainst => "StrongAgainst",
            Relationship::WeakAgainst => "WeakAgainst",
        }
    }
}

impl DbRepr for PokemonType {
    open spec fn node_kind_spec() -> Seq<char> {
        "PokemonType"@
    }

    open spec fn identifier_field_spec() -> Seq<char> {
        "name"@
    }

    open spec fn raw_identifier_spec(&self) -> Seq<char> {
        self.name@
    }

    fn node_kind() -> (r: &'static str) {
        "PokemonType"
    }

    fn identifier_field() -> (r: &'static str) {
        "name"
    }

    fn raw_identifier(&self) -> (r: &str) {
        self.name.as_str()
    }
}

/// Whether some reference of `refs` names `id`.
fn names_in(refs: &Vec<MaybePromise<PokemonType>>, id: &str) -> (r: bool)
    ensures
        r == idents(refs@).contains(id@),
{
    let mut i: usize = 0;
    while i < refs.len()
        invariant
            i <= refs@.len(),
            forall|k: int| 0 <= k < i ==> refs@[k].ident_spec() != id@,
        decreases refs@.len() - i,
    {
        if same_text(refs[i].ident(), id) {
            assert(idents(refs@)[i as int] == id@);
            return true;
        }
        i += 1;
    }
    proof {
        if idents(refs@).contains(id@) {
            let k = choose|k: int| 0 <= k < idents(refs@).len() && idents(refs@)[k] == id@;
            assert(refs@[k].ident_spec() == id@);
        }
    }
    false
}

/// Adds a reference to `other` unless one is there already.
fn add_ref(refs: &mut Vec<MaybePromise<PokemonType>>, other: &Promise<PokemonType>)
    ensures
        idents(old(refs)@).contains(other.ident_spec()) ==> *final(refs) == *old(refs),
        !idents(old(refs)@).contains(other.ident_spec()) ==> idents(final(refs)@) == idents(
            old(refs)@,
        ).push(other.ident_spec()),
{
    if !names_in(refs, other.ident()) {
        refs.push(MaybePromise::from_promise(other.duplicate()));
        proof {
            assert(idents(final(refs)@) =~= idents(old(refs)@).push(other.ident_spec()));
        }
    }
}

/// Drops every reference to `other`, keeping the order of the rest.
fn remove_ref(refs: &mut Vec<MaybePromise<PokemonType>>, other: &Promise<PokemonType>)
    ensures
        final(refs)@ == without_ident(old(refs)@, other.ident_spec()),
{
    let ghost before = refs@;
    let ghost id = other.ident_spec();
    let mut rest: Vec<MaybePromise<PokemonType>> = Vec::new();
    std::mem::swap(&mut rest, refs);
    let mut kept: Vec<MaybePromise<PokemonType>> = Vec::new();
    let ghost taken: int = 0;
    while rest.len() > 0
        invariant
            0 <= taken <= before.len(),
            id == other.ident_spec(),
            rest@ == before.subrange(taken, before.len() as int),
            kept@ == without_ident(before.take(taken), id),
        decreases rest@.len(),
    {
        let t = rest.remove(0);
        proof {
            assert(before.take(taken + 1) =~= before.take(taken).push(t));
            before.take(taken).lemma_filter_push(t, other_than(id));
        }
        let same = same_text(t.ident(), other.ident());
        if !same {
            kept.push(t);
        }
        proof {
            assert(kept@ =~= without_ident(before.take(taken + 1), id));
            taken = taken + 1;
            assert(rest@ =~= before.subrange(taken, before.len() as int));
        }
    }
    proof {
        assert(before.take(taken) =~= before);
    }
    *refs = kept;
}

impl PokemonType {
    /// The identifiers of the types this one is strong against.
    pub open spec fn strong_idents(&self) -> Seq<Seq<char>> {
        idents(self.strong_against@)
    }

    /// The identifiers of the types this one is weak against.
    pub open spec fn weak_idents(&self) -> Seq<Seq<char>> {
        idents(self.weak_against@)
    }

    /// Whether this type is strong against the type named `name`.
    pub open spec fn strong_against_spec(&self, name: Seq<char>) -> bool {
        self.strong_idents().contains(name)
    }

    /// Whether this type is weak against the type named `name`.
    pub open spec fn weak_against_spec(&self, name: Seq<char>) -> bool {
        self.weak_idents().contains(name)
    }

    /// A type with the given name and no relations yet.
    pub fn new(name: String) -> (r: Self)
        ensures
            r.name == name,
            r.strong_idents() == Seq::<Seq<char>>::empty(),
            r.weak_idents() == Seq::<Seq<char>>::empty(),
    {
        let r = PokemonType { name, strong_against: Vec::new(), weak_against: Vec::new() };
        proof {
            assert(idents(r.strong_against@) =~= Seq::<Seq<char>>::empty());
            assert(idents(r.weak_against@) =~= Seq::<Seq<char>>::empty());
        }
        r
    }

    /// A type with the given name whose relations are the given references.
    pub fn from_links(
        name: String,
        strong_against: Vec<MaybePromise<PokemonType>>,
        weak_against: Vec<MaybePromise<PokemonType>>,
    ) -> (r: Self)
        ensures
            r.name == name,
            r.strong_idents() == idents(strong_against@),
            r.weak_idents() == idents(weak_against@),
    {
        PokemonType { name, strong_against, weak_against }
    }

    /// The scalar properties this type's node holds.
    pub fn put_props(&self) -> (r: NodeProps)
        ensures
            r.view() == type_props(self.name@),
    {
        let mut props: Vec<(String, PropValue)> = Vec::new();
        props.push((String::from_str("name"), PropValue::Text(self.name.clone())));
        let r = NodeProps { props };
        assert(r.view() =~= type_props(self.name@));
        r
    }

    /// The properties as a map literal, for a put. The relations are edges
    /// and are not part of it.
    pub fn put_args(&self) -> (r: String)
        ensures
            r@ == props_text(type_props(self.name@)),
    {
        self.put_props().to_text()
    }

    /// The properties as assignments, for an update.
    pub fn update_args(&self) -> (r: String)
        ensures
            r@ == assignments_text(type_props(self.name@)),
    {
        self.put_props().to_assignments()
    }

    /// A type from its node's properties and the targets of its
    /// strong-against and weak-against edges, kept as references; refused
    /// when the name is missing or not a text.
    pub fn from_db_node(
        node: &NodeProps,
        strong_against: Vec<Promise<PokemonType>>,
        weak_against: Vec<Promise<PokemonType>>,
    ) -> (r: Result<PokemonType, DbError>)
        ensures
            (r is Ok) == (text_prop(node.view(), "name"@) is Some),
            r is Err ==> r matches Err(DbError::Malformed(_)),
            r matches Ok(t) ==> {
                &&& text_prop(node.view(), "name"@) == Some(t.name@)
                &&& t.strong_idents() == promise_idents(strong_against@)
                &&& t.weak_idents() == promise_idents(weak_against@)
            },
    {
        let name = node.get_text("name")?;
        Ok(PokemonType::from_links(name, refs_of(&strong_against), refs_of(&weak_against)))
    }

    /// Whether this type is strong against `other`.
    pub fn is_strong_against(&self, other: &PokemonType) -> (r: bool)
        ensures
            r == self.strong_against_spec(other.name@),
    {
        names_in(&self.strong_against, other.name.as_str())
    }

    /// Whether this type is weak against `other`.
    pub fn is_weak_against(&self, other: &PokemonType) -> (r: bool)
        ensures
            r == self.weak_against_spec(other.name@),
    {
        names_in(&self.weak_against, other.name.as_str())
    }

    /// Brings this value in line with a new edge to `other`: the reference
    /// is added to the relation unless it is there already.
    pub fn link_side_effect(
        &mut self,
        other: &Promise<PokemonType>,
        relationship_type: &Relationship,
    ) -> (r: Result<(), crate::database::DbError>)
        ensures
            r is Ok,
            final(self).name == old(self).name,
            *relationship_type == Relationship::StrongAgainst ==> {
                &&& final(self).weak_idents() == old(self).weak_idents()
                &&& final(self).strong_idents() == with_link(
                    old(self).strong_idents(),
                    other.ident_spec(),
                )
            },
            *relationship_type == Relationship::WeakAgainst ==> {
                &&& final(self).strong_idents() == old(self).strong_idents()
                &&& final(self).weak_idents() == with_link(
                    old(self).weak_idents(),
                    other.ident_spec(),
                )
            },
    {
        match relationship_type {
            Relationship::StrongAgainst => add_ref(&mut self.strong_against, other),
            Relationship::WeakAgainst => add_ref(&mut self.weak_against, other),
        }
        Ok(())
    }

    /// Brings this value in line with the removal of the edge to `other`:
    /// every reference to it leaves the relation.
    pub fn unlink_side_effect(
        &mut self,
        other: &Promise<PokemonType>,
        relationship_type: &Relationship,
    ) -> (r: Result<(), crate::database::DbError>)
        ensures
            r is Ok,
            final(self).name == old(self).name,
            *relationship_type == Relationship::StrongAgainst ==> {
                &&& final(self).weak_against == old(self).weak_against
                &&& final(self).strong_against@ == without_ident(
                    old(self).strong_against@,
                    other.ident_spec(),
                )
            },
            *relationship_type == Relationship::WeakAgainst ==> {
                &&& final(self).strong_against == old(self).strong_against
                &&& final(self).weak_against@ == without_ident(
                    old(self).weak_against@,
                    other.ident_spec(),
                )
            },
    {
        match relationship_type {
            Relationship::StrongAgainst => remove_ref(&mut self.strong_against, other),
            Relationship::WeakAgainst => remove_ref(&mut self.weak_against, other),
        }
        Ok(())
    }
}

} // verus!
