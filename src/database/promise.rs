//! Lazy references: the identifier of a stored entity of a known kind, to be
//! resolved by one read when it is needed.

use std::marker::PhantomData;
use vstd::prelude::*;

use crate::database::props::{text_prop, NodeProps};
use crate::database::{db_ident, db_identifier, DbError, DbRepr};

verus! {

/// A handle to an entity of kind `T` that carries only its identifier.
#[derive(Debug)]
pub struct Promise<T: DbRepr> {
    ident: String,
    _kind: PhantomData<T>,
}

/// Either a handle to an entity of kind `T` or the entity itself.
#[derive(Debug)]
pub enum MaybePromise<T: DbRepr> {
    /// Only the identifier is known.
    Promise(Promise<T>),
    /// The entity has been read already.
    Concrete(T),
}

impl<T: DbRepr> Promise<T> {
    /// The identifier that this handle refers to.
    pub closed spec fn ident_spec(&self) -> Seq<char> {
        self.ident@
    }

    /// The identifier that this handle refers to.
    pub fn ident(&self) -> (r: &str)
        ensures
            r@ == self.ident_spec(),
    {
        self.ident.as_str()
    }

    /// The identifier as it stands in query text: numeric identifiers as
    /// they are, others sanitised and quoted.
    pub fn ident_db(&self) -> (r: String)
        ensures
            r@ == db_ident(self.ident_spec()),
    {
        db_identifier(self.ident.as_str())
    }

    /// A handle to the entity with this identifier; whether such an entity
    /// exists is not checked.
    pub fn from_ident_unchecked(ident: String) -> (r: Self)
        ensures
            r.ident_spec() == ident@,
    {
        Promise { ident, _kind: PhantomData }
    }

    /// A second handle to the same entity.
    pub fn duplicate(&self) -> (r: Self)
        ensures
            r.ident_spec() == self.ident_spec(),
    {
        Promise { ident: self.ident.clone(), _kind: PhantomData }
    }
}

/// A handle to the entity a node holds, from the node's identifier field;
/// refused when that field is missing or not a text.
pub fn promise_from_node<T: DbRepr>(node: &NodeProps) -> (r: Result<Promise<T>, DbError>)
    ensures
        match text_prop(node.view(), T::identifier_field_spec()) {
            Some(id) => r matches Ok(p) && p.ident_spec() == id,
            None => r matches Err(DbError::Malformed(_)),
        },
{
    let ident = node.get_text(T::identifier_field())?;
    Ok(Promise::from_ident_unchecked(ident))
}

impl<T: DbRepr> MaybePromise<T> {
    /// The identifier of the entity referred to or held.
    pub open spec fn ident_spec(&self) -> Seq<char> {
        match self {
            MaybePromise::Promise(p) => p.ident_spec(),
            MaybePromise::Concrete(c) => c.raw_identifier_spec(),
        }
    }

    /// The identifier of the entity referred to or held.
    pub fn ident(&self) -> (r: &str)
        ensures
            r@ == self.ident_spec(),
    {
        match self {
            MaybePromise::Promise(p) => p.ident(),
            MaybePromise::Concrete(c) => c.raw_identifier(),
        }
    }

    /// The identifier as it stands in query text.
    pub fn ident_db(&self) -> (r: String)
        ensures
            r@ == db_ident(self.ident_spec()),
    {
        match self {
            MaybePromise::Promise(p) => p.ident_db(),
            MaybePromise::Concrete(c) => c.db_identifier(),
        }
    }

    /// A handle to the entity with this identifier, not checked.
    pub fn from_ident_unchecked(ident: String) -> (r: Self)
        ensures
            r is Promise,
            r.ident_spec() == ident@,
    {
        MaybePromise::Promise(Promise::from_ident_unchecked(ident))
    }

    /// Holds an entity that has been read already.
    pub fn from_concrete(concrete: T) -> (r: Self)
        ensures
            r == MaybePromise::Concrete(concrete),
    {
        MaybePromise::Concrete(concrete)
    }

    /// Holds a handle.
    pub fn from_promise(promise: Promise<T>) -> (r: Self)
        ensures
            r == MaybePromise::Promise(promise),
    {
        MaybePromise::Promise(promise)
    }

    /// The entity, when it is held already; else the handle by which to read it.
    pub fn into_concrete(self) -> (r: Result<T, Promise<T>>)
        ensures
            match self {
                MaybePromise::Concrete(c) => r == Ok::<T, Promise<T>>(c),
                MaybePromise::Promise(p) => r == Err::<T, Promise<T>>(p),
            },
    {
        match self {
            MaybePromise::Promise(p) => Err(p),
            MaybePromise::Concrete(c) => Ok(c),
        }
    }
}

} // verus!
