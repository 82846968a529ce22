//! The query text of each store operation. Labels and identifier fields come
//! from the entity kind; identifiers always pass through `db_identifier`.

use vstd::prelude::*;

use crate::database::promise::Promise;
use crate::database::{db_ident, db_identifier, AsDbString, DbRepr};

verus! {

/// The text that reads the node of kind `kind` whose field `field` is `ident`.
pub open spec fn get_first_text(kind: Seq<char>, field: Seq<char>, ident: Seq<char>) -> Seq<char> {
    "MATCH (n:"@ + kind + ") WHERE n."@ + field + " = "@ + ident + " RETURN n;"@
}

/// The text that reads every node of kind `kind`.
pub open spec fn get_all_text(kind: Seq<char>) -> Seq<char> {
    "MATCH (n:"@ + kind + ") RETURN n;"@
}

/// The text that creates a node of kind `kind` with properties `args`,
/// unless an equal node exists already.
pub open spec fn put_text(kind: Seq<char>, args: Seq<char>) -> Seq<char> {
    "MERGE (n:"@ + kind + " "@ + args + ")"@
}

/// The text that overwrites properties of one node.
pub open spec fn update_text(
    kind: Seq<char>,
    field: Seq<char>,
    ident: Seq<char>,
    assignments: Seq<char>,
) -> Seq<char> {
    "MATCH (n:"@ + kind + ") WHERE n."@ + field + " = "@ + ident + " SET "@ + assignments
}

/// The text that removes one node together with its edges.
pub open spec fn delete_text(kind: Seq<char>, field: Seq<char>, ident: Seq<char>) -> Seq<char> {
    "MATCH (n:"@ + kind + ") WHERE n."@ + field + " = "@ + ident + " DETACH DELETE n;"@
}

/// The part shared by the texts about an edge between two given nodes.
pub open spec fn pair_text(
    a_kind: Seq<char>,
    a_field: Seq<char>,
    a_ident: Seq<char>,
    b_kind: Seq<char>,
    b_field: Seq<char>,
    b_ident: Seq<char>,
) -> Seq<char> {
    "MATCH (a:"@ + a_kind + "), (b:"@ + b_kind + ") WHERE a."@ + a_field + " = "@ + a_ident
        + " AND b."@ + b_field + " = "@ + b_ident
}

/// Builds the text of `pair_text`.
fn pair_query<S: DbRepr, T: DbRepr>(a_ident: &str, b_ident: &str) -> (r: String)
    ensures
        r@ == pair_text(
            S::node_kind_spec(),
            S::identifier_field_spec(),
            a_ident@,
            T::node_kind_spec(),
            T::identifier_field_spec(),
            b_ident@,
        ),
{
    let mut q = String::from_str("MATCH (a:");
    q.append(S::node_kind());
    q.append("), (b:");
    q.append(T::node_kind());
    q.append(") WHERE a.");
    q.append(S::identifier_field());
    q.append(" = ");
    q.append(a_ident);
    q.append(" AND b.");
    q.append(T::identifier_field());
    q.append(" = ");
    q.append(b_ident);
    proof {
        assert(q@ =~= pair_text(
            S::node_kind_spec(),
            S::identifier_field_spec(),
            a_ident@,
            T::node_kind_spec(),
            T::identifier_field_spec(),
            b_ident@,
        ));
    }
    q
}

/// The text of the link of `source` to `target` for `S` and `T`.
pub open spec fn link_pair_text<S: DbRepr, T: DbRepr>(source: S, target: Promise<T>) -> Seq<
    char,
> {
    pair_text(
        S::node_kind_spec(),
        S::identifier_field_spec(),
        db_ident(source.raw_identifier_spec()),
        T::node_kind_spec(),
        T::identifier_field_spec(),
        db_ident(target.ident_spec()),
    )
}

/// Reads the node of kind `T` with the given identifier.
pub fn get_first_query<T: DbRepr>(database_identifier: &str) -> (r: String)
    ensures
        r@ == get_first_text(
            T::node_kind_spec(),
            T::identifier_field_spec(),
            db_ident(database_identifier@),
        ),
{
    let ident = db_identifier(database_identifier);
    let mut q = String::from_str("MATCH (n:");
    q.append(T::node_kind());
    q.append(") WHERE n.");
    q.append(T::identifier_field());
    q.append(" = ");
    q.append(ident.as_str());
    q.append(" RETURN n;");
    proof {
        assert(q@ =~= get_first_text(
            T::node_kind_spec(),
            T::identifier_field_spec(),
            db_ident(database_identifier@),
        ));
    }
    q
}

/// Reads every node of kind `T`.
pub fn get_all_query<T: DbRepr>() -> (r: String)
    ensures
        r@ == get_all_text(T::node_kind_spec()),
{
    let mut q = String::from_str("MATCH (n:");
    q.append(T::node_kind());
    q.append(") RETURN n;");
    proof {
        assert(q@ =~= get_all_text(T::node_kind_spec()));
    }
    q
}

/// Creates a node of kind `T` with the properties `put_args`, unless an
/// equal one exists.
pub fn put_query<T: DbRepr>(put_args: &str) -> (r: String)
    ensures
        r@ == put_text(T::node_kind_spec(), put_args@),
{
    let mut q = String::from_str("MERGE (n:");
    q.append(T::node_kind());
    q.append(" ");
    q.append(put_args);
    q.append(")");
    proof {
        assert(q@ =~= put_text(T::node_kind_spec(), put_args@));
    }
    q
}

/// Overwrites, on the node of kind `T` with the given identifier, the
/// properties that `update_args` assigns.
pub fn update_query<T: DbRepr>(database_identifier: &str, update_args: &str) -> (r: String)
    ensures
        r@ == update_text(
            T::node_kind_spec(),
            T::identifier_field_spec(),
            db_ident(database_identifier@),
            update_args@,
        ),
{
    let ident = db_identifier(database_identifier);
    let mut q = String::from_str("MATCH (n:");
    q.append(T::node_kind());
    q.append(") WHERE n.");
    q.append(T::identifier_field());
    q.append(" = ");
    q.append(ident.as_str());
    q.append(" SET ");
    q.append(update_args);
    proof {
        assert(q@ =~= update_text(
            T::node_kind_spec(),
            T::identifier_field_spec(),
            db_ident(database_identifier@),
            update_args@,
        ));
    }
    q
}

/// Removes the node of kind `T` with the given identifier. Its edges go
/// with it, so that no edge is left pointing at a node that is gone.
pub fn delete_query<T: DbRepr>(database_identifier: &str) -> (r: String)
    ensures
        r@ == delete_text(
            T::node_kind_spec(),
            T::identifier_field_spec(),
            db_ident(database_identifier@),
        ),
{
    let ident = db_identifier(database_identifier);
    let mut q = String::from_str("MATCH (n:");
    q.append(T::node_kind());
    q.append(") WHERE n.");
    q.append(T::identifier_field());
    q.append(" = ");
    q.append(ident.as_str());
    q.append(" DETACH DELETE n;");
    proof {
        assert(q@ =~= delete_text(
            T::node_kind_spec(),
            T::identifier_field_spec(),
            db_ident(database_identifier@),
        ));
    }
    q
}

/// Creates the edge `source -[relationship]-> target` unless it exists.
pub fn link_query<S: DbRepr, T: DbRepr, R: AsDbString>(
    source: &S,
    target: &Promise<T>,
    relationship: &R,
) -> (r: String)
    ensures
        r@ == link_pair_text(*source, *target) + " MERGE (a)-[:"@ + relationship.db_string_spec()
            + "]->(b);"@,
{
    let a = source.db_identifier();
    let b = target.ident_db();
    let mut q = pair_query::<S, T>(a.as_str(), b.as_str());
    q.append(" MERGE (a)-[:");
    q.append(relationship.as_db_string());
    q.append("]->(b);");
    proof {
        assert(q@ =~= link_pair_text(*source, *target) + " MERGE (a)-[:"@
            + relationship.db_string_spec() + "]->(b);"@);
    }
    q
}

/// Removes the edge `source -[relationship]-> target` if it exists.
pub fn unlink_query<S: DbRepr, T: DbRepr, R: AsDbString>(
    source: &S,
    target: &Promise<T>,
    relationship: &R,
) -> (r: String)
    ensures
        r@ == link_pair_text(*source, *target) + " MATCH (a)-[r:"@ + relationship.db_string_spec()
            + "]->(b) DELETE r;"@,
{
    let a = source.db_identifier();
    let b = target.ident_db();
    let mut q = pair_query::<S, T>(a.as_str(), b.as_str());
    q.append(" MATCH (a)-[r:");
    q.append(relationship.as_db_string());
    q.append("]->(b) DELETE r;");
    proof {
        assert(q@ =~= link_pair_text(*source, *target) + " MATCH (a)-[r:"@
            + relationship.db_string_spec() + "]->(b) DELETE r;"@);
    }
    q
}

/// Asks whether the edge `source -[relationship_name]-> target` exists: the
/// answer has a row exactly when it does.
pub fn is_linked_query<S: DbRepr, T: DbRepr>(
    source: &S,
    target: &Promise<T>,
    relationship_name: &str,
) -> (r: String)
    ensures
        r@ == link_pair_text(*source, *target) + " MATCH (a)-[:"@ + relationship_name@
            + "]->(b) RETURN b LIMIT 1;"@,
{
    let a = source.db_identifier();
    let b = target.ident_db();
    let mut q = pair_query::<S, T>(a.as_str(), b.as_str());
    q.append(" MATCH (a)-[:");
    q.append(relationship_name);
    q.append("]->(b) RETURN b LIMIT 1;");
    proof {
        assert(q@ =~= link_pair_text(*source, *target) + " MATCH (a)-[:"@
            + relationship_name@ + "]->(b) RETURN b LIMIT 1;"@);
    }
    q
}

/// The text that reads the targets of the `relationship` edges leaving the
/// node of kind `a_kind` with the given identifier.
pub open spec fn linked_text(
    a_kind: Seq<char>,
    a_field: Seq<char>,
    ident: Seq<char>,
    relationship: Seq<char>,
    b_kind: Seq<char>,
) -> Seq<char> {
    "MATCH (a:"@ + a_kind + " { "@ + a_field + " : "@ + ident + " })-[:"@ + relationship
        + "]->(b:"@ + b_kind + ") RETURN b;"@
}

/// Reads the nodes of kind `T` that the `relationship` edges leaving the
/// node of kind `S` with the given identifier reach.
pub fn get_linked_by_id_query<S: DbRepr, T: DbRepr, R: AsDbString>(
    relationship_type: &R,
    database_identifier: &str,
) -> (r: String)
    ensures
        r@ == linked_text(
            S::node_kind_spec(),
            S::identifier_field_spec(),
            db_ident(database_identifier@),
            relationship_type.db_string_spec(),
            T::node_kind_spec(),
        ),
{
    let ident = db_identifier(database_identifier);
    let mut q = String::from_str("MATCH (a:");
    q.append(S::node_kind());
    q.append(" { ");
    q.append(S::identifier_field());
    q.append(" : ");
    q.append(ident.as_str());
    q.append(" })-[:");
    q.append(relationship_type.as_db_string());
    q.append("]->(b:");
    q.append(T::node_kind());
    q.append(") RETURN b;");
    proof {
        assert(q@ =~= linked_text(
            S::node_kind_spec(),
            S::identifier_field_spec(),
            db_ident(database_identifier@),
            relationship_type.db_string_spec(),
            T::node_kind_spec(),
        ));
    }
    q
}

/// As `get_linked_by_id_query`, from `source`'s own identifier.
pub fn get_linked_to_query<S: DbRepr, T: DbRepr, R: AsDbString>(
    source: &S,
    relationship_type: &R,
) -> (r: String)
    ensures
        r@ == linked_text(
            S::node_kind_spec(),
            S::identifier_field_spec(),
            db_ident(source.raw_identifier_spec()),
            relationship_type.db_string_spec(),
            T::node_kind_spec(),
        ),
{
    get_linked_by_id_query::<S, T, R>(relationship_type, source.raw_identifier())
}

} // verus!
