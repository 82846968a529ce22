//! Identifiers and text for the graph store: sanitising untrusted text,
//! telling numeric identifiers apart, and the error kinds of the store layer.

pub mod promise;
pub mod query;
pub mod props;

use vstd::prelude::*;

verus! {

/// The text that one character of untrusted input becomes once escaped:
/// a backslash is dropped, a quote or double quote gets a backslash before it.
pub open spec fn escaped_char(c: char) -> Seq<char> {
    if c == '\\' {
        Seq::empty()
    } else if c == '\'' {
        seq!['\\', '\'']
    } else if c == '"' {
        seq!['\\', '"']
    } else {
        seq![c]
    }
}

/// Untrusted text made safe to embed in query text.
pub open spec fn sanitized(s: Seq<char>) -> Seq<char>
    decreases s.len(),
{
    if s.len() == 0 {
        Seq::empty()
    } else {
        sanitized(s.drop_last()) + escaped_char(s.last())
    }
}

/// Removes every backslash of `s` and puts a backslash before each single
/// and double quote, so that the text can stand inside a quoted literal.
pub fn sanitize(s: &str) -> (r: String)
    ensures
        r@ == sanitized(s@),
{
    let n = s.unicode_len();
    let mut out = String::new();
    let mut i: usize = 0;
    while i < n
        invariant
            i <= n,
            n == s@.len(),
            out@ == sanitized(s@.take(i as int)),
        decreases n - i,
    {
        let c = s.get_char(i);
        proof {
            reveal_strlit("\\'");
            reveal_strlit("\\\"");
        }
        if c == '\\' {
        } else if c == '\'' {
            out.append("\\'");
        } else if c == '"' {
            out.append("\\\"");
        } else {
            out.append(s.substring_char(i, i + 1));
        }
        proof {
            assert(s@.take(i + 1).drop_last() =~= s@.take(i as int));
            assert(s@.subrange(i as int, i + 1) =~= seq![c]);
        }
        i += 1;
    }
    proof {
        assert(s@.take(n as int) =~= s@);
    }
    out
}


/// Whether `c` is an ASCII decimal digit.
pub open spec fn is_digit(c: char) -> bool {
    '0' <= c && c <= '9'
}

/// The number that a run of decimal digits spells.
pub open spec fn digits_value(d: Seq<char>) -> nat
    decreases d.len(),
{
    if d.len() == 0 {
        0
    } else {
        10 * digits_value(d.drop_last()) + ((d.last() as nat) - ('0' as nat)) as nat
    }
}

/// The digits of a number's text once an optional leading `+` is taken off.
pub open spec fn unsigned_digits(s: Seq<char>) -> Seq<char> {
    if s.len() > 0 && s[0] == '+' {
        s.drop_first()
    } else {
        s
    }
}

/// Whether `s` is the text of a `u64`: an optional `+`, then one or more
/// decimal digits whose value fits in 64 bits.
pub open spec fn is_u64_text(s: Seq<char>) -> bool {
    let d = unsigned_digits(s);
    &&& d.len() > 0
    &&& forall|i: int| 0 <= i < d.len() ==> is_digit(#[trigger] d[i])
    &&& digits_value(d) <= u64::MAX
}

/// An identifier as it stands in query text: a numeric identifier as it is,
/// any other sanitised and put in single quotes.
pub open spec fn db_ident(raw: Seq<char>) -> Seq<char> {
    if is_u64_text(raw) {
        raw
    } else {
        seq!['\''] + sanitized(raw) + seq!['\'']
    }
}

proof fn lemma_digits_value_grows(d: Seq<char>)
    requires
        d.len() > 0,
        is_digit(d.last()),
    ensures
        digits_value(d) >= digits_value(d.drop_last()),
{
}

/// Whether `s` reads as a `u64`, as the store's numeric identifiers do.
pub fn is_numeric_identifier(s: &str) -> (r: bool)
    ensures
        r == is_u64_text(s@),
{
    let n = s.unicode_len();
    let start: usize = if n > 0 && s.get_char(0) == '+' {
        1
    } else {
        0
    };
    if start >= n {
        return false;
    }
    let ghost d = unsigned_digits(s@);
    assert(d =~= s@.subrange(start as int, n as int));
    let mut value: u64 = 0;
    let mut too_large = false;
    let mut i: usize = start;
    while i < n
        invariant
            start <= i <= n,
            n == s@.len(),
            d == s@.subrange(start as int, n as int),
            d == unsigned_digits(s@),
            forall|k: int| 0 <= k < i - start ==> is_digit(#[trigger] d[k]),
            !too_large ==> value == digits_value(d.take(i - start)),
            too_large ==> digits_value(d.take(i - start)) > u64::MAX,
        decreases n - i,
    {
        let c = s.get_char(i);
        if !('0' <= c && c <= '9') {
            proof {
                let k = i - start;
                assert(d[k] == c);
                assert(0 <= k < d.len() && !is_digit(d[k]));
                assert(!(forall|j: int| 0 <= j < d.len() ==> is_digit(#[trigger] d[j])));
            }
            return false;
        }
        let digit = (c as u32 - '0' as u32) as u64;
        proof {
            assert(d.take(i - start + 1).drop_last() =~= d.take(i - start));
            assert(d.take(i - start + 1).last() == c);
        }
        if !too_large {
            if value > (u64::MAX - digit) / 10 {
                too_large = true;
            } else {
                value = value * 10 + digit;
            }
        } else {
            proof {
                lemma_digits_value_grows(d.take(i - start + 1));
            }
        }
        i += 1;
    }
    proof {
        assert(d.take(n - start) =~= d);
    }
    !too_large
}

/// Whether two texts are the same, character for character.
pub fn same_text(a: &str, b: &str) -> (r: bool)
    ensures
        r == (a@ == b@),
{
    let n = a.unicode_len();
    if n != b.unicode_len() {
        return false;
    }
    let mut i: usize = 0;
    while i < n
        invariant
            i <= n,
            n == a@.len(),
            n == b@.len(),
            a@.take(i as int) == b@.take(i as int),
        decreases n - i,
    {
        if a.get_char(i) != b.get_char(i) {
            return false;
        }
        proof {
            assert(a@.take(i + 1) =~= a@.take(i as int).push(a@[i as int]));
            assert(b@.take(i + 1) =~= b@.take(i as int).push(b@[i as int]));
        }
        i += 1;
    }
    proof {
        assert(a@.take(n as int) =~= a@);
        assert(b@.take(n as int) =~= b@);
    }
    true
}

/// Gives the text by which the store's query language matches an identifier.
pub fn db_identifier(raw: &str) -> (r: String)
    ensures
        r@ == db_ident(raw@),
{
    if is_numeric_identifier(raw) {
        String::from_str(raw)
    } else {
        let mut out = String::from_str("'");
        let body = sanitize(raw);
        out.append(body.as_str());
        out.append("'");
        proof {
            reveal_strlit("'");
        }
        out
    }
}

/// What a static text of this library names in query text: a relationship
/// label, for instance.
pub trait AsDbString {
    spec fn db_string_spec(&self) -> Seq<char>;

    fn as_db_string(&self) -> (r: &'static str)
        ensures
            r@ == self.db_string_spec(),
    ;
}

/// A kind of entity stored as a node: its label, its identifier field, and
/// the identifier of one value.
pub trait DbRepr: Sized {
    spec fn node_kind_spec() -> Seq<char>;

    spec fn identifier_field_spec() -> Seq<char>;

    spec fn raw_identifier_spec(&self) -> Seq<char>;

    /// The label of the nodes that hold this kind.
    fn node_kind() -> (r: &'static str)
        ensures
            r@ == Self::node_kind_spec(),
    ;

    /// The property that identifies a node of this kind.
    fn identifier_field() -> (r: &'static str)
        ensures
            r@ == Self::identifier_field_spec(),
    ;

    /// The identifier of this value, as the store holds it.
    fn raw_identifier(&self) -> (r: &str)
        ensures
            r@ == self.raw_identifier_spec(),
    ;

    /// The identifier of this value as it stands in query text.
    fn db_identifier(&self) -> (r: String)
        ensures
            r@ == db_ident(self.raw_identifier_spec()),
    {
        db_identifier(self.raw_identifier())
    }
}

/// The targets of an entity's edges of one label after a link to `id`:
/// unchanged when the edge is there already.
pub open spec fn with_link(ids: Seq<Seq<char>>, id: Seq<char>) -> Seq<Seq<char>> {
    if ids.contains(id) {
        ids
    } else {
        ids.push(id)
    }
}

/// Holds of the identifiers other than `id`.
pub open spec fn other_than(id: Seq<char>) -> spec_fn(Seq<char>) -> bool {
    |x: Seq<char>| x != id
}

/// Linking a pair that is linked already changes nothing, and a link never
/// makes a second edge to the same target.
pub proof fn lemma_link_idempotent(ids: Seq<Seq<char>>, id: Seq<char>)
    ensures
        with_link(with_link(ids, id), id) == with_link(ids, id),
        with_link(ids, id).contains(id),
        ids.no_duplicates() ==> with_link(ids, id).no_duplicates(),
{
    if !ids.contains(id) {
        assert(ids.push(id)[ids.len() as int] == id);
    }
}

/// Unlinking a target that is not linked changes nothing.
pub proof fn lemma_unlink_absent(ids: Seq<Seq<char>>, id: Seq<char>)
    requires
        !ids.contains(id),
    ensures
        ids.filter(other_than(id)) == ids,
    decreases ids.len(),
{
    reveal(Seq::filter);
    if ids.len() > 0 {
        assert(!ids.drop_last().contains(id)) by {
            if ids.drop_last().contains(id) {
                let k = choose|k: int| 0 <= k < ids.drop_last().len() && ids.drop_last()[k] == id;
                assert(ids[k] == id);
            }
        }
        lemma_unlink_absent(ids.drop_last(), id);
        assert(ids.last() != id) by {
            assert(ids[ids.len() - 1] == ids.last());
        }
        assert(ids.drop_last().push(ids.last()) =~= ids);
    }
}

/// The longest name a creature or a trainer may have.
pub const MAX_NAME_LEN: usize = 30;

/// Why a name for a new creature or trainer is refused.
#[derive(Clone, Copy, Debug, PartialEq, Eq, Structural)]
pub enum NameError {
    /// The name is empty.
    Empty,
    /// The name is longer than `MAX_NAME_LEN` characters.
    TooLong,
}

/// Checks a name for a new creature or trainer: neither empty nor longer
/// than `MAX_NAME_LEN` characters.
pub fn check_name(name: &str) -> (r: Result<(), NameError>)
    ensures
        name@.len() == 0 ==> r == Err::<(), NameError>(NameError::Empty),
        name@.len() > MAX_NAME_LEN ==> r == Err::<(), NameError>(NameError::TooLong),
        0 < name@.len() <= MAX_NAME_LEN ==> r is Ok,
{
    let n = name.unicode_len();
    if n > MAX_NAME_LEN {
        Err(NameError::TooLong)
    } else if n == 0 {
        Err(NameError::Empty)
    } else {
        Ok(())
    }
}

/// The text with every backslash dropped.
pub open spec fn without_backslashes(s: Seq<char>) -> Seq<char> {
    s.filter(|c: char| c != '\\')
}

/// Drops every backslash of `s`, so that a name can stand in a path.
pub fn strip_backslashes(s: &str) -> (r: String)
    ensures
        r@ == without_backslashes(s@),
{
    let n = s.unicode_len();
    let mut out = String::new();
    let mut i: usize = 0;
    while i < n
        invariant
            i <= n,
            n == s@.len(),
            out@ == without_backslashes(s@.take(i as int)),
        decreases n - i,
    {
        let c = s.get_char(i);
        proof {
            assert(s@.take(i + 1) =~= s@.take(i as int).push(c));
            s@.take(i as int).lemma_filter_push(c, |c: char| c != '\\');
        }
        if c != '\\' {
            out.append(s.substring_char(i, i + 1));
            proof {
                assert(s@.subrange(i as int, i + 1) =~= seq![c]);
            }
        }
        i += 1;
    }
    proof {
        assert(s@.take(n as int) =~= s@);
    }
    out
}

/// Why an operation of the store layer or of the combat engine failed.
#[derive(Clone, Debug, PartialEq, Eq)]
pub enum DbError {
    /// A keyed read found no node.
    NotFound,
    /// The store could not be reached, or refused the credentials.
    Connectivity(String),
    /// A required related entity could not be had, or a node lacks a field.
    Malformed(String),
    /// A strategy name that names no strategy.
    InvalidStrategyName,
    /// The combat orchestration met a state that cannot occur.
    OrchestrationInvariant(String),
}

} // verus!
