//! The scalar properties of a node: what `put` writes and what a read hands
//! back, the text that writes them, and the store's merge as a model.

use vstd::prelude::*;

use crate::database::{sanitize, sanitized, same_text, DbError};

verus! {

/// The value of one property.
#[derive(Debug)]
pub enum PropValue {
    /// An integer property.
    Int(i64),
    /// A text property.
    Text(String),
}

/// The value of a property, as mathematics sees it.
pub enum PropView {
    /// An integer.
    IntV(int),
    /// A text.
    TextV(Seq<char>),
}

/// The properties of one node, in order, as a key and a value each.
#[derive(Debug)]
pub struct NodeProps {
    /// The properties.
    pub props: Vec<(String, PropValue)>,
}

impl PropValue {
    /// The value this stands for.
    pub open spec fn view(&self) -> PropView {
        match self {
            PropValue::Int(i) => PropView::IntV(*i as int),
            PropValue::Text(s) => PropView::TextV(s@),
        }
    }
}

/// The keys and values of a list of properties.
pub open spec fn props_view(props: Seq<(String, PropValue)>) -> Seq<(Seq<char>, PropView)> {
    props.map_values(|p: (String, PropValue)| (p.0@, p.1.view()))
}

impl NodeProps {
    /// The keys and values of this node's properties.
    pub open spec fn view(&self) -> Seq<(Seq<char>, PropView)> {
        props_view(self.props@)
    }
}

/// The value of the first property named `key`.
pub open spec fn lookup(props: Seq<(Seq<char>, PropView)>, key: Seq<char>) -> Option<PropView>
    decreases props.len(),
{
    if props.len() == 0 {
        None
    } else if props[0].0 == key {
        Some(props[0].1)
    } else {
        lookup(props.drop_first(), key)
    }
}

/// The text property `key`, if there is one.
pub open spec fn text_prop(props: Seq<(Seq<char>, PropView)>, key: Seq<char>) -> Option<
    Seq<char>,
> {
    match lookup(props, key) {
        Some(PropView::TextV(s)) => Some(s),
        _ => None,
    }
}

/// The integer property `key`, if there is one and it fits in `u32`.
pub open spec fn u32_prop(props: Seq<(Seq<char>, PropView)>, key: Seq<char>) -> Option<u32> {
    match lookup(props, key) {
        Some(PropView::IntV(i)) => if 0 <= i <= u32::MAX {
            Some(i as u32)
        } else {
            None
        },
        _ => None,
    }
}

/// The digit character of `d`, below ten.
pub open spec fn digit_char(d: nat) -> char {
    "0123456789"@[d as int]
}

/// The decimal text of `n`.
pub open spec fn decimal_text(n: nat) -> Seq<char>
    decreases n,
{
    if n < 10 {
        seq![digit_char(n)]
    } else {
        decimal_text(n / 10) + seq![digit_char(n % 10)]
    }
}

/// A value as it stands in query text: an integer in decimal, a text
/// sanitised and in single quotes.
pub open spec fn value_text(v: PropView) -> Seq<char> {
    match v {
        PropView::IntV(i) => if i < 0 {
            seq!['-'] + decimal_text((-i) as nat)
        } else {
            decimal_text(i as nat)
        },
        PropView::TextV(s) => seq!['\''] + sanitized(s) + seq!['\''],
    }
}

/// The properties joined as `key: value`, separated by commas.
pub open spec fn entries_text(props: Seq<(Seq<char>, PropView)>) -> Seq<char>
    decreases props.len(),
{
    if props.len() == 0 {
        Seq::empty()
    } else if props.len() == 1 {
        props[0].0 + ": "@ + value_text(props[0].1)
    } else {
        entries_text(props.drop_last()) + ", "@ + props.last().0 + ": "@ + value_text(
            props.last().1,
        )
    }
}

/// The properties as a map literal of the query language.
pub open spec fn props_text(props: Seq<(Seq<char>, PropView)>) -> Seq<char> {
    "{ "@ + entries_text(props) + " }"@
}

/// The properties as assignments to the node `n`.
pub open spec fn assignments_text(props: Seq<(Seq<char>, PropView)>) -> Seq<char>
    decreases props.len(),
{
    if props.len() == 0 {
        Seq::empty()
    } else if props.len() == 1 {
        "n."@ + props[0].0 + " = "@ + value_text(props[0].1)
    } else {
        assignments_text(props.drop_last()) + ", n."@ + props.last().0 + " = "@ + value_text(
            props.last().1,
        )
    }
}

fn digit_str(d: u64) -> (r: &'static str)
    requires
        d < 10,
    ensures
        r@ == seq![digit_char(d as nat)],
{
    let digits = "0123456789";
    proof {
        reveal_strlit("0123456789");
    }
    let r = digits.substring_char(d as usize, d as usize + 1);
    assert(r@ =~= seq![digit_char(d as nat)]);
    r
}

/// The decimal text of `n`.
pub fn decimal(n: u64) -> (r: String)
    ensures
        r@ == decimal_text(n as nat),
    decreases n,
{
    if n < 10 {
        String::from_str(digit_str(n))
    } else {
        let mut s = decimal(n / 10);
        s.append(digit_str(n % 10));
        s
    }
}

fn value_to_text(v: &PropValue) -> (r: String)
    ensures
        r@ == value_text(v.view()),
{
    proof {
        reveal_strlit("-");
        reveal_strlit("'");
    }
    match v {
        PropValue::Int(i) => {
            if *i < 0 {
                let mut s = String::from_str("-");
                let m = (-(*i as i128)) as u64;
                let d = decimal(m);
                s.append(d.as_str());
                s
            } else {
                decimal(*i as u64)
            }
        },
        PropValue::Text(t) => {
            let mut s = String::from_str("'");
            let body = sanitize(t.as_str());
            s.append(body.as_str());
            s.append("'");
            s
        },
    }
}

impl NodeProps {
    /// The first property named `key`, as a text; refused when it is missing
    /// or not a text.
    pub fn get_text(&self, key: &str) -> (r: Result<String, DbError>)
        ensures
            match text_prop(self.view(), key@) {
                Some(s) => r matches Ok(t) && t@ == s,
                None => r matches Err(DbError::Malformed(_)),
            },
    {
        match self.find(key) {
            Some(i) => match &self.props[i].1 {
                PropValue::Text(s) => Ok(s.clone()),
                PropValue::Int(_) => Err(DbError::Malformed(String::from_str("property is not a text"))),
            },
            None => Err(DbError::Malformed(String::from_str("property is missing"))),
        }
    }

    /// The first property named `key`, as a `u32`; refused when it is
    /// missing, not an integer, or out of range.
    pub fn get_u32(&self, key: &str) -> (r: Result<u32, DbError>)
        ensures
            match u32_prop(self.view(), key@) {
                Some(v) => r == Ok::<u32, DbError>(v),
                None => r matches Err(DbError::Malformed(_)),
            },
    {
        match self.find(key) {
            Some(i) => match &self.props[i].1 {
                PropValue::Int(v) => {
                    if 0 <= *v && *v <= u32::MAX as i64 {
                        Ok(*v as u32)
                    } else {
                        Err(DbError::Malformed(String::from_str("property is out of range")))
                    }
                },
                PropValue::Text(_) => Err(
                    DbError::Malformed(String::from_str("property is not an integer")),
                ),
            },
            None => Err(DbError::Malformed(String::from_str("property is missing"))),
        }
    }

    /// The position of the first property named `key`.
    fn find(&self, key: &str) -> (r: Option<usize>)
        ensures
            match r {
                Some(i) => i < self.props@.len() && lookup(self.view(), key@) == Some(
                    self.props@[i as int].1.view(),
                ),
                None => lookup(self.view(), key@) is None,
            },
    {
        let mut i: usize = 0;
        assert(self.view().skip(0) =~= self.view());
        while i < self.props.len()
            invariant
                i <= self.props@.len(),
                lookup(self.view(), key@) == lookup(self.view().skip(i as int), key@),
            decreases self.props@.len() - i,
        {
            let ghost rest = self.view().skip(i as int);
            assert(rest[0] == (self.props@[i as int].0@, self.props@[i as int].1.view()));
            if same_text(self.props[i].0.as_str(), key) {
                return Some(i);
            }
            assert(rest.drop_first() =~= self.view().skip(i + 1));
            i += 1;
        }
        None
    }

    /// The properties as a map literal of the query language.
    pub fn to_text(&self) -> (r: String)
        ensures
            r@ == props_text(self.view()),
    {
        let mut s = String::from_str("{ ");
        let mut i: usize = 0;
        while i < self.props.len()
            invariant
                i <= self.props@.len(),
                s@ == "{ "@ + entries_text(self.view().take(i as int)),
            decreases self.props@.len() - i,
        {
            let ghost before = s@;
            if i > 0 {
                s.append(", ");
            }
            s.append(self.props[i].0.as_str());
            s.append(": ");
            let v = value_to_text(&self.props[i].1);
            s.append(v.as_str());
            proof {
                let t = self.view().take(i + 1);
                assert(t.drop_last() =~= self.view().take(i as int));
                if i == 0 {
                    assert(self.view().take(0) =~= Seq::<(Seq<char>, PropView)>::empty());
                    assert(s@ =~= "{ "@ + entries_text(t));
                } else {
                    assert(s@ =~= "{ "@ + entries_text(t));
                }
            }
            i += 1;
        }
        s.append(" }");
        proof {
            assert(self.view().take(self.props@.len() as int) =~= self.view());
            assert(s@ =~= props_text(self.view()));
        }
        s
    }

    /// The properties as assignments to the node `n`.
    pub fn to_assignments(&self) -> (r: String)
        ensures
            r@ == assignments_text(self.view()),
    {
        let mut s = String::new();
        let mut i: usize = 0;
        while i < self.props.len()
            invariant
                i <= self.props@.len(),
                s@ == assignments_text(self.view().take(i as int)),
            decreases self.props@.len() - i,
        {
            if i > 0 {
                s.append(", n.");
            } else {
                s.append("n.");
            }
            s.append(self.props[i].0.as_str());
            s.append(" = ");
            let v = value_to_text(&self.props[i].1);
            s.append(v.as_str());
            proof {
                let t = self.view().take(i + 1);
                assert(t.drop_last() =~= self.view().take(i as int));
                if i == 0 {
                    assert(self.view().take(0) =~= Seq::<(Seq<char>, PropView)>::empty());
                }
                assert(s@ =~= assignments_text(t));
            }
            i += 1;
        }
        proof {
            assert(self.view().take(self.props@.len() as int) =~= self.view());
        }
        s
    }
}

/// A node as the store model sees it: its label and its properties.
pub type NodeView = (Seq<char>, Seq<(Seq<char>, PropView)>);

/// The nodes of `store` equal to `n`.
pub open spec fn count_equal(store: Seq<NodeView>, n: NodeView) -> nat {
    store.filter(equal_to(n)).len()
}

/// Holds of the nodes equal to `n`.
pub open spec fn equal_to(n: NodeView) -> spec_fn(NodeView) -> bool {
    |m: NodeView| m == n
}

/// The store after a merge of `n`: unchanged when a node equal to `n` is
/// there, else with `n` added.
pub open spec fn merged(store: Seq<NodeView>, n: NodeView) -> Seq<NodeView> {
    if store.contains(n) {
        store
    } else {
        store.push(n)
    }
}

/// The first node of `store` with label `kind` whose text property `field`
/// is `id`: what a keyed read returns.
pub open spec fn find_first(
    store: Seq<NodeView>,
    kind: Seq<char>,
    field: Seq<char>,
    id: Seq<char>,
) -> Option<NodeView>
    decreases store.len(),
{
    if store.len() == 0 {
        None
    } else if store[0].0 == kind && text_prop(store[0].1, field) == Some(id) {
        Some(store[0])
    } else {
        find_first(store.drop_first(), kind, field, id)
    }
}

proof fn lemma_find_first_push(
    store: Seq<NodeView>,
    n: NodeView,
    kind: Seq<char>,
    field: Seq<char>,
    id: Seq<char>,
)
    requires
        find_first(store, kind, field, id) is None,
        n.0 == kind,
        text_prop(n.1, field) == Some(id),
    ensures
        find_first(store.push(n), kind, field, id) == Some(n),
        !store.contains(n),
    decreases store.len(),
{
    if store.len() > 0 {
        assert(store.push(n).drop_first() =~= store.drop_first().push(n));
        lemma_find_first_push(store.drop_first(), n, kind, field, id);
        if store.contains(n) {
            let k = choose|k: int| 0 <= k < store.len() && store[k] == n;
            assert(k != 0);
            assert(store.drop_first()[k - 1] == n);
        }
    } else {
        assert(store.push(n)[0] == n);
        assert(store.push(n).drop_first() =~= Seq::<NodeView>::empty());
    }
}

/// A keyed read after a put finds the node that was put, where no node of
/// that kind had that identifier before.
pub proof fn lemma_put_then_get(store: Seq<NodeView>, n: NodeView, field: Seq<char>, id: Seq<char>)
    requires
        find_first(store, n.0, field, id) is None,
        text_prop(n.1, field) == Some(id),
    ensures
        find_first(merged(store, n), n.0, field, id) == Some(n),
{
    lemma_find_first_push(store, n, n.0, field, id);
}

/// Putting the same node twice leaves the store as putting it once, with
/// exactly one node equal to it, where there was at most one before.
pub proof fn lemma_put_idempotent(store: Seq<NodeView>, n: NodeView)
    requires
        count_equal(store, n) <= 1,
    ensures
        merged(merged(store, n), n) == merged(store, n),
        count_equal(merged(merged(store, n), n), n) == 1,
{
    let pred = equal_to(n);
    if store.contains(n) {
        let k = choose|k: int| 0 <= k < store.len() && store[k] == n;
        store.lemma_filter_contains(pred, k);
        assert(store.filter(pred).contains(n));
    } else {
        store.lemma_filter_push(n, pred);
        if store.filter(pred).len() > 0 {
            store.lemma_filter_pred(pred, 0);
            assert(store.filter(pred).contains(store.filter(pred)[0]));
            store.lemma_filter_contains_rev(pred, n);
        }
        assert(store.push(n).contains(n)) by {
            assert(store.push(n)[store.len() as int] == n);
        }
    }
}

} // verus!
