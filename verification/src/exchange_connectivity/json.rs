//! The JSON texts that go to and come from the venues.
//!
//! Reading and writing JSON is left to `serde_json`. What it returns is known
//! to the proofs by name only: the names below stand for the results of its
//! functions, and the functions of this module hand those results on as plain
//! values.

use vstd::prelude::*;

verus! {

/// One element of a row of a JSON array.
#[derive(Debug)]
pub enum Cell {
    /// A string.
    Text(String),
    /// A number, in its decimal text.
    Number(String),
    /// Anything else.
    Other,
}

/// What a cell holds.
pub enum CellView {
    Text(Seq<char>),
    Number(Seq<char>),
    Other,
}

impl View for Cell {
    type V = CellView;

    open spec fn view(&self) -> CellView {
        match self {
            Cell::Text(s) => CellView::Text(s@),
            Cell::Number(s) => CellView::Number(s@),
            Cell::Other => CellView::Other,
        }
    }
}

/// What a list of rows holds: for each element of the array its cells, or
/// `None` where the element is no array.
pub open spec fn rows_view(rows: Seq<Option<Vec<Cell>>>) -> Seq<Option<Seq<CellView>>> {
    Seq::new(
        rows.len(),
        |i: int|
            match rows[i] {
                Some(cells) => Some(Seq::new(cells@.len(), |j: int| cells@[j]@)),
                None => None,
            },
    )
}

/// A value of a JSON object that is written out: a string or a number.
#[derive(Debug)]
pub enum Leaf {
    Text(String),
    Unsigned(u64),
}

/// What a leaf holds.
pub enum LeafView {
    Text(Seq<char>),
    Unsigned(u64),
}

impl View for Leaf {
    type V = LeafView;

    open spec fn view(&self) -> LeafView {
        match self {
            Leaf::Text(s) => LeafView::Text(s@),
            Leaf::Unsigned(n) => LeafView::Unsigned(*n),
        }
    }
}

/// A member of a JSON object that is written out: a leaf, or an object of
/// named leaves.
#[derive(Debug)]
pub enum Member {
    Leaf(Leaf),
    Group(Vec<(String, Leaf)>),
}

/// What a member holds.
pub enum MemberView {
    Leaf(LeafView),
    Group(Seq<(Seq<char>, LeafView)>),
}

/// What a list of named leaves holds.
pub open spec fn group_view(group: Seq<(String, Leaf)>) -> Seq<(Seq<char>, LeafView)> {
    Seq::new(group.len(), |i: int| (group[i].0@, group[i].1@))
}

impl View for Member {
    type V = MemberView;

    open spec fn view(&self) -> MemberView {
        match self {
            Member::Leaf(leaf) => MemberView::Leaf(leaf@),
            Member::Group(group) => MemberView::Group(group_view(group@)),
        }
    }
}

/// What a list of named members holds.
pub open spec fn members_view(members: Seq<(String, Member)>) -> Seq<(Seq<char>, MemberView)> {
    Seq::new(members.len(), |i: int| (members[i].0@, members[i].1@))
}

/// Whether `serde_json` reads the text as a JSON document.
pub uninterp spec fn json_valid(text: Seq<char>) -> bool;

/// The string that `serde_json` finds in the document at the JSON pointer.
pub uninterp spec fn json_str(text: Seq<char>, pointer: Seq<char>) -> Option<Seq<char>>;

/// The unsigned integer that `serde_json` finds in the document at the JSON
/// pointer.
pub uninterp spec fn json_u64(text: Seq<char>, pointer: Seq<char>) -> Option<u64>;

/// The array of rows that `serde_json` finds in the document at the JSON
/// pointer.
pub uninterp spec fn json_rows(text: Seq<char>, pointer: Seq<char>) -> Option<
    Seq<Option<Seq<CellView>>>,
>;

/// The text that `serde_json` writes for an object with these members.
pub uninterp spec fn json_render(members: Seq<(Seq<char>, MemberView)>) -> Seq<char>;

/// Calls `serde_json::from_str` for a `serde_json::Value`. The contract names
/// whether the text was accepted; the error, where it was not, is handed on
/// as the text that `serde_json` gives for it, of which nothing is claimed.
#[verifier::external_body]
pub(crate) fn check_document(text: &str) -> (r: Result<(), String>)
    ensures
        r is Ok <==> json_valid(text@),
{
    match serde_json::from_str::<serde_json::Value>(text) {
        Ok(_) => Ok(()),
        Err(e) => Err(e.to_string()),
    }
}

/// Calls `serde_json::from_str`, then `Value::pointer` and `Value::as_str` on
/// what it read. The contract names the result: the string at the pointer, or
/// `None` where the text is no JSON, nothing stands at the pointer or what
/// stands there is no string.
#[verifier::external_body]
pub(crate) fn str_at(text: &str, pointer: &str) -> (r: Option<String>)
    ensures
        r is Some == json_str(text@, pointer@) is Some,
        r matches Some(s) ==> s@ == json_str(text@, pointer@)->Some_0,
{
    let doc = serde_json::from_str::<serde_json::Value>(text).ok()?;
    doc.pointer(pointer)?.as_str().map(String::from)
}

/// Calls `serde_json::from_str`, then `Value::pointer` and `Value::as_u64` on
/// what it read. The contract names the result: the number at the pointer, or
/// `None` where the text is no JSON, nothing stands at the pointer or what
/// stands there is no integer from 0 to `u64::MAX`.
#[verifier::external_body]
pub(crate) fn u64_at(text: &str, pointer: &str) -> (r: Option<u64>)
    ensures
        r == json_u64(text@, pointer@),
{
    let doc = serde_json::from_str::<serde_json::Value>(text).ok()?;
    doc.pointer(pointer)?.as_u64()
}

/// Calls `serde_json::from_str`, then `Value::pointer` and `Value::as_array`
/// on what it read, and `Value::as_array` on each element. The contract names
/// the result: for each element of the array at the pointer its cells, a
/// string as it is and a number in the text of `Number`'s `Display`, or `None`
/// where the element is no array; `None` for the whole where the text is no
/// JSON, nothing stands at the pointer or what stands there is no array.
#[verifier::external_body]
pub(crate) fn rows_at(text: &str, pointer: &str) -> (r: Option<Vec<Option<Vec<Cell>>>>)
    ensures
        r is Some == json_rows(text@, pointer@) is Some,
        r matches Some(rows) ==> rows_view(rows@) == json_rows(text@, pointer@)->Some_0,
{
    let doc = serde_json::from_str::<serde_json::Value>(text).ok()?;
    let rows = doc.pointer(pointer)?.as_array()?;
    let cell = |c: &serde_json::Value| match c {
        serde_json::Value::String(s) => Cell::Text(s.clone()),
        serde_json::Value::Number(n) => Cell::Number(n.to_string()),
        _ => Cell::Other,
    };
    Some(rows.iter().map(|row| row.as_array().map(|cs| cs.iter().map(cell).collect())).collect())
}

/// Builds a `serde_json::Value::Object` of the members with `Map::insert` and
/// `Value::from`, and calls its `to_string`. The contract names the result.
#[verifier::external_body]
pub(crate) fn render(members: &Vec<(String, Member)>) -> (r: String)
    ensures
        r@ == json_render(members_view(members@)),
{
    let leaf = |l: &Leaf| match l {
        Leaf::Text(s) => serde_json::Value::from(s.as_str()),
        Leaf::Unsigned(n) => serde_json::Value::from(*n),
    };
    let mut top = serde_json::Map::new();
    for (name, member) in members {
        let value = match member {
            Member::Leaf(l) => leaf(l),
            Member::Group(g) => {
                serde_json::Value::Object(g.iter().map(|(k, l)| (k.clone(), leaf(l))).collect())
            },
        };
        top.insert(name.clone(), value);
    }
    serde_json::Value::Object(top).to_string()
}

} // verus!
