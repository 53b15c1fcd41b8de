use vstd::prelude::*;

use crate::model::{node_at, set_path, Toml};
use toml_edit::{DocumentMut, Item, Value};

verus! {

#[verifier::external_type_specification]
#[verifier::external_body]
pub struct ExDocumentMut(DocumentMut);

/// The abstract content of a document: the mapping of its root table, with
/// every node reduced to the shape in `Toml`. Formatting, comments and the
/// distinction between standard and inline tables are not part of it.
pub uninterp spec fn doc_model(d: DocumentMut) -> Map<Seq<char>, Toml>;

/// What parsing a given text yields: `None` when the text is not well-formed
/// TOML, otherwise the abstract content of the parsed document. Parsing is a
/// function of the text alone.
pub uninterp spec fn parsed_model(s: Seq<char>) -> Option<Map<Seq<char>, Toml>>;

/// Whether the document lies in the fragment that the encoder renders
/// faithfully. Outside it stand documents that only direct use of `toml_edit`
/// can build: one holding a table that is both empty and marked implicit
/// (the encoder skips such a table, so its key would be lost on rendering),
/// or one whose raw trailing text was replaced by something ill-formed.
/// Parsing puts a document in the fragment, and every edit of this module
/// keeps it there: none creates an implicit table or touches the trailing
/// text.
pub uninterp spec fn doc_well_formed(d: DocumentMut) -> bool;

/// The shape of one node, as the read wrappers report it.
#[derive(Clone, Copy, PartialEq, Eq, Structural)]
pub enum NodeKind {
    Absent,
    StringValue,
    BoolValue,
    OtherScalarValue,
    ArrayValue,
    TableLike,
    OtherNode,
}

/// The `NodeKind` that corresponds to a node of the abstract model.
pub open spec fn kind_of(n: Option<Toml>) -> NodeKind {
    match n {
        None => NodeKind::Absent,
        Some(Toml::Str(_)) => NodeKind::StringValue,
        Some(Toml::Boolean(_)) => NodeKind::BoolValue,
        Some(Toml::OtherScalar) => NodeKind::OtherScalarValue,
        Some(Toml::Arr(_)) => NodeKind::ArrayValue,
        Some(Toml::SubTable(_)) => NodeKind::TableLike,
        Some(Toml::OtherItem) => NodeKind::OtherNode,
    }
}


/// Relies on `Table::get` (which treats `Item::None` entries as missing) and
/// on the variants of `Item` and `Value`: classifies the root entry under
/// `k1`.
#[verifier::external_body]
pub(crate) fn kind_at1(d: &DocumentMut, k1: &str) -> (k: NodeKind)
    ensures
        k == kind_of(node_at(doc_model(*d), seq![k1@])),
{
    match d.get(k1) {
        None => NodeKind::Absent,
        Some(Item::Value(Value::String(_))) => NodeKind::StringValue,
        Some(Item::Value(Value::Boolean(_))) => NodeKind::BoolValue,
        Some(Item::Value(Value::Array(_))) => NodeKind::ArrayValue,
        Some(Item::Value(Value::InlineTable(_))) => NodeKind::TableLike,
        Some(Item::Value(_)) => NodeKind::OtherScalarValue,
        Some(Item::Table(_)) => NodeKind::TableLike,
        Some(Item::ArrayOfTables(_)) => NodeKind::OtherNode,
        Some(Item::None) => NodeKind::Absent,
    }
}

/// Relies on `Item::get` for string indices, which steps through standard and
/// inline tables alike: classifies the node under `k1.k2`.
#[verifier::external_body]
pub(crate) fn kind_at2(d: &DocumentMut, k1: &str, k2: &str) -> (k: NodeKind)
    requires
        node_at(doc_model(*d), seq![k1@]) matches Some(Toml::SubTable(_)),
    ensures
        k == kind_of(node_at(doc_model(*d), seq![k1@, k2@])),
{
    match d.get(k1).and_then(|i| i.get(k2)) {
        None => NodeKind::Absent,
        Some(Item::Value(Value::String(_))) => NodeKind::StringValue,
        Some(Item::Value(Value::Boolean(_))) => NodeKind::BoolValue,
        Some(Item::Value(Value::Array(_))) => NodeKind::ArrayValue,
        Some(Item::Value(Value::InlineTable(_))) => NodeKind::TableLike,
        Some(Item::Value(_)) => NodeKind::OtherScalarValue,
        Some(Item::Table(_)) => NodeKind::TableLike,
        Some(Item::ArrayOfTables(_)) => NodeKind::OtherNode,
        Some(Item::None) => NodeKind::Absent,
    }
}

/// Relies on `Item::get` for string indices: classifies the node under
/// `k1.k2.k3`.
#[verifier::external_body]
pub(crate) fn kind_at3(d: &DocumentMut, k1: &str, k2: &str, k3: &str) -> (k: NodeKind)
    requires
        node_at(doc_model(*d), seq![k1@, k2@]) matches Some(Toml::SubTable(_)),
    ensures
        k == kind_of(node_at(doc_model(*d), seq![k1@, k2@, k3@])),
{
    match d.get(k1).and_then(|i| i.get(k2)).and_then(|i| i.get(k3)) {
        None => NodeKind::Absent,
        Some(Item::Value(Value::String(_))) => NodeKind::StringValue,
        Some(Item::Value(Value::Boolean(_))) => NodeKind::BoolValue,
        Some(Item::Value(Value::Array(_))) => NodeKind::ArrayValue,
        Some(Item::Value(Value::InlineTable(_))) => NodeKind::TableLike,
        Some(Item::Value(_)) => NodeKind::OtherScalarValue,
        Some(Item::Table(_)) => NodeKind::TableLike,
        Some(Item::ArrayOfTables(_)) => NodeKind::OtherNode,
        Some(Item::None) => NodeKind::Absent,
    }
}

/// Relies on `Item::get` for string indices: classifies the node under
/// `k1.k2.k3.k4`.
#[verifier::external_body]
pub(crate) fn kind_at4(d: &DocumentMut, k1: &str, k2: &str, k3: &str, k4: &str) -> (k: NodeKind)
    requires
        node_at(doc_model(*d), seq![k1@, k2@, k3@]) matches Some(Toml::SubTable(_)),
    ensures
        k == kind_of(node_at(doc_model(*d), seq![k1@, k2@, k3@, k4@])),
{
    match d.get(k1).and_then(|i| i.get(k2)).and_then(|i| i.get(k3)).and_then(|i| i.get(k4)) {
        None => NodeKind::Absent,
        Some(Item::Value(Value::String(_))) => NodeKind::StringValue,
        Some(Item::Value(Value::Boolean(_))) => NodeKind::BoolValue,
        Some(Item::Value(Value::Array(_))) => NodeKind::ArrayValue,
        Some(Item::Value(Value::InlineTable(_))) => NodeKind::TableLike,
        Some(Item::Value(_)) => NodeKind::OtherScalarValue,
        Some(Item::Table(_)) => NodeKind::TableLike,
        Some(Item::ArrayOfTables(_)) => NodeKind::OtherNode,
        Some(Item::None) => NodeKind::Absent,
    }
}

/// Relies on `Item::as_array` and `Array::len`: the number of elements of the
/// array under `k1`.
#[verifier::external_body]
pub(crate) fn arr_len_at1(d: &DocumentMut, k1: &str) -> (n: usize)
    requires
        node_at(doc_model(*d), seq![k1@]) matches Some(Toml::Arr(_)),
    ensures
        node_at(doc_model(*d), seq![k1@]) matches Some(Toml::Arr(items)) ==> n == items.len(),
{
    d.get(k1).unwrap().as_array().unwrap().len()
}

/// Relies on `Array::get` and `Value::as_str`: the element at index `i` of the
/// array under `k1`, as a string when and only when it is one.
#[verifier::external_body]
pub(crate) fn arr_str_at1(d: &DocumentMut, k1: &str, i: usize) -> (r: Option<String>)
    requires
        node_at(doc_model(*d), seq![k1@]) matches Some(Toml::Arr(items)) && i < items.len(),
    ensures
        node_at(doc_model(*d), seq![k1@]) matches Some(Toml::Arr(items)) ==> match r {
            Some(s) => items[i as int] == Toml::Str(s@),
            None => !(items[i as int] is Str),
        },
{
    let v = d.get(k1).unwrap().as_array().unwrap().get(i).unwrap();
    v.as_str().map(|s| s.to_owned())
}

/// Relies on `Array::new`, `Array::push` and table indexing: sets the root
/// entry `k1` to a one-element array holding the string `s`, whatever stood
/// there before.
#[verifier::external_body]
pub(crate) fn arr_create_at1(d: &mut DocumentMut, k1: &str, s: &str)
    ensures
        doc_model(*final(d)) == set_path(
            doc_model(*old(d)),
            seq![k1@],
            Toml::Arr(seq![Toml::Str(s@)]),
        ),
        doc_well_formed(*old(d)) ==> doc_well_formed(*final(d)),
{
    let mut a = toml_edit::Array::new();
    a.push(s);
    d[k1] = toml_edit::value(a);
}

/// Relies on `Item::as_array_mut` and `Array::push`: appends the string `s` to
/// the array under `k1`, keeping the existing elements and their order.
#[verifier::external_body]
pub(crate) fn arr_push_at1(d: &mut DocumentMut, k1: &str, s: &str)
    requires
        node_at(doc_model(*old(d)), seq![k1@]) matches Some(Toml::Arr(_)),
    ensures
        node_at(doc_model(*old(d)), seq![k1@]) matches Some(Toml::Arr(items))
            && doc_model(*final(d)) == set_path(
            doc_model(*old(d)),
            seq![k1@],
            Toml::Arr(items.push(Toml::Str(s@))),
        ),
        doc_well_formed(*old(d)) ==> doc_well_formed(*final(d)),
{
    d[k1].as_array_mut().unwrap().push(s);
}

/// Relies on `Table::new` and table indexing: sets the root entry `k1` to an
/// explicit table holding one explicit empty table under `k2`, whatever stood
/// there before.
#[verifier::external_body]
pub(crate) fn table_create_nested2(d: &mut DocumentMut, k1: &str, k2: &str)
    ensures
        doc_model(*final(d)) == set_path(
            doc_model(*old(d)),
            seq![k1@],
            Toml::SubTable(
                Map::<Seq<char>, Toml>::empty().insert(
                    k2@,
                    Toml::SubTable(Map::<Seq<char>, Toml>::empty()),
                ),
            ),
        ),
        doc_well_formed(*old(d)) ==> doc_well_formed(*final(d)),
{
    let mut outer = toml_edit::Table::new();
    outer[k2] = toml_edit::Item::Table(toml_edit::Table::new());
    d[k1] = toml_edit::Item::Table(outer);
}

/// Relies on `IndexMut` for `DocumentMut` and `Item`, which steps through
/// table-like nodes, creates a table-like node where a key is missing, and
/// panics on any other node: sets the value under `k1.k2.k3` to the string
/// `s`.
#[verifier::external_body]
pub(crate) fn set_str_at3(d: &mut DocumentMut, k1: &str, k2: &str, k3: &str, s: &str)
    requires
        crate::model::navigable(doc_model(*old(d)), seq![k1@, k2@]),
    ensures
        doc_model(*final(d)) == set_path(doc_model(*old(d)), seq![k1@, k2@, k3@], Toml::Str(s@)),
        doc_well_formed(*old(d)) ==> doc_well_formed(*final(d)),
{
    d[k1][k2][k3] = toml_edit::value(s);
}

/// Relies on `IndexMut` for `DocumentMut` and `Item`, as `set_str_at3` does:
/// sets the value under `k1.k2.k3.k4` to the boolean `b`.
#[verifier::external_body]
pub(crate) fn set_bool_at4(d: &mut DocumentMut, k1: &str, k2: &str, k3: &str, k4: &str, b: bool)
    requires
        crate::model::navigable(doc_model(*old(d)), seq![k1@, k2@, k3@]),
    ensures
        doc_model(*final(d)) == set_path(
            doc_model(*old(d)),
            seq![k1@, k2@, k3@, k4@],
            Toml::Boolean(b),
        ),
        doc_well_formed(*old(d)) ==> doc_well_formed(*final(d)),
{
    d[k1][k2][k3][k4] = toml_edit::value(b);
}

/// Relies on `FromStr` for `DocumentMut`: parses TOML text, failing exactly on
/// text that is not well-formed TOML. Empty text is well-formed and parses to
/// the empty document.
#[verifier::external_body]
pub(crate) fn parse_doc(s: &str) -> (r: Result<DocumentMut, ()>)
    ensures
        r matches Ok(d) ==> parsed_model(s@) == Some(doc_model(d)),
        r matches Ok(d) ==> doc_well_formed(d),
        r is Err <==> parsed_model(s@) is None,
        s@.len() == 0 ==> match r {
            Ok(d) => doc_model(d) == Map::<Seq<char>, Toml>::empty(),
            Err(_) => false,
        },
{
    match s.parse::<DocumentMut>() {
        Ok(d) => Ok(d),
        Err(_) => Err(()),
    }
}

/// Relies on `Display` for `DocumentMut` and on the crate's round-trip
/// behaviour: for a document in the faithfully rendered fragment
/// (`doc_well_formed`; the encoder skips a table that is both empty and
/// implicit, which the fragment excludes), the rendered text is well-formed
/// TOML that parses back to a document with the same content. Formatting of
/// the regions that were not edited is kept, which the model does not track.
#[verifier::external_body]
pub(crate) fn render_doc(d: &DocumentMut) -> (r: String)
    requires
        doc_well_formed(*d),
    ensures
        parsed_model(r@) == Some(doc_model(*d)),
{
    d.to_string()
}

} // verus!
