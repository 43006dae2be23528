//! Structured text documents, as far as this library reads them, and the
//! parser of package descriptors.

use vstd::prelude::*;

verus! {

/// What a value of a structured text document holds. A table maps its keys to
/// the values under them; whatever is neither a string nor a table is `Other`.
pub enum Node {
    Text(Seq<char>),
    Table(Map<Seq<char>, Node>),
    Other,
}

impl Node {
    /// The value under `key`, where this node is a table that has the key.
    pub open spec fn entry(self, key: Seq<char>) -> Option<Node> {
        match self {
            Node::Table(entries) => if entries.contains_key(key) {
                Some(entries[key])
            } else {
                None
            },
            _ => None,
        }
    }

    /// The string under `key`, where this node is a table that holds a string
    /// under the key.
    pub open spec fn text_at(self, key: Seq<char>) -> Option<Seq<char>> {
        match self.entry(key) {
            Some(Node::Text(text)) => Some(text),
            _ => None,
        }
    }

    /// The entries of this node, where it is a table; else none.
    pub open spec fn entries(self) -> Map<Seq<char>, Node> {
        match self {
            Node::Table(entries) => entries,
            _ => Map::empty(),
        }
    }

    /// The table under `key`, where this node is a table that holds one
    /// there; else a node that holds nothing.
    pub open spec fn section(self, key: Seq<char>) -> Node {
        match self.entry(key) {
            Some(Node::Table(entries)) => Node::Table(entries),
            _ => Node::Other,
        }
    }

    /// Whether a string can be put into the table under `key`: this node is a
    /// table that holds a table there, or nothing.
    pub open spec fn open_at(self, key: Seq<char>) -> bool {
        self is Table && match self.entry(key) {
            Some(node) => node is Table,
            None => true,
        }
    }

    /// This table with an empty table under `key`.
    pub open spec fn with_table(self, key: Seq<char>) -> Node {
        Node::Table(self.entries().insert(key, Node::Table(Map::empty())))
    }

    /// This table with the string `text` under `key` of the table under
    /// `section`, which is made if it is not there.
    pub open spec fn put(self, section: Seq<char>, key: Seq<char>, text: Seq<char>) -> Node {
        Node::Table(
            self.entries().insert(
                section,
                Node::Table(self.section(section).entries().insert(key, Node::Text(text))),
            ),
        )
    }

    /// This table without the entry under `key` of the table under `section`.
    pub open spec fn cut(self, section: Seq<char>, key: Seq<char>) -> Node {
        match self.entry(section) {
            Some(Node::Table(entries)) => Node::Table(
                self.entries().insert(section, Node::Table(entries.remove(key))),
            ),
            _ => self,
        }
    }
}

#[verifier::external_type_specification]
#[verifier::external_body]
pub struct ExValue(toml::Value);

/// The document that `text` denotes, as `toml::Value::from_str` reads it: the
/// table of its top level. `None` where the text is no such document.
pub uninterp spec fn toml_document(text: Seq<char>) -> Option<Node>;

/// What a `toml::Value` holds: `Text` for its `String` variant, `Table` for
/// its `Table` variant with the node of each entry, `Other` for the rest.
pub uninterp spec fn value_node(value: toml::Value) -> Node;

/// Calls `toml::Value::from_str` through `str::parse`. The contract names the
/// result: the value parsed holds the document that the text denotes, and
/// parsing fails exactly where the text denotes none.
#[verifier::external_body]
pub(crate) fn parse_value(text: &str) -> (parsed: Option<toml::Value>)
    ensures
        parsed matches Some(value) ==> toml_document(text@) == Some(value_node(value)),
        parsed is None ==> toml_document(text@) is None,
{
    match text.parse::<toml::Value>() {
        Ok(value) => Some(value),
        Err(_) => None,
    }
}

/// Calls `toml::Value::get` with a string index: the value under `key` where
/// `value` is a table that has the key, else `None`.
#[verifier::external_body]
pub(crate) fn value_get<'a>(value: &'a toml::Value, key: &str) -> (found: Option<&'a toml::Value>)
    ensures
        found matches Some(inner) ==> value_node(*value).entry(key@) == Some(value_node(*inner)),
        found is None ==> value_node(*value).entry(key@) is None,
{
    value.get(key)
}

/// Calls `toml::Value::as_str`: the string where `value` is one, else `None`.
#[verifier::external_body]
pub(crate) fn value_as_str<'a>(value: &'a toml::Value) -> (found: Option<&'a str>)
    ensures
        found matches Some(text) ==> value_node(*value) == Node::Text(text@),
        found is None ==> !(value_node(*value) is Text),
{
    value.as_str()
}

/// The string under `key` of the table `value`, if it holds one there.
pub(crate) fn text_at(value: &toml::Value, key: &str) -> (found: Option<String>)
    ensures
        found matches Some(text) ==> value_node(*value).text_at(key@) == Some(text@),
        found is None ==> value_node(*value).text_at(key@) is None,
{
    match value_get(value, key) {
        Some(inner) => match value_as_str(inner) {
            Some(text) => Some(text.to_owned()),
            None => None,
        },
        None => None,
    }
}

} // verus!
