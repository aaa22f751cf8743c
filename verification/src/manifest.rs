//! Decoding a manifest into a package record.
//!
//! A manifest is a TOML document with a `package` table. Decoding is
//! structural: the six known keys of that table are read, every other key is
//! ignored, and a record comes out only if each required key holds a value of
//! the right shape and no optional key holds one of the wrong shape.
//!
//! A text with very many brackets, braces or dots is refused before it is
//! parsed: see [`within_depth`].

use vstd::prelude::*;
use crate::document::{
    is_within_depth, parse_document, toml_document, utf8_text, value_as_array, value_as_str,
    value_get, value_is_table, value_node, value_nodes, within_depth, Node,
};
use crate::record::{text_if_any, texts, texts_if_any, PackageInfo, PackageText};

verus! {

/// The keys of a manifest that the decoder knows.
#[derive(Clone, Copy, Debug, PartialEq, Eq)]
pub enum Key {
    Package,
    Name,
    Version,
    Authors,
    Description,
    Repository,
    Keywords,
}

/// How a key is spelled in a manifest.
pub open spec fn key_text(key: Key) -> Seq<char> {
    match key {
        Key::Package => "package"@,
        Key::Name => "name"@,
        Key::Version => "version"@,
        Key::Authors => "authors"@,
        Key::Description => "description"@,
        Key::Repository => "repository"@,
        Key::Keywords => "keywords"@,
    }
}

impl Key {
    /// How the key is spelled in a manifest.
    pub fn as_str(&self) -> (spelling: &'static str)
        ensures
            spelling@ == key_text(*self),
    {
        match self {
            Key::Package => "package",
            Key::Name => "name",
            Key::Version => "version",
            Key::Authors => "authors",
            Key::Description => "description",
            Key::Repository => "repository",
            Key::Keywords => "keywords",
        }
    }
}

/// Why a manifest could not be decoded.
#[derive(Clone, Copy, Debug, PartialEq, Eq)]
pub enum DecodeError {
    /// The bytes are not UTF-8.
    Encoding,
    /// The text holds more opening brackets and braces, or more dots, than a
    /// text may hold to be parsed. It is refused unread, whatever it says.
    Nesting,
    /// The text is not a TOML document.
    Syntax,
    /// The key is required and the manifest does not have it.
    Missing(Key),
    /// The key holds a value of the wrong shape.
    WrongShape(Key),
}

/// What was found under one key of the package table.
#[derive(Debug, PartialEq, Eq)]
pub enum Field {
    /// The table has no such key.
    Absent,
    /// A string.
    Text(String),
    /// An array of strings, possibly empty.
    List(Vec<String>),
    /// A value of any other shape.
    Other,
}

/// The mathematical content of a [`Field`].
pub enum FieldText {
    Absent,
    Text(Seq<char>),
    List(Seq<Seq<char>>),
    Other,
}

impl View for Field {
    type V = FieldText;

    open spec fn view(&self) -> FieldText {
        match self {
            Field::Absent => FieldText::Absent,
            Field::Text(s) => FieldText::Text(s@),
            Field::List(items) => FieldText::List(texts(items@)),
            Field::Other => FieldText::Other,
        }
    }
}

/// What was found under each known key of the package table.
#[derive(Debug, PartialEq, Eq)]
pub struct Fields {
    pub name: Field,
    pub version: Field,
    pub authors: Field,
    pub description: Field,
    pub repository: Field,
    pub keywords: Field,
}

/// The mathematical content of a [`Fields`].
pub struct FieldsText {
    pub name: FieldText,
    pub version: FieldText,
    pub authors: FieldText,
    pub description: FieldText,
    pub repository: FieldText,
    pub keywords: FieldText,
}

impl View for Fields {
    type V = FieldsText;

    open spec fn view(&self) -> FieldsText {
        FieldsText {
            name: self.name@,
            version: self.version@,
            authors: self.authors@,
            description: self.description@,
            repository: self.repository@,
            keywords: self.keywords@,
        }
    }
}

/// Whether every item is a string.
pub open spec fn all_text(items: Seq<Node>) -> bool {
    forall|i: int| 0 <= i < items.len() ==> (#[trigger] items[i]) is Text
}

/// The string of a string node.
pub open spec fn node_text(node: Node) -> Seq<char> {
    match node {
        Node::Text(s) => s,
        _ => Seq::empty(),
    }
}

/// The strings of a sequence of string nodes.
pub open spec fn node_texts(items: Seq<Node>) -> Seq<Seq<char>> {
    Seq::new(items.len(), |i: int| node_text(items[i]))
}

/// The shape of a value: a string, an array of nothing but strings, or
/// something else.
pub open spec fn shape_of(node: Node) -> FieldText {
    match node {
        Node::Text(s) => FieldText::Text(s),
        Node::Array(items) => if all_text(items) {
            FieldText::List(node_texts(items))
        } else {
            FieldText::Other
        },
        _ => FieldText::Other,
    }
}

/// What a table holds under a key. Anything that is not a table holds
/// nothing under any key.
pub open spec fn field_at(table: Node, key: Seq<char>) -> FieldText {
    match table {
        Node::Table(entries) => if entries.contains_key(key) {
            shape_of(entries[key])
        } else {
            FieldText::Absent
        },
        _ => FieldText::Absent,
    }
}

/// What a package table holds under the known keys.
pub open spec fn fields_of(table: Node) -> FieldsText {
    FieldsText {
        name: field_at(table, key_text(Key::Name)),
        version: field_at(table, key_text(Key::Version)),
        authors: field_at(table, key_text(Key::Authors)),
        description: field_at(table, key_text(Key::Description)),
        repository: field_at(table, key_text(Key::Repository)),
        keywords: field_at(table, key_text(Key::Keywords)),
    }
}

/// A required string: it must be there, and be a string.
pub open spec fn required_text(field: FieldText, key: Key) -> Result<Seq<char>, DecodeError> {
    match field {
        FieldText::Text(s) => Ok(s),
        FieldText::Absent => Err(DecodeError::Missing(key)),
        _ => Err(DecodeError::WrongShape(key)),
    }
}

/// A required list of strings: it must be there, and be an array of strings.
pub open spec fn required_list(field: FieldText, key: Key) -> Result<Seq<Seq<char>>, DecodeError> {
    match field {
        FieldText::List(items) => Ok(items),
        FieldText::Absent => Err(DecodeError::Missing(key)),
        _ => Err(DecodeError::WrongShape(key)),
    }
}

/// An optional string: it may be absent, but if it is there it is a string.
pub open spec fn optional_text(field: FieldText, key: Key) -> Result<
    Option<Seq<char>>,
    DecodeError,
> {
    match field {
        FieldText::Text(s) => Ok(Some(s)),
        FieldText::Absent => Ok(None),
        _ => Err(DecodeError::WrongShape(key)),
    }
}

/// An optional list of strings: it may be absent, but if it is there it is an
/// array of strings.
pub open spec fn optional_list(field: FieldText, key: Key) -> Result<
    Option<Seq<Seq<char>>>,
    DecodeError,
> {
    match field {
        FieldText::List(items) => Ok(Some(items)),
        FieldText::Absent => Ok(None),
        _ => Err(DecodeError::WrongShape(key)),
    }
}

/// The record that the fields of a package table make, or the first fault
/// among them, taken in the order name, version, authors, description,
/// repository, keywords.
pub open spec fn package_of(fields: FieldsText) -> Result<PackageText, DecodeError> {
    match required_text(fields.name, Key::Name) {
        Err(e) => Err(e),
        Ok(name) => match required_text(fields.version, Key::Version) {
            Err(e) => Err(e),
            Ok(version) => match required_list(fields.authors, Key::Authors) {
                Err(e) => Err(e),
                Ok(authors) => match optional_text(fields.description, Key::Description) {
                    Err(e) => Err(e),
                    Ok(description) => match optional_text(fields.repository, Key::Repository) {
                        Err(e) => Err(e),
                        Ok(repository) => match optional_list(fields.keywords, Key::Keywords) {
                            Err(e) => Err(e),
                            Ok(keywords) => Ok(
                                PackageText {
                                    name,
                                    version,
                                    authors,
                                    description,
                                    repository,
                                    keywords,
                                },
                            ),
                        },
                    },
                },
            },
        },
    }
}

/// The record that a document makes: that of its `package` table. The
/// table must be there, and be a table.
pub open spec fn manifest_of(root: Node) -> Result<PackageText, DecodeError> {
    match root {
        Node::Table(entries) => if entries.contains_key(key_text(Key::Package)) {
            let package = entries[key_text(Key::Package)];
            if package is Table {
                package_of(fields_of(package))
            } else {
                Err(DecodeError::WrongShape(Key::Package))
            }
        } else {
            Err(DecodeError::Missing(Key::Package))
        },
        _ => Err(DecodeError::Missing(Key::Package)),
    }
}

/// The record that a text makes: that of the document it is parsed to. A
/// text that is not within the depth is not parsed at all.
pub open spec fn manifest_of_text(text: Seq<char>) -> Result<PackageText, DecodeError> {
    if !within_depth(text) {
        Err(DecodeError::Nesting)
    } else {
        match toml_document(text) {
            Some(root) => manifest_of(root),
            None => Err(DecodeError::Syntax),
        }
    }
}

/// The record that the bytes of a manifest make: that of the text they
/// encode.
pub open spec fn manifest_of_bytes(bytes: Seq<u8>) -> Result<PackageText, DecodeError> {
    if vstd::utf8::valid_utf8(bytes) {
        manifest_of_text(vstd::utf8::decode_utf8(bytes))
    } else {
        Err(DecodeError::Encoding)
    }
}

/// The mathematical content of what decoding returns.
pub open spec fn decoded(outcome: Result<PackageInfo, DecodeError>) -> Result<
    PackageText,
    DecodeError,
> {
    match outcome {
        Ok(record) => Ok(record@),
        Err(e) => Err(e),
    }
}

/// Finds the shape of a value.
fn classify(value: &toml::Value) -> (field: Field)
    ensures
        field@ == shape_of(value_node(*value)),
{
    match value_as_str(value) {
        Some(s) => Field::Text(s.to_owned()),
        None => match value_as_array(value) {
            Some(items) => {
                let ghost nodes = value_nodes(items@);
                let mut list: Vec<String> = Vec::new();
                let mut i: usize = 0;
                while i < items.len()
                    invariant
                        i <= items.len(),
                        nodes == value_nodes(items@),
                        value_node(*value) == Node::Array(nodes),
                        list@.len() == i,
                        forall|j: int| 0 <= j < i ==> nodes[j] == Node::Text(#[trigger] list@[j]@),
                    decreases items.len() - i,
                {
                    match value_as_str(&items[i]) {
                        Some(s) => {
                            list.push(s.to_owned());
                        },
                        None => {
                            assert(!(nodes[i as int] is Text));
                            return Field::Other;
                        },
                    }
                    i = i + 1;
                }
                assert(all_text(nodes)) by {
                    assert forall|j: int| 0 <= j < nodes.len() implies (
                    #[trigger] nodes[j]) is Text by {
                        assert(nodes[j] == Node::Text(list@[j]@));
                    }
                }
                assert(texts(list@) =~= node_texts(nodes)) by {
                    assert forall|j: int| 0 <= j < nodes.len() implies texts(list@)[j]
                        == node_texts(nodes)[j] by {
                        assert(nodes[j] == Node::Text(list@[j]@));
                    }
                }
                Field::List(list)
            },
            None => Field::Other,
        },
    }
}

/// Reads what a table holds under a key.
fn read_field(table: &toml::Value, key: Key) -> (field: Field)
    ensures
        field@ == field_at(value_node(*table), key_text(key)),
{
    match value_get(table, key.as_str()) {
        Some(value) => classify(value),
        None => Field::Absent,
    }
}

/// Reads what a package table holds under the known keys.
pub fn read_fields(table: &toml::Value) -> (fields: Fields)
    ensures
        fields@ == fields_of(value_node(*table)),
{
    Fields {
        name: read_field(table, Key::Name),
        version: read_field(table, Key::Version),
        authors: read_field(table, Key::Authors),
        description: read_field(table, Key::Description),
        repository: read_field(table, Key::Repository),
        keywords: read_field(table, Key::Keywords),
    }
}

/// Takes a required string out of a field.
fn take_text(field: Field, key: Key) -> (taken: Result<String, DecodeError>)
    ensures
        match taken {
            Ok(s) => required_text(field@, key) == Ok::<Seq<char>, DecodeError>(s@),
            Err(e) => required_text(field@, key) == Err::<Seq<char>, DecodeError>(e),
        },
{
    match field {
        Field::Text(s) => Ok(s),
        Field::Absent => Err(DecodeError::Missing(key)),
        _ => Err(DecodeError::WrongShape(key)),
    }
}

/// Takes a required list of strings out of a field.
fn take_list(field: Field, key: Key) -> (taken: Result<Vec<String>, DecodeError>)
    ensures
        match taken {
            Ok(items) => required_list(field@, key) == Ok::<Seq<Seq<char>>, DecodeError>(
                texts(items@),
            ),
            Err(e) => required_list(field@, key) == Err::<Seq<Seq<char>>, DecodeError>(e),
        },
{
    match field {
        Field::List(items) => Ok(items),
        Field::Absent => Err(DecodeError::Missing(key)),
        _ => Err(DecodeError::WrongShape(key)),
    }
}

/// Takes an optional string out of a field.
fn take_optional_text(field: Field, key: Key) -> (taken: Result<Option<String>, DecodeError>)
    ensures
        match taken {
            Ok(item) => optional_text(field@, key) == Ok::<Option<Seq<char>>, DecodeError>(
                text_if_any(item),
            ),
            Err(e) => optional_text(field@, key) == Err::<Option<Seq<char>>, DecodeError>(e),
        },
{
    match field {
        Field::Text(s) => Ok(Some(s)),
        Field::Absent => Ok(None),
        _ => Err(DecodeError::WrongShape(key)),
    }
}

/// Takes an optional list of strings out of a field.
fn take_optional_list(field: Field, key: Key) -> (taken: Result<Option<Vec<String>>, DecodeError>)
    ensures
        match taken {
            Ok(items) => optional_list(field@, key) == Ok::<Option<Seq<Seq<char>>>, DecodeError>(
                texts_if_any(items),
            ),
            Err(e) => optional_list(field@, key) == Err::<Option<Seq<Seq<char>>>, DecodeError>(e),
        },
{
    match field {
        Field::List(items) => Ok(Some(items)),
        Field::Absent => Ok(None),
        _ => Err(DecodeError::WrongShape(key)),
    }
}

impl PackageInfo {
    /// Makes a record of the fields of a package table, or reports the first
    /// fault among them.
    pub fn from_fields(fields: Fields) -> (outcome: Result<PackageInfo, DecodeError>)
        ensures
            decoded(outcome) == package_of(fields@),
    {
        let Fields { name, version, authors, description, repository, keywords } = fields;
        let name = match take_text(name, Key::Name) {
            Ok(s) => s,
            Err(e) => { return Err(e); },
        };
        let version = match take_text(version, Key::Version) {
            Ok(s) => s,
            Err(e) => { return Err(e); },
        };
        let authors = match take_list(authors, Key::Authors) {
            Ok(items) => items,
            Err(e) => { return Err(e); },
        };
        let description = match take_optional_text(description, Key::Description) {
            Ok(item) => item,
            Err(e) => { return Err(e); },
        };
        let repository = match take_optional_text(repository, Key::Repository) {
            Ok(item) => item,
            Err(e) => { return Err(e); },
        };
        let keywords = match take_optional_list(keywords, Key::Keywords) {
            Ok(items) => items,
            Err(e) => { return Err(e); },
        };
        Ok(PackageInfo { name, version, authors, description, repository, keywords })
    }
}

/// Decodes a parsed document.
pub fn decode_document(root: &toml::Value) -> (outcome: Result<PackageInfo, DecodeError>)
    ensures
        decoded(outcome) == manifest_of(value_node(*root)),
{
    match value_get(root, Key::Package.as_str()) {
        None => Err(DecodeError::Missing(Key::Package)),
        Some(package) => {
            if value_is_table(package) {
                PackageInfo::from_fields(read_fields(package))
            } else {
                Err(DecodeError::WrongShape(Key::Package))
            }
        },
    }
}

/// Decodes the text of a manifest. The text is parsed only if it is within
/// the depth; otherwise it is refused, so that no text can run the parser
/// out of stack.
pub fn decode_text(text: &str) -> (outcome: Result<PackageInfo, DecodeError>)
    ensures
        decoded(outcome) == manifest_of_text(text@),
{
    if !is_within_depth(text) {
        return Err(DecodeError::Nesting);
    }
    match parse_document(text) {
        Ok(root) => decode_document(&root),
        Err(_) => Err(DecodeError::Syntax),
    }
}

/// Decodes the bytes of a manifest. Nothing comes out of a manifest that is
/// faulty in any part.
pub fn decode(bytes: &[u8]) -> (outcome: Result<PackageInfo, DecodeError>)
    ensures
        decoded(outcome) == manifest_of_bytes(bytes@),
{
    match utf8_text(bytes) {
        Ok(text) => {
            proof {
                vstd::utf8::encode_utf8_decode_utf8(text@);
            }
            decode_text(text)
        },
        Err(_) => Err(DecodeError::Encoding),
    }
}

/// A document that has no `package` key is rejected, whatever else it holds.
pub proof fn lemma_missing_package_rejected(root: Map<Seq<char>, Node>)
    requires
        !root.contains_key(key_text(Key::Package)),
    ensures
        manifest_of(Node::Table(root)) == Err::<PackageText, DecodeError>(
            DecodeError::Missing(Key::Package),
        ),
{
}

/// A document whose package table has no `name` key is rejected, whatever
/// else the table holds.
pub proof fn lemma_missing_name_rejected(root: Map<Seq<char>, Node>, package: Map<Seq<char>, Node>)
    requires
        root.contains_key(key_text(Key::Package)),
        root[key_text(Key::Package)] == Node::Table(package),
        !package.contains_key(key_text(Key::Name)),
    ensures
        manifest_of(Node::Table(root)) == Err::<PackageText, DecodeError>(
            DecodeError::Missing(Key::Name),
        ),
{
}

/// Keys that the decoder does not know are ignored: one more such key, in
/// the package table or beside it, holding anything at all, leaves the
/// outcome of decoding as it was.
pub proof fn lemma_unknown_key_ignored(
    root: Map<Seq<char>, Node>,
    package: Map<Seq<char>, Node>,
    key: Seq<char>,
    value: Node,
)
    requires
        forall|known: Key| key != #[trigger] key_text(known),
    ensures
        manifest_of(Node::Table(root.insert(key, value))) == manifest_of(Node::Table(root)),
        manifest_of(
            Node::Table(
                root.insert(key_text(Key::Package), Node::Table(package.insert(key, value))),
            ),
        ) == manifest_of(
            Node::Table(root.insert(key_text(Key::Package), Node::Table(package))),
        ),
{
    assert(key != key_text(Key::Package));
    assert(key != key_text(Key::Name));
    assert(key != key_text(Key::Version));
    assert(key != key_text(Key::Authors));
    assert(key != key_text(Key::Description));
    assert(key != key_text(Key::Repository));
    assert(key != key_text(Key::Keywords));
}

} // verus!
