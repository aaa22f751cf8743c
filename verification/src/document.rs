//! TOML documents, as far as a manifest is read from them.
//!
//! Parsing is left to the `toml` crate. Its values are opaque here; what they
//! hold is named by [`value_node`], and the few accessors that the decoder
//! needs are given contracts over that name. These contracts are believed, not
//! proved: they restate what the accessors of `toml::Value` do.
//!
//! The parser descends once for each level of nesting and sets itself no
//! limit, so it is handed only texts that cannot nest deeply: those that
//! [`is_within_depth`] admits.

use vstd::prelude::*;

verus! {

/// `toml::Value`, carried as it is: nothing inside it is seen from here.
#[verifier::external_type_specification]
#[verifier::external_body]
pub struct ExValue(toml::Value);

/// `toml::de::Error`, carried as it is.
#[verifier::external_type_specification]
#[verifier::external_body]
pub struct ExParseError(toml::de::Error);

/// `core::str::Utf8Error`, carried as it is.
#[verifier::external_type_specification]
#[verifier::external_body]
pub struct ExUtf8Error(core::str::Utf8Error);

/// What a TOML value holds, as far as a manifest is concerned: a string, an
/// array, a table keyed by strings, or anything else (numbers, booleans,
/// dates), which a manifest field never is.
pub enum Node {
    Text(Seq<char>),
    Array(Seq<Node>),
    Table(Map<Seq<char>, Node>),
    Other,
}

/// What a `toml::Value` holds.
pub uninterp spec fn value_node(value: toml::Value) -> Node;

/// What `toml::from_str` makes of a text: the document's root table, or
/// nothing where the text is not a TOML document. It is asked only of texts
/// within the depth.
pub uninterp spec fn toml_document(text: Seq<char>) -> Option<Node>;

/// What each of a sequence of values holds.
pub open spec fn value_nodes(values: Seq<toml::Value>) -> Seq<Node> {
    Seq::new(values.len(), |i: int| value_node(values[i]))
}

/// The most opening brackets and braces that a text may hold to be parsed.
pub const MAX_OPENINGS: usize = 128;

/// The most dots that a text may hold to be parsed.
pub const MAX_DOTS: usize = 512;

/// How many characters of `text` are `one` or `other`.
pub open spec fn marks(text: Seq<char>, one: char, other: char) -> nat
    decreases text.len(),
{
    if text.len() == 0 {
        0
    } else {
        let before = marks(text.drop_last(), one, other);
        if text.last() == one || text.last() == other {
            before + 1
        } else {
            before
        }
    }
}

/// How many opening brackets and braces `text` holds, wherever they stand.
pub open spec fn openings(text: Seq<char>) -> nat {
    marks(text, '[', '{')
}

/// How many dots `text` holds, wherever they stand.
pub open spec fn dots(text: Seq<char>) -> nat {
    marks(text, '.', '.')
}

/// Whether `text` is sure not to nest deeply. In TOML every level of nesting
/// is opened by a `[`, by a `{`, or by a `.` in a dotted key or in the name
/// of a table, so a document nests no deeper than its text holds such
/// characters. Those inside strings and comments open nothing and are
/// counted all the same: the count is made without reading the text as TOML.
pub open spec fn within_depth(text: Seq<char>) -> bool {
    openings(text) <= MAX_OPENINGS && dots(text) <= MAX_DOTS
}

/// A part of a text from its start holds no more marks than the text.
proof fn lemma_marks_of_start(text: Seq<char>, upto: int, one: char, other: char)
    requires
        0 <= upto <= text.len(),
    ensures
        marks(text.take(upto), one, other) <= marks(text, one, other),
    decreases text.len() - upto,
{
    if upto == text.len() {
        assert(text.take(upto) =~= text);
    } else {
        lemma_marks_of_start(text, upto + 1, one, other);
        assert(text.take(upto + 1).drop_last() =~= text.take(upto));
    }
}

/// Whether `text` holds at most `limit` characters that are `one` or `other`.
fn marks_within(text: &str, one: char, other: char, limit: usize) -> (yes: bool)
    ensures
        yes == (marks(text@, one, other) <= limit),
{
    let mut count: usize = 0;
    for c in it: text.chars()
        invariant
            it.seq() == text@,
            count == marks(text@.take(it.index() as int), one, other),
            count <= limit,
    {
        let ghost at = it.index() as int;
        proof {
            assert(text@.take(at + 1).drop_last() =~= text@.take(at));
            assert(text@.take(at + 1).last() == c);
        }
        if c == one || c == other {
            if count == limit {
                proof {
                    lemma_marks_of_start(text@, at + 1, one, other);
                }
                return false;
            }
            count = count + 1;
        }
    }
    proof {
        assert(text@.take(text@.len() as int) =~= text@);
    }
    true
}

/// Whether `text` is sure not to nest deeply, and so may be parsed.
pub fn is_within_depth(text: &str) -> (yes: bool)
    ensures
        yes == within_depth(text@),
{
    marks_within(text, '[', '{', MAX_OPENINGS) && marks_within(text, '.', '.', MAX_DOTS)
}

/// `toml::from_str`, at the type `toml::Value`. The parser is a function of
/// the text alone: it gives the value named by [`toml_document`], and an
/// error exactly where that name holds nothing.
///
/// The parser calls itself once for each array and inline table inside
/// another and once for each part of a dotted key, the value is then built
/// and later dropped level by level, and none of this is limited by the
/// crate. On a text that nests deeply enough the stack runs out and the
/// process ends. Such texts are left out: a text within the depth nests no
/// deeper than it holds brackets, braces and dots, that is by no more than
/// `MAX_OPENINGS` arrays and inline tables and `MAX_DOTS` parts of names.
#[verifier::external_body]
pub(crate) fn parse_document(text: &str) -> (parsed: Result<toml::Value, toml::de::Error>)
    requires
        within_depth(text@),
    ensures
        match parsed {
            Ok(root) => toml_document(text@) == Some(value_node(root)),
            Err(_) => toml_document(text@) is None,
        },
{
    toml::from_str::<toml::Value>(text)
}

/// `toml::Value::as_str`: the string of a string value, and nothing for a
/// value of any other kind.
#[verifier::external_body]
pub(crate) fn value_as_str(value: &toml::Value) -> (found: Option<&str>)
    ensures
        match found {
            Some(s) => value_node(*value) == Node::Text(s@),
            None => !(value_node(*value) is Text),
        },
{
    value.as_str()
}

/// `toml::Value::as_array`: the items of an array value, and nothing for a
/// value of any other kind.
#[verifier::external_body]
pub(crate) fn value_as_array(value: &toml::Value) -> (found: Option<&Vec<toml::Value>>)
    ensures
        match found {
            Some(items) => value_node(*value) == Node::Array(value_nodes(items@)),
            None => !(value_node(*value) is Array),
        },
{
    value.as_array()
}

/// `toml::Value::is_table`: whether the value is a table.
#[verifier::external_body]
pub(crate) fn value_is_table(value: &toml::Value) -> (yes: bool)
    ensures
        yes == (value_node(*value) is Table),
{
    value.is_table()
}

/// `toml::Value::get` with a string index: the value under `key` where
/// `value` is a table that has the key, and nothing otherwise.
#[verifier::external_body]
pub(crate) fn value_get<'a>(value: &'a toml::Value, key: &str) -> (found: Option<&'a toml::Value>)
    ensures
        match found {
            Some(item) => value_node(*value) matches Node::Table(entries) && entries.contains_key(
                key@,
            ) && entries[key@] == value_node(*item),
            None => !(value_node(*value) matches Node::Table(entries) && entries.contains_key(
                key@,
            )),
        },
{
    value.get(key)
}

/// `core::str::from_utf8`: the text that the bytes encode, and an error
/// where the bytes are not UTF-8. The text is laid over the same bytes.
#[verifier::external_body]
pub(crate) fn utf8_text(bytes: &[u8]) -> (found: Result<&str, core::str::Utf8Error>)
    ensures
        match found {
            Ok(text) => vstd::utf8::valid_utf8(bytes@) && vstd::utf8::encode_utf8(text@) == bytes@,
            Err(_) => !vstd::utf8::valid_utf8(bytes@),
        },
{
    core::str::from_utf8(bytes)
}

} // verus!
