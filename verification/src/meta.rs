//! The metadata of a document and the parser of its metadata block.
//!
//! The block is a TOML document. Of its keys three are read: `title`,
//! `datetime` and `description`, each a string. A key that is left out
//! keeps the value it has by default; a key that holds anything but a
//! string, or a `datetime` that spells no date, makes the whole block
//! invalid. A date is spelled as `2015-09-18 23:56:04`, the form in which
//! a page shows it, or with a `T` between the date and the time.

use crate::timestamp::{spelled, Timestamp};
use vstd::prelude::*;

verus! {

/// The map that toml keeps a table in.
#[verifier::external_type_specification]
#[verifier::external_body]
#[verifier::reject_recursive_types(K)]
#[verifier::reject_recursive_types(V)]
pub struct ExTomlMap<K, V>(toml::map::Map<K, V>);

/// A value of a TOML document.
#[verifier::external_type_specification]
#[verifier::external_body]
pub struct ExTomlValue(toml::Value);

/// toml's error for a text that is no TOML document.
#[verifier::external_type_specification]
#[verifier::external_body]
pub struct ExTomlError(toml::de::Error);

/// What a document says of itself.
#[derive(Debug)]
pub struct Meta {
    pub title: String,
    pub datetime: Timestamp,
    pub description: Option<String>,
}

/// A document's metadata as plain values.
pub ghost struct MetaView {
    pub title: Seq<char>,
    /// Seconds since the start of 1970, and nanoseconds within the second.
    pub datetime: (int, int),
    pub description: Option<Seq<char>>,
}

impl View for Meta {
    type V = MetaView;

    open spec fn view(&self) -> MetaView {
        MetaView {
            title: self.title@,
            datetime: self.datetime@,
            description: self.description.deep_view(),
        }
    }
}

impl DeepView for Meta {
    type V = MetaView;

    open spec fn deep_view(&self) -> MetaView {
        self@
    }
}

/// The metadata of a document that says nothing of itself: no title, the
/// start of 1970, no description.
pub open spec fn blank() -> MetaView {
    MetaView { title: Seq::empty(), datetime: (0, 0), description: None }
}

impl Default for Meta {
    fn default() -> (meta: Meta)
        ensures
            meta@ == blank(),
    {
        Meta { title: String::new(), datetime: Timestamp::epoch(), description: None }
    }
}

impl Meta {
    /// The metadata of a document that says nothing of itself but has a name.
    pub fn titled(title: &str) -> (meta: Meta)
        ensures
            meta@ == (MetaView { title: title@, ..blank() }),
    {
        Meta { title: title.to_owned(), datetime: Timestamp::epoch(), description: None }
    }

    /// A copy of this metadata.
    pub fn duplicate(&self) -> (copy: Meta)
        ensures
            copy@ == self@,
    {
        let description = match &self.description {
            Some(text) => Some(text.clone()),
            None => None,
        };
        Meta { title: self.title.clone(), datetime: self.datetime, description }
    }
}

/// What a metadata block holds under one key.
#[derive(Debug)]
pub enum Field {
    /// The key is not there.
    Absent,
    /// The key holds a string.
    Text(String),
    /// The key holds something else.
    Other,
}

/// A field as plain values.
pub ghost enum FieldView {
    Absent,
    Text(Seq<char>),
    Other,
}

impl View for Field {
    type V = FieldView;

    open spec fn view(&self) -> FieldView {
        match self {
            Field::Absent => FieldView::Absent,
            Field::Text(text) => FieldView::Text(text@),
            Field::Other => FieldView::Other,
        }
    }
}

/// Why a metadata block is invalid.
#[derive(Clone, Copy, Debug, PartialEq, Eq, Structural)]
pub enum MetaError {
    /// The block is no TOML document.
    Syntax,
    /// `title` is no string.
    Title,
    /// `datetime` is no string, or spells no date and time.
    Datetime,
    /// `description` is no string.
    Description,
}

impl MetaError {
    /// What is wrong, in words.
    pub open spec fn text(self) -> Seq<char> {
        match self {
            MetaError::Syntax => "the metadata block is no TOML document"@,
            MetaError::Title => "`title` is no string"@,
            MetaError::Datetime => "`datetime` is no string that spells a date and time"@,
            MetaError::Description => "`description` is no string"@,
        }
    }

    /// Says what is wrong, for a log.
    pub fn describe(&self) -> (out: String)
        ensures
            out@ == self.text(),
    {
        match self {
            MetaError::Syntax => "the metadata block is no TOML document".to_owned(),
            MetaError::Title => "`title` is no string".to_owned(),
            MetaError::Datetime => "`datetime` is no string that spells a date and time".to_owned(),
            MetaError::Description => "`description` is no string".to_owned(),
        }
    }
}

/// What a TOML table holds: for each key that holds a string, the string;
/// for each other key, that it holds something else.
pub uninterp spec fn table_entries(table: toml::map::Map<String, toml::Value>) -> Map<
    Seq<char>,
    FieldView,
>;

/// What the TOML document `text` holds at its top level; `None` where the
/// text is no TOML document.
pub uninterp spec fn toml_entries(text: Seq<char>) -> Option<Map<Seq<char>, FieldView>>;

/// What the entries hold under `key`.
pub open spec fn field(entries: Map<Seq<char>, FieldView>, key: Seq<char>) -> FieldView {
    if entries.dom().contains(key) {
        entries[key]
    } else {
        FieldView::Absent
    }
}

/// `toml::de::from_str` for a table: the table of the document, or the
/// parser's error where the text is no TOML document.
#[verifier::external_body]
fn read_table(text: &str) -> (table: Result<toml::map::Map<String, toml::Value>, toml::de::Error>)
    ensures
        match table {
            Ok(t) => toml_entries(text@) == Some(table_entries(t)),
            Err(_) => toml_entries(text@) is None,
        },
{
    toml::de::from_str::<toml::map::Map<String, toml::Value>>(text)
}

/// `toml::map::Map::get`: what the table holds under the key.
#[verifier::external_body]
fn table_field(table: &toml::map::Map<String, toml::Value>, key: &str) -> (found: Field)
    ensures
        found@ == field(table_entries(*table), key@),
{
    match table.get(key) {
        None => Field::Absent,
        Some(toml::Value::String(text)) => Field::Text(text.clone()),
        Some(_) => Field::Other,
    }
}

/// The metadata that three fields give over a default: each field that is
/// there replaces the default's value, each that is absent keeps it.
pub open spec fn merged(
    title: FieldView,
    datetime: FieldView,
    description: FieldView,
    default: MetaView,
) -> Result<MetaView, MetaError> {
    if title is Other {
        Err(MetaError::Title)
    } else if datetime is Other || (datetime matches FieldView::Text(text) && spelled(text)
        is None) {
        Err(MetaError::Datetime)
    } else if description is Other {
        Err(MetaError::Description)
    } else {
        Ok(
            MetaView {
                title: match title {
                    FieldView::Text(text) => text,
                    _ => default.title,
                },
                datetime: match datetime {
                    FieldView::Text(text) => spelled(text)->0,
                    _ => default.datetime,
                },
                description: match description {
                    FieldView::Text(text) => Some(text),
                    _ => default.description,
                },
            },
        )
    }
}

/// The metadata that a block's text gives over a default.
pub open spec fn parsed(raw: Seq<char>, default: MetaView) -> Result<MetaView, MetaError> {
    match toml_entries(raw) {
        None => Err(MetaError::Syntax),
        Some(entries) => merged(
            field(entries, "title"@),
            field(entries, "datetime"@),
            field(entries, "description"@),
            default,
        ),
    }
}

/// The metadata of a document whose metadata block, if it has one, reads
/// `captured`: what the block gives over the default, and the default
/// itself where there is no block or the block is invalid.
pub open spec fn resolved(captured: Option<Seq<char>>, default: MetaView) -> MetaView {
    match captured {
        None => default,
        Some(raw) => match parsed(raw, default) {
            Ok(meta) => meta,
            Err(_) => default,
        },
    }
}

/// Why the metadata block of a document is passed over, if it has one and
/// it is invalid.
pub open spec fn failure(captured: Option<Seq<char>>) -> Option<MetaError> {
    match captured {
        None => None,
        Some(raw) => match parsed(raw, blank()) {
            Ok(_) => None,
            Err(error) => Some(error),
        },
    }
}

/// Whether a block is invalid, and why, does not depend on the default it
/// is read over: the default stands exactly when there is a failure.
pub proof fn failure_is_that_of_any_default(raw: Seq<char>, default: MetaView)
    ensures
        match parsed(raw, default) {
            Ok(meta) => failure(Some(raw)) is None && resolved(Some(raw), default) == meta,
            Err(error) => failure(Some(raw)) == Some(error) && resolved(Some(raw), default)
                == default,
        },
{
}

/// A result with its metadata as plain values.
pub open spec fn outcome(result: Result<Meta, MetaError>) -> Result<MetaView, MetaError> {
    match result {
        Ok(meta) => Ok(meta@),
        Err(error) => Err(error),
    }
}

/// Puts the three fields of a metadata block over a default.
pub fn merge(title: Field, datetime: Field, description: Field, default: &Meta) -> (result: Result<
    Meta,
    MetaError,
>)
    ensures
        outcome(result) == merged(title@, datetime@, description@, default@),
{
    let title = match title {
        Field::Absent => default.title.clone(),
        Field::Text(text) => text,
        Field::Other => {
            return Err(MetaError::Title);
        },
    };
    let datetime = match datetime {
        Field::Absent => default.datetime,
        Field::Text(text) => match Timestamp::parse(text.as_str()) {
            Some(timestamp) => timestamp,
            None => {
                return Err(MetaError::Datetime);
            },
        },
        Field::Other => {
            return Err(MetaError::Datetime);
        },
    };
    let description = match description {
        Field::Absent => match &default.description {
            Some(text) => Some(text.clone()),
            None => None,
        },
        Field::Text(text) => Some(text),
        Field::Other => {
            return Err(MetaError::Description);
        },
    };
    Ok(Meta { title, datetime, description })
}

/// Reads the text of a metadata block over a default.
pub fn parse(raw: &str, default: &Meta) -> (result: Result<Meta, MetaError>)
    ensures
        outcome(result) == parsed(raw@, default@),
{
    match read_table(raw) {
        Err(_) => Err(MetaError::Syntax),
        Ok(table) => {
            let title = table_field(&table, "title");
            let datetime = table_field(&table, "datetime");
            let description = table_field(&table, "description");
            merge(title, datetime, description, default)
        },
    }
}

/// Why the metadata block of a document is passed over, if it has one and
/// it is invalid: what a caller writes to its log.
pub fn check(captured: &Option<String>) -> (error: Option<MetaError>)
    ensures
        error == failure(captured.deep_view()),
{
    match captured {
        None => None,
        Some(raw) => match parse(raw.as_str(), &Meta::default()) {
            Ok(_) => None,
            Err(error) => Some(error),
        },
    }
}

/// The metadata of a document, given the text of its metadata block if it
/// has one. An invalid block is passed over: the default stands.
pub fn resolve(captured: Option<String>, default: Meta) -> (meta: Meta)
    ensures
        meta@ == resolved(captured.deep_view(), default@),
{
    match captured {
        None => default,
        Some(raw) => match parse(raw.as_str(), &default) {
            Ok(meta) => meta,
            Err(_) => default,
        },
    }
}

} // verus!
