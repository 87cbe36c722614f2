//! JSON documents, as deep as a signaling message goes.
//!
//! The JSON grammar is `serde_json`'s. Here a document is an array or an object
//! of fields; a field is a single item or a record, which is an array or an
//! object of items. Objects are lists of named values in the order of the text:
//! a name that the text repeats is there more than once.
use serde::__private229::de::{Content, ContentVisitor};
use vstd::prelude::*;

use crate::text::same_text;

verus! {

/// A JSON value.
pub enum Json {
    Null,
    Bool(bool),
    /// An integer that is not negative and fits 64 bits.
    Natural(u64),
    /// A negative integer that fits 64 bits.
    Negative(i64),
    /// Any other number.
    Fraction,
    Text(Seq<char>),
    Array(Seq<Json>),
    /// Names and values, in the order of the text.
    Object(Seq<(Json, Json)>),
    /// A value that JSON does not have.
    Foreign,
}

/// The JSON value that `serde_json` reads from a text, or `None` where the text
/// is no JSON.
pub uninterp spec fn json_value(text: Seq<char>) -> Option<Json>;

/// The JSON value that a buffer holds.
pub uninterp spec fn content_json(content: Content) -> Json;

/// The text that `serde_json` writes for an object with these items.
pub uninterp spec fn json_text(items: Seq<(Seq<char>, ItemView)>) -> Seq<char>;

#[verifier::external_type_specification]
#[verifier::external_body]
pub struct ExContent<'de>(Content<'de>);

#[verifier::external_type_specification]
#[verifier::external_body]
pub struct ExJsonError(serde_json::Error);

/// Calls `deserialize_any` of `serde_json::Deserializer` with serde's own
/// `ContentVisitor`, the reader behind tagged messages, which keeps every name
/// of an object, repeated or not. (Its path carries serde's version, which is
/// pinned.) The claim is that the outcome is a function of the text: the value
/// called [`json_value`], or an error exactly where there is none.
#[verifier::external_body]
fn read_content(raw: &str) -> (content: Result<Content<'_>, serde_json::Error>)
    ensures
        content matches Ok(c) ==> json_value(raw@) == Some(content_json(c)),
        content is Err ==> json_value(raw@) is None,
{
    let mut reader = serde_json::Deserializer::from_str(raw);
    let content = serde::Deserializer::deserialize_any(&mut reader, ContentVisitor::new())?;
    reader.end()?;
    Ok(content)
}

/// One level of a JSON value.
enum Opened<'a> {
    Null,
    Bool(bool),
    Natural(u64),
    Negative(i64),
    Fraction,
    Text(&'a str),
    Array(&'a Vec<Content<'a>>),
    Object(&'a Vec<(Content<'a>, Content<'a>)>),
    Foreign,
}

/// The JSON value that an opened buffer shows.
spec fn opened_json(opened: Opened) -> Json {
    match opened {
        Opened::Null => Json::Null,
        Opened::Bool(b) => Json::Bool(b),
        Opened::Natural(n) => Json::Natural(n),
        Opened::Negative(n) => Json::Negative(n),
        Opened::Fraction => Json::Fraction,
        Opened::Text(s) => Json::Text(s@),
        Opened::Array(values) => Json::Array(values@.map_values(|c: Content| content_json(c))),
        Opened::Object(pairs) => Json::Object(
            pairs@.map_values(|p: (Content, Content)| (content_json(p.0), content_json(p.1))),
        ),
        Opened::Foreign => Json::Foreign,
    }
}

/// Tells the variants of serde's `Content` apart: those that JSON gives rise to
/// (null, true and false, the three kinds of numbers, texts, arrays, objects),
/// and all others.
#[verifier::external_body]
fn open<'a>(content: &'a Content<'a>) -> (opened: Opened<'a>)
    ensures
        content_json(*content) == opened_json(opened),
{
    match content {
        Content::Unit => Opened::Null,
        Content::Bool(b) => Opened::Bool(*b),
        Content::U64(n) => Opened::Natural(*n),
        Content::I64(n) => Opened::Negative(*n),
        Content::F64(_) => Opened::Fraction,
        Content::String(s) => Opened::Text(s),
        Content::Str(s) => Opened::Text(s),
        Content::Seq(values) => Opened::Array(values),
        Content::Map(pairs) => Opened::Object(pairs),
        _ => Opened::Foreign,
    }
}

/// A single value. Values that no signaling message carries are
/// [`Item::Other`].
#[derive(Debug)]
pub enum Item {
    Null,
    Text(String),
    Natural(u64),
    Other,
}

/// An array or an object of single values.
#[derive(Debug)]
pub enum Record {
    Array(Vec<Item>),
    Object(Vec<(String, Item)>),
}

/// One field of a document.
#[derive(Debug)]
pub enum Field {
    Item(Item),
    Record(Record),
}

/// An array or an object of fields.
#[derive(Debug)]
pub enum Document {
    Array(Vec<Field>),
    Object(Vec<(String, Field)>),
}

/// What an [`Item`] holds.
pub enum ItemView {
    Null,
    Text(Seq<char>),
    Natural(u64),
    Other,
}

/// What a [`Record`] holds.
pub enum RecordView {
    Array(Seq<ItemView>),
    Object(Seq<(Seq<char>, ItemView)>),
}

/// What a [`Field`] holds.
pub enum FieldView {
    Item(ItemView),
    Record(RecordView),
}

/// What a [`Document`] holds.
pub enum DocumentView {
    Array(Seq<FieldView>),
    Object(Seq<(Seq<char>, FieldView)>),
}

/// The names and values of a list of items.
pub open spec fn items_view(items: Seq<(String, Item)>) -> Seq<(Seq<char>, ItemView)> {
    items.map_values(|i: (String, Item)| (i.0@, i.1@))
}

/// The names and values of a list of fields.
pub open spec fn fields_view(fields: Seq<(String, Field)>) -> Seq<(Seq<char>, FieldView)> {
    fields.map_values(|f: (String, Field)| (f.0@, f.1@))
}

impl View for Item {
    type V = ItemView;

    open spec fn view(&self) -> ItemView {
        match self {
            Item::Null => ItemView::Null,
            Item::Text(s) => ItemView::Text(s@),
            Item::Natural(n) => ItemView::Natural(*n),
            Item::Other => ItemView::Other,
        }
    }
}

impl View for Record {
    type V = RecordView;

    open spec fn view(&self) -> RecordView {
        match self {
            Record::Array(items) => RecordView::Array(items@.map_values(|i: Item| i@)),
            Record::Object(items) => RecordView::Object(items_view(items@)),
        }
    }
}

impl View for Field {
    type V = FieldView;

    open spec fn view(&self) -> FieldView {
        match self {
            Field::Item(item) => FieldView::Item(item@),
            Field::Record(record) => FieldView::Record(record@),
        }
    }
}

impl View for Document {
    type V = DocumentView;

    open spec fn view(&self) -> DocumentView {
        match self {
            Document::Array(fields) => DocumentView::Array(fields@.map_values(|f: Field| f@)),
            Document::Object(fields) => DocumentView::Object(fields_view(fields@)),
        }
    }
}

/// The single value that a JSON value is.
pub open spec fn item_in(json: Json) -> ItemView {
    match json {
        Json::Null => ItemView::Null,
        Json::Text(s) => ItemView::Text(s),
        Json::Natural(n) => ItemView::Natural(n),
        _ => ItemView::Other,
    }
}

/// A name in an object. (In JSON every name is a text.)
pub open spec fn name_in(json: Json) -> Seq<char> {
    match json {
        Json::Text(s) => s,
        _ => Seq::empty(),
    }
}

/// The field that a JSON value is.
pub open spec fn field_in(json: Json) -> FieldView {
    match json {
        Json::Array(values) => FieldView::Record(
            RecordView::Array(values.map_values(|j: Json| item_in(j))),
        ),
        Json::Object(pairs) => FieldView::Record(
            RecordView::Object(pairs.map_values(|p: (Json, Json)| (name_in(p.0), item_in(p.1)))),
        ),
        _ => FieldView::Item(item_in(json)),
    }
}

/// The document that a JSON value is, or `None` where it is neither an array nor
/// an object.
pub open spec fn document_in(json: Json) -> Option<DocumentView> {
    match json {
        Json::Array(values) => Some(
            DocumentView::Array(values.map_values(|j: Json| field_in(j))),
        ),
        Json::Object(pairs) => Some(
            DocumentView::Object(
                pairs.map_values(|p: (Json, Json)| (name_in(p.0), field_in(p.1))),
            ),
        ),
        _ => None,
    }
}

/// The document that a text is.
pub open spec fn document_of(text: Seq<char>) -> Option<DocumentView> {
    match json_value(text) {
        Some(json) => document_in(json),
        None => None,
    }
}

fn read_item(content: &Content<'_>) -> (item: Item)
    ensures
        item@ == item_in(content_json(*content)),
{
    match open(content) {
        Opened::Null => Item::Null,
        Opened::Text(s) => Item::Text(s.to_owned()),
        Opened::Natural(n) => Item::Natural(n),
        _ => Item::Other,
    }
}

fn read_name(content: &Content<'_>) -> (name: String)
    ensures
        name@ == name_in(content_json(*content)),
{
    match open(content) {
        Opened::Text(s) => s.to_owned(),
        _ => {
            proof {
                reveal_strlit("");
                assert(""@ =~= Seq::<char>::empty());
            }
            "".to_owned()
        },
    }
}

fn read_items(values: &Vec<Content<'_>>) -> (items: Vec<Item>)
    ensures
        items@.map_values(|i: Item| i@) == values@.map_values(
            |c: Content| item_in(content_json(c)),
        ),
{
    let mut items: Vec<Item> = Vec::new();
    let mut i: usize = 0;
    while i < values.len()
        invariant
            i <= values.len(),
            items.len() == i,
            forall|k: int| 0 <= k < i ==> (#[trigger] items@[k])@ == item_in(content_json(values@[k])),
        decreases values.len() - i,
    {
        items.push(read_item(&values[i]));
        i = i + 1;
    }
    assert(items@.map_values(|i: Item| i@) =~= values@.map_values(
        |c: Content| item_in(content_json(c)),
    ));
    items
}

fn read_named_items(pairs: &Vec<(Content<'_>, Content<'_>)>) -> (items: Vec<(String, Item)>)
    ensures
        items_view(items@) == pairs@.map_values(
            |p: (Content, Content)| (name_in(content_json(p.0)), item_in(content_json(p.1))),
        ),
{
    let mut items: Vec<(String, Item)> = Vec::new();
    let mut i: usize = 0;
    while i < pairs.len()
        invariant
            i <= pairs.len(),
            items.len() == i,
            forall|k: int|
                0 <= k < i ==> (#[trigger] items@[k]).0@ == name_in(content_json(pairs@[k].0))
                    && items@[k].1@ == item_in(content_json(pairs@[k].1)),
        decreases pairs.len() - i,
    {
        items.push((read_name(&pairs[i].0), read_item(&pairs[i].1)));
        i = i + 1;
    }
    assert(items_view(items@) =~= pairs@.map_values(
        |p: (Content, Content)| (name_in(content_json(p.0)), item_in(content_json(p.1))),
    ));
    items
}

fn read_field(content: &Content<'_>) -> (field: Field)
    ensures
        field@ == field_in(content_json(*content)),
{
    match open(content) {
        Opened::Array(values) => {
            let items = read_items(values);
            proof {
                let json = values@.map_values(|c: Content| content_json(c));
                assert(json.map_values(|j: Json| item_in(j)) =~= values@.map_values(
                    |c: Content| item_in(content_json(c)),
                ));
            }
            Field::Record(Record::Array(items))
        },
        Opened::Object(pairs) => {
            let items = read_named_items(pairs);
            proof {
                let json = pairs@.map_values(
                    |p: (Content, Content)| (content_json(p.0), content_json(p.1)),
                );
                assert(json.map_values(|p: (Json, Json)| (name_in(p.0), item_in(p.1)))
                    =~= pairs@.map_values(
                    |p: (Content, Content)| (name_in(content_json(p.0)), item_in(content_json(p.1))),
                ));
            }
            Field::Record(Record::Object(items))
        },
        _ => Field::Item(read_item(content)),
    }
}

fn read_fields(values: &Vec<Content<'_>>) -> (fields: Vec<Field>)
    ensures
        fields@.map_values(|f: Field| f@) == values@.map_values(
            |c: Content| content_json(c),
        ).map_values(|j: Json| field_in(j)),
{
    let mut fields: Vec<Field> = Vec::new();
    let mut i: usize = 0;
    while i < values.len()
        invariant
            i <= values.len(),
            fields.len() == i,
            forall|k: int|
                0 <= k < i ==> (#[trigger] fields@[k])@ == field_in(content_json(values@[k])),
        decreases values.len() - i,
    {
        fields.push(read_field(&values[i]));
        i = i + 1;
    }
    assert(fields@.map_values(|f: Field| f@) =~= values@.map_values(
        |c: Content| content_json(c),
    ).map_values(|j: Json| field_in(j)));
    fields
}

fn read_named_fields(pairs: &Vec<(Content<'_>, Content<'_>)>) -> (fields: Vec<(String, Field)>)
    ensures
        fields_view(fields@) == pairs@.map_values(
            |p: (Content, Content)| (content_json(p.0), content_json(p.1)),
        ).map_values(|p: (Json, Json)| (name_in(p.0), field_in(p.1))),
{
    let mut fields: Vec<(String, Field)> = Vec::new();
    let mut i: usize = 0;
    while i < pairs.len()
        invariant
            i <= pairs.len(),
            fields.len() == i,
            forall|k: int|
                0 <= k < i ==> (#[trigger] fields@[k]).0@ == name_in(content_json(pairs@[k].0))
                    && fields@[k].1@ == field_in(content_json(pairs@[k].1)),
        decreases pairs.len() - i,
    {
        fields.push((read_name(&pairs[i].0), read_field(&pairs[i].1)));
        i = i + 1;
    }
    assert(fields_view(fields@) =~= pairs@.map_values(
        |p: (Content, Content)| (content_json(p.0), content_json(p.1)),
    ).map_values(|p: (Json, Json)| (name_in(p.0), field_in(p.1))));
    fields
}

/// What an optional document holds.
pub open spec fn read_view(read: Option<Document>) -> Option<DocumentView> {
    match read {
        Some(document) => Some(document@),
        None => None,
    }
}

/// Reads a document from its text; `None` where the text is no JSON array or
/// object.
pub fn read_document(raw: &str) -> (read: Option<Document>)
    ensures
        read_view(read) == document_of(raw@),
{
    match read_content(raw) {
        Ok(content) => match open(&content) {
            Opened::Array(values) => Some(Document::Array(read_fields(values))),
            Opened::Object(pairs) => Some(Document::Object(read_named_fields(pairs))),
            _ => None,
        },
        Err(_) => None,
    }
}

/// The names in a list of named values.
pub open spec fn names_in<V>(values: Seq<(Seq<char>, V)>) -> Seq<Seq<char>> {
    values.map_values(|v: (Seq<char>, V)| v.0)
}

/// Where a name stands in a list.
pub enum Place {
    Missing,
    At(int),
    Repeated,
}

/// The name stands at this position and nowhere else.
pub open spec fn only_at(names: Seq<Seq<char>>, name: Seq<char>, at: int) -> bool {
    &&& 0 <= at < names.len()
    &&& names[at] == name
    &&& forall|i: int| 0 <= i < names.len() && i != at ==> #[trigger] names[i] != name
}

/// Where a name stands in a list.
pub open spec fn place(names: Seq<Seq<char>>, name: Seq<char>) -> Place {
    if !names.contains(name) {
        Place::Missing
    } else if exists|at: int| only_at(names, name, at) {
        Place::At(choose|at: int| only_at(names, name, at))
    } else {
        Place::Repeated
    }
}

/// A name that stands at one position only stands there.
pub proof fn lemma_place(names: Seq<Seq<char>>, name: Seq<char>, at: int)
    requires
        only_at(names, name, at),
    ensures
        place(names, name) == Place::At(at),
{
    let chosen = choose|at: int| only_at(names, name, at);
    assert(only_at(names, name, chosen));
    assert(chosen == at);
}

/// A position in a list of named values.
#[derive(Clone, Copy, Debug, PartialEq, Eq, Structural)]
pub enum Position {
    Missing,
    At(usize),
    Repeated,
}

/// The place that a position is.
pub open spec fn position_place(position: Position) -> Place {
    match position {
        Position::Missing => Place::Missing,
        Position::At(i) => Place::At(i as int),
        Position::Repeated => Place::Repeated,
    }
}

/// The names in a list of named values.
pub open spec fn names_of<T>(values: Seq<(String, T)>) -> Seq<Seq<char>> {
    values.map_values(|v: (String, T)| v.0@)
}

/// Looks for a name.
pub fn find_name<T>(values: &Vec<(String, T)>, name: &str) -> (position: Position)
    ensures
        position_place(position) == place(names_of(values@), name@),
        position matches Position::At(i) ==> i < values.len(),
        position matches Position::At(i) ==> values@[i as int].0@ == name@ && forall|k: int|
            0 <= k < values.len() && k != i ==> (#[trigger] values@[k]).0@ != name@,
        position is Missing ==> forall|k: int|
            0 <= k < values.len() ==> (#[trigger] values@[k]).0@ != name@,
        position is Repeated ==> exists|i: int, k: int|
            0 <= i < k < values.len() && (#[trigger] values@[i]).0@ == name@ && (
            #[trigger] values@[k]).0@ == name@,
{
    let ghost names = names_of(values@);
    let mut found: Option<usize> = None;
    let mut i: usize = 0;
    while i < values.len()
        invariant
            i <= values.len(),
            names == names_of(values@),
            forall|k: int| 0 <= k < values.len() ==> #[trigger] names[k] == values@[k].0@,
            found is None ==> forall|k: int| 0 <= k < i ==> #[trigger] names[k] != name@,
            found matches Some(at) ==> at < i && names[at as int] == name@ && forall|k: int|
                0 <= k < i && k != at ==> #[trigger] names[k] != name@,
        decreases values.len() - i,
    {
        assert(names[i as int] == values@[i as int].0@);
        if same_text(values[i].0.as_str(), name) {
            match found {
                None => {
                    found = Some(i);
                },
                Some(at) => {
                    assert(names[at as int] == name@ && names[i as int] == name@);
                    assert(values@[at as int].0@ == name@ && values@[i as int].0@ == name@);
                    assert(names.contains(name@));
                    assert forall|k: int| !only_at(names, name@, k) by {}
                    return Position::Repeated;
                },
            }
        }
        i = i + 1;
    }
    match found {
        None => {
            assert(!names.contains(name@));
            assert forall|k: int| 0 <= k < values.len() implies (#[trigger] values@[k]).0@
                != name@ by {
                assert(names[k] == values@[k].0@);
            }
            Position::Missing
        },
        Some(at) => {
            proof {
                lemma_place(names, name@, at as int);
                assert forall|k: int| 0 <= k < values.len() && k != at implies (
                #[trigger] values@[k]).0@ != name@ by {
                    assert(names[k] == values@[k].0@);
                }
            }
            Position::At(at)
        },
    }
}

/// No two names are the same.
pub open spec fn distinct(names: Seq<Seq<char>>) -> bool {
    forall|i: int, j: int| 0 <= i < j < names.len() ==> #[trigger] names[i] != #[trigger] names[j]
}

/// Every item is one that a message can be written with.
pub open spec fn writable(items: Seq<(Seq<char>, ItemView)>) -> bool {
    forall|i: int| 0 <= i < items.len() ==> (#[trigger] items[i]).1 !is Other
}

/// The JSON value of an item that can be written.
pub open spec fn item_json(item: ItemView) -> Json {
    match item {
        ItemView::Null => Json::Null,
        ItemView::Text(s) => Json::Text(s),
        ItemView::Natural(n) => Json::Natural(n),
        ItemView::Other => Json::Foreign,
    }
}

/// The JSON object with these items.
pub open spec fn object_json(items: Seq<(Seq<char>, ItemView)>) -> Json {
    Json::Object(items.map_values(|i: (Seq<char>, ItemView)| (Json::Text(i.0), item_json(i.1))))
}

/// Calls `serde_json::Value::to_string` on an object with these items, in this
/// order (`serde_json` keeps it: the feature `preserve_order` is on). The claim
/// is that the text, called [`json_text`], is a function of the items, and that
/// it reads back as that object.
#[verifier::external_body]
pub(crate) fn write_object(items: Vec<(String, Item)>) -> (text: String)
    requires
        distinct(names_in(items_view(items@))),
        writable(items_view(items@)),
    ensures
        text@ == json_text(items_view(items@)),
        json_value(text@) == Some(object_json(items_view(items@))),
{
    let value = |item| match item {
        Item::Null => serde_json::Value::Null,
        Item::Text(text) => serde_json::Value::String(text),
        Item::Natural(n) => serde_json::Value::Number(n.into()),
        Item::Other => serde_json::Value::Null,
    };
    let object: serde_json::Map<String, serde_json::Value> =
        items.into_iter().map(|(name, item)| (name, value(item))).collect();
    serde_json::Value::Object(object).to_string()
}

/// What a document with these items holds.
pub open spec fn items_document(items: Seq<(Seq<char>, ItemView)>) -> DocumentView {
    DocumentView::Object(
        items.map_values(|i: (Seq<char>, ItemView)| (i.0, FieldView::Item(i.1))),
    )
}

/// An object that can be written is the document with its items.
pub proof fn written_items_read_back(items: Seq<(Seq<char>, ItemView)>)
    requires
        writable(items),
    ensures
        document_in(object_json(items)) == Some(items_document(items)),
{
    let pairs = items.map_values(
        |i: (Seq<char>, ItemView)| (Json::Text(i.0), item_json(i.1)),
    );
    let read = pairs.map_values(|p: (Json, Json)| (name_in(p.0), field_in(p.1)));
    let fields = items.map_values(|i: (Seq<char>, ItemView)| (i.0, FieldView::Item(i.1)));
    assert forall|k: int| 0 <= k < items.len() implies read[k] == fields[k] by {
        assert(items[k].1 !is Other);
    }
    assert(read =~= fields);
}

/// A name is missing where it stands nowhere, at a position where it stands there
/// alone, and repeated where it stands at two.
pub proof fn names_have_their_places(names: Seq<Seq<char>>, name: Seq<char>)
    ensures
        place(names, name) is Missing <==> forall|i: int|
            0 <= i < names.len() ==> #[trigger] names[i] != name,
        forall|at: int|
            #![trigger names[at]]
            place(names, name) == Place::At(at) <==> 0 <= at < names.len() && names[at] == name
                && forall|i: int| 0 <= i < names.len() && i != at ==> #[trigger] names[i] != name,
        place(names, name) is Repeated <==> exists|i: int, j: int|
            0 <= i < j < names.len() && #[trigger] names[i] == name && #[trigger] names[j] == name,
{
    if place(names, name) is At {
        let chosen = choose|at: int| only_at(names, name, at);
        assert(only_at(names, name, chosen));
    }
    assert forall|at: int|
        #![trigger names[at]]
        0 <= at < names.len() && names[at] == name && (forall|i: int|
            0 <= i < names.len() && i != at ==> #[trigger] names[i] != name) implies place(
        names,
        name,
    ) == Place::At(at) by {
        lemma_place(names, name, at);
    }
    if place(names, name) is Repeated {
        let i = choose|i: int| 0 <= i < names.len() && names[i] == name;
        assert(!only_at(names, name, i));
        let k = choose|k: int| 0 <= k < names.len() && k != i && names[k] == name;
        if i < k {
            assert(names[i] == name && names[k] == name);
        } else {
            assert(names[k] == name && names[i] == name);
        }
    }
}

/// A value is a text, a natural number or null as it stands; any other value is
/// none that a message carries.
pub proof fn items_are_their_values(json: Json)
    ensures
        forall|s: Seq<char>| #[trigger] item_in(Json::Text(s)) == ItemView::Text(s),
        forall|n: u64| #[trigger] item_in(Json::Natural(n)) == ItemView::Natural(n),
        item_in(Json::Null) == ItemView::Null,
        item_in(json) is Other <==> !(json is Text || json is Natural || json is Null),
{
}

/// A document has every value of its text, in order and under its name, and so
/// has every array and object in it.
pub proof fn documents_are_taken_whole(values: Seq<Json>, pairs: Seq<(Json, Json)>)
    ensures
        document_in(Json::Array(values)) matches Some(DocumentView::Array(fields)) && fields.len()
            == values.len() && forall|i: int|
            0 <= i < values.len() ==> #[trigger] fields[i] == field_in(values[i]),
        document_in(Json::Object(pairs)) matches Some(DocumentView::Object(fields))
            && fields.len() == pairs.len() && forall|i: int|
            0 <= i < pairs.len() ==> (#[trigger] fields[i]).1 == field_in(pairs[i].1) && (
            pairs[i].0 matches Json::Text(name) ==> fields[i].0 == name),
        field_in(Json::Array(values)) matches FieldView::Record(RecordView::Array(items))
            && items.len() == values.len() && forall|i: int|
            0 <= i < values.len() ==> #[trigger] items[i] == item_in(values[i]),
        field_in(Json::Object(pairs)) matches FieldView::Record(RecordView::Object(items))
            && items.len() == pairs.len() && forall|i: int|
            0 <= i < pairs.len() ==> (#[trigger] items[i]).1 == item_in(pairs[i].1) && (
            pairs[i].0 matches Json::Text(name) ==> items[i].0 == name),
{
}

/// Only an array or an object is a document, and only an array or an object in it
/// is a record.
pub proof fn single_values_are_no_documents(json: Json)
    ensures
        document_in(json) is None <==> !(json is Array || json is Object),
        forall|text: Seq<char>|
            json_value(text) == Some(json) ==> #[trigger] document_of(text) == document_in(json),
        forall|text: Seq<char>|
            json_value(text) is None ==> #[trigger] document_of(text) is None,
        forall|document: Document| #[trigger] read_view(Some(document)) == Some(document@),
        read_view(None) is None,
        field_in(json) is Item <==> !(json is Array || json is Object),
        field_in(json) matches FieldView::Item(item) ==> item == item_in(json),
{
}

/// What is known of a document is what it holds.
pub proof fn documents_are_their_contents(
    item: Item,
    items: Vec<Item>,
    named: Vec<(String, Item)>,
    fields: Vec<Field>,
    named_fields: Vec<(String, Field)>,
)
    ensures
        item matches Item::Text(s) ==> item@ == ItemView::Text(s@),
        item matches Item::Natural(n) ==> item@ == ItemView::Natural(n),
        item is Null ==> item@ is Null,
        item is Other ==> item@ is Other,
        Field::Item(item)@ == FieldView::Item(item@),
        Field::Record(Record::Array(items))@ == FieldView::Record(Record::Array(items)@),
        Record::Array(items)@ matches RecordView::Array(seen) && seen.len() == items@.len()
            && forall|i: int| 0 <= i < items@.len() ==> #[trigger] seen[i] == items@[i]@,
        Record::Object(named)@ matches RecordView::Object(seen) && seen.len() == named@.len()
            && forall|i: int|
            0 <= i < named@.len() ==> #[trigger] seen[i] == (named@[i].0@, named@[i].1@),
        Document::Array(fields)@ matches DocumentView::Array(seen) && seen.len() == fields@.len()
            && forall|i: int| 0 <= i < fields@.len() ==> #[trigger] seen[i] == fields@[i]@,
        Document::Object(named_fields)@ matches DocumentView::Object(seen) && seen.len()
            == named_fields@.len() && forall|i: int|
            0 <= i < named_fields@.len() ==> #[trigger] seen[i] == (
                named_fields@[i].0@,
                named_fields@[i].1@,
            ),
{
}

} // verus!
