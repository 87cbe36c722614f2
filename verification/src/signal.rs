//! Signaling messages and their JSON wire format.
//!
//! | message            | wire form                                                                     |
//! |--------------------|-------------------------------------------------------------------------------|
//! | SDP offer          | `{"type":"offer","sdp":"..."}`                                                |
//! | SDP answer         | `{"type":"answer","sdp":"..."}`                                               |
//! | ICE candidate      | `{"type":"candidate","candidate":"...","sdpMid":"...","sdpMLineIndex":0}`     |
//!
//! A candidate's `sdpMid` and `sdpMLineIndex` are `null` where they are not set,
//! and its `usernameFragment` is left out.
//!
//! On the way in, any of the three may be `null` or missing. Fields that the
//! message does not use are ignored; one that it uses must not be repeated. A
//! candidate may also come whole in the field `candidate`, as an object or as
//! the array of its four values, and a message as the array of its type and its
//! `sdp` or whole candidate.
use vstd::prelude::*;

use crate::json::{
    distinct, document_of, field_in, fields_view, find_name, item_in, items_document, items_view,
    json_text, json_value, lemma_place, name_in, names_have_their_places, names_in, names_of,
    object_json, only_at, place, read_document, writable, write_object, written_items_read_back,
    Document, DocumentView, Field, FieldView, Item, ItemView, Json, Place, Position, Record,
    RecordView,
};
use crate::text::same_text;

verus! {

/// An ICE candidate as the two sides exchange it.
#[derive(Debug)]
pub struct IceCandidateInit {
    pub candidate: String,
    pub sdp_mid: Option<String>,
    pub sdp_mline_index: Option<u16>,
    pub username_fragment: Option<String>,
}

/// What an [`IceCandidateInit`] holds.
pub struct IceCandidateView {
    pub candidate: Seq<char>,
    pub sdp_mid: Option<Seq<char>>,
    pub sdp_mline_index: Option<u16>,
    pub username_fragment: Option<Seq<char>>,
}

/// The text in an optional string.
pub open spec fn text_in(s: Option<String>) -> Option<Seq<char>> {
    match s {
        Some(t) => Some(t@),
        None => None,
    }
}

impl View for IceCandidateInit {
    type V = IceCandidateView;

    open spec fn view(&self) -> IceCandidateView {
        IceCandidateView {
            candidate: self.candidate@,
            sdp_mid: text_in(self.sdp_mid),
            sdp_mline_index: self.sdp_mline_index,
            username_fragment: text_in(self.username_fragment),
        }
    }
}

/// WebRTC signaling message (SDP offer/answer or ICE candidate), inbound or
/// outbound.
#[derive(Debug)]
pub enum Signal {
    Offer { sdp: String },
    Answer { sdp: String },
    Candidate { candidate: IceCandidateInit },
}

/// What a [`Signal`] holds.
pub enum SignalView {
    Offer { sdp: Seq<char> },
    Answer { sdp: Seq<char> },
    Candidate { candidate: IceCandidateView },
}

impl View for Signal {
    type V = SignalView;

    open spec fn view(&self) -> SignalView {
        match self {
            Signal::Offer { sdp } => SignalView::Offer { sdp: sdp@ },
            Signal::Answer { sdp } => SignalView::Answer { sdp: sdp@ },
            Signal::Candidate { candidate } => SignalView::Candidate { candidate: candidate@ },
        }
    }
}

/// Why a text is no signaling message.
#[derive(Clone, Copy, Debug, PartialEq, Eq, Structural)]
pub enum SignalError {
    /// The text is no JSON object or array.
    Unreadable,
    /// `type` is missing, repeated or no text.
    NoType,
    /// `type` names no kind of message.
    UnknownType,
    /// An array has more or fewer values than it should.
    WrongLength,
    /// The `sdp` of an offer or answer is missing, repeated or no text.
    NoSdp,
    /// The `candidate` of a candidate is missing, repeated or none.
    NoCandidate,
    /// `sdpMid` is repeated, or there and neither null nor a text.
    BadSdpMid,
    /// `sdpMLineIndex` is repeated, or there and neither null nor an index below
    /// 65536.
    BadSdpMLineIndex,
    /// `usernameFragment` is repeated, or there and neither null nor a text.
    BadUsernameFragment,
}

/// The item `name` with the text `s`.
pub open spec fn text_item(name: Seq<char>, s: Seq<char>) -> (Seq<char>, ItemView) {
    (name, ItemView::Text(s))
}

/// A text, or null.
pub open spec fn text_or_null(s: Option<Seq<char>>) -> ItemView {
    match s {
        Some(t) => ItemView::Text(t),
        None => ItemView::Null,
    }
}

/// An index, or null.
pub open spec fn index_or_null(n: Option<u16>) -> ItemView {
    match n {
        Some(i) => ItemView::Natural(i as u64),
        None => ItemView::Null,
    }
}

/// The items of a candidate that are always on the wire.
pub open spec fn candidate_items(candidate: IceCandidateView) -> Seq<(Seq<char>, ItemView)> {
    seq![
        text_item("type"@, "candidate"@),
        text_item("candidate"@, candidate.candidate),
        ("sdpMid"@, text_or_null(candidate.sdp_mid)),
        ("sdpMLineIndex"@, index_or_null(candidate.sdp_mline_index)),
    ]
}

/// The items of a message on the wire.
pub open spec fn signal_fields(signal: SignalView) -> Seq<(Seq<char>, ItemView)> {
    match signal {
        SignalView::Offer { sdp } => seq![
            text_item("type"@, "offer"@),
            text_item("sdp"@, sdp),
        ],
        SignalView::Answer { sdp } => seq![
            text_item("type"@, "answer"@),
            text_item("sdp"@, sdp),
        ],
        SignalView::Candidate { candidate } => match candidate.username_fragment {
            Some(fragment) => candidate_items(candidate).push(
                text_item("usernameFragment"@, fragment),
            ),
            None => candidate_items(candidate),
        },
    }
}

/// The part of a record that has this name or, in an array, this position:
/// `None` where it is missing, an error where it is repeated.
pub open spec fn part(record: RecordView, name: Seq<char>, at: int, error: SignalError) -> Result<
    Option<ItemView>,
    SignalError,
> {
    match record {
        RecordView::Array(items) => Ok(Some(items[at])),
        RecordView::Object(items) => match place(names_in(items), name) {
            Place::Missing => Ok(None),
            Place::At(i) => Ok(Some(items[i].1)),
            Place::Repeated => Err(error),
        },
    }
}

/// The text of a part that must be there.
pub open spec fn required_text(
    part: Result<Option<ItemView>, SignalError>,
    error: SignalError,
) -> Result<Seq<char>, SignalError> {
    match part {
        Ok(Some(ItemView::Text(s))) => Ok(s),
        _ => Err(error),
    }
}

/// The text of a part that may be missing or null.
pub open spec fn optional_text(
    part: Result<Option<ItemView>, SignalError>,
    error: SignalError,
) -> Result<Option<Seq<char>>, SignalError> {
    match part {
        Ok(None) => Ok(None),
        Ok(Some(ItemView::Null)) => Ok(None),
        Ok(Some(ItemView::Text(s))) => Ok(Some(s)),
        _ => Err(error),
    }
}

/// The index of a part that may be missing or null.
pub open spec fn optional_index(
    part: Result<Option<ItemView>, SignalError>,
    error: SignalError,
) -> Result<Option<u16>, SignalError> {
    match part {
        Ok(None) => Ok(None),
        Ok(Some(ItemView::Null)) => Ok(None),
        Ok(Some(ItemView::Natural(n))) => if n <= u16::MAX {
            Ok(Some(n as u16))
        } else {
            Err(error)
        },
        _ => Err(error),
    }
}

/// The candidate's own text in a record.
pub open spec fn candidate_text(record: RecordView) -> Result<Seq<char>, SignalError> {
    required_text(
        part(record, "candidate"@, 0, SignalError::NoCandidate),
        SignalError::NoCandidate,
    )
}

/// The candidate's `sdpMid` in a record.
pub open spec fn candidate_mid(record: RecordView) -> Result<Option<Seq<char>>, SignalError> {
    optional_text(part(record, "sdpMid"@, 1, SignalError::BadSdpMid), SignalError::BadSdpMid)
}

/// The candidate's `sdpMLineIndex` in a record.
pub open spec fn candidate_index(record: RecordView) -> Result<Option<u16>, SignalError> {
    optional_index(
        part(record, "sdpMLineIndex"@, 2, SignalError::BadSdpMLineIndex),
        SignalError::BadSdpMLineIndex,
    )
}

/// The candidate's `usernameFragment` in a record.
pub open spec fn candidate_fragment(record: RecordView) -> Result<Option<Seq<char>>, SignalError> {
    optional_text(
        part(record, "usernameFragment"@, 3, SignalError::BadUsernameFragment),
        SignalError::BadUsernameFragment,
    )
}

/// The candidate that a record describes: an object by its names, an array by
/// its four positions.
pub open spec fn candidate_of(record: RecordView) -> Result<IceCandidateView, SignalError> {
    if record matches RecordView::Array(items) && items.len() != 4 {
        Err(SignalError::WrongLength)
    } else {
        match candidate_text(record) {
            Err(e) => Err(e),
            Ok(candidate) => match candidate_mid(record) {
                Err(e) => Err(e),
                Ok(sdp_mid) => match candidate_index(record) {
                    Err(e) => Err(e),
                    Ok(sdp_mline_index) => match candidate_fragment(record) {
                        Err(e) => Err(e),
                        Ok(username_fragment) => Ok(
                            IceCandidateView {
                                candidate,
                                sdp_mid,
                                sdp_mline_index,
                                username_fragment,
                            },
                        ),
                    },
                },
            },
        }
    }
}

/// A field as a single value; a record is none that a message carries.
pub open spec fn flat(field: FieldView) -> ItemView {
    match field {
        FieldView::Item(item) => item,
        FieldView::Record(_) => ItemView::Other,
    }
}

/// The fields of an object as single values.
pub open spec fn flattened(fields: Seq<(Seq<char>, FieldView)>) -> RecordView {
    RecordView::Object(fields.map_values(|f: (Seq<char>, FieldView)| (f.0, flat(f.1))))
}

/// The field of a document that has this name or, in an array of two, comes
/// second.
pub open spec fn payload(document: DocumentView, name: Seq<char>, error: SignalError) -> Result<
    FieldView,
    SignalError,
> {
    match document {
        DocumentView::Array(fields) => if fields.len() == 2 {
            Ok(fields[1])
        } else {
            Err(SignalError::WrongLength)
        },
        DocumentView::Object(fields) => match place(names_in(fields), name) {
            Place::At(i) => Ok(fields[i].1),
            _ => Err(error),
        },
    }
}

/// The `sdp` of a document.
pub open spec fn sdp_of(document: DocumentView) -> Result<Seq<char>, SignalError> {
    match payload(document, "sdp"@, SignalError::NoSdp) {
        Ok(FieldView::Item(ItemView::Text(s))) => Ok(s),
        Ok(_) => Err(SignalError::NoSdp),
        Err(e) => Err(e),
    }
}

/// The candidate of a document: whole in one field, or spread over the
/// document's own fields.
pub open spec fn document_candidate(document: DocumentView) -> Result<
    IceCandidateView,
    SignalError,
> {
    match payload(document, "candidate"@, SignalError::NoCandidate) {
        Ok(FieldView::Record(record)) => candidate_of(record),
        Ok(FieldView::Item(_)) => match document {
            DocumentView::Object(fields) => candidate_of(flattened(fields)),
            DocumentView::Array(_) => Err(SignalError::NoCandidate),
        },
        Err(e) => Err(e),
    }
}

/// The `type` of a document; in an array it comes first.
pub open spec fn type_of(document: DocumentView) -> Result<Seq<char>, SignalError> {
    let field = match document {
        DocumentView::Array(fields) => if fields.len() > 0 {
            Some(fields[0])
        } else {
            None
        },
        DocumentView::Object(fields) => match place(names_in(fields), "type"@) {
            Place::At(i) => Some(fields[i].1),
            _ => None,
        },
    };
    match field {
        Some(FieldView::Item(ItemView::Text(s))) => Ok(s),
        _ => Err(SignalError::NoType),
    }
}

/// The message that a document describes.
pub open spec fn signal_of_document(document: DocumentView) -> Result<SignalView, SignalError> {
    match type_of(document) {
        Err(e) => Err(e),
        Ok(kind) => if kind == "offer"@ {
            match sdp_of(document) {
                Ok(sdp) => Ok(SignalView::Offer { sdp }),
                Err(e) => Err(e),
            }
        } else if kind == "answer"@ {
            match sdp_of(document) {
                Ok(sdp) => Ok(SignalView::Answer { sdp }),
                Err(e) => Err(e),
            }
        } else if kind == "candidate"@ {
            match document_candidate(document) {
                Ok(candidate) => Ok(SignalView::Candidate { candidate }),
                Err(e) => Err(e),
            }
        } else {
            Err(SignalError::UnknownType)
        },
    }
}

/// The message that a text carries.
pub open spec fn signal_of(text: Seq<char>) -> Result<SignalView, SignalError> {
    match document_of(text) {
        None => Err(SignalError::Unreadable),
        Some(document) => signal_of_document(document),
    }
}

/// The outcome of reading, with the message taken by what it holds.
pub open spec fn signal_read(read: Result<Signal, SignalError>) -> Result<SignalView, SignalError> {
    match read {
        Ok(signal) => Ok(signal@),
        Err(e) => Err(e),
    }
}

/// The outcome of reading a text, with the text taken by what it holds.
spec fn text_read(read: Result<String, SignalError>) -> Result<Seq<char>, SignalError> {
    match read {
        Ok(s) => Ok(s@),
        Err(e) => Err(e),
    }
}

/// The outcome of reading an optional text, taken by what it holds.
spec fn optional_read(read: Result<Option<String>, SignalError>) -> Result<
    Option<Seq<char>>,
    SignalError,
> {
    match read {
        Ok(s) => Ok(text_in(s)),
        Err(e) => Err(e),
    }
}

/// The outcome of reading a candidate, taken by what it holds.
spec fn candidate_read(read: Result<IceCandidateInit, SignalError>) -> Result<
    IceCandidateView,
    SignalError,
> {
    match read {
        Ok(c) => Ok(c@),
        Err(e) => Err(e),
    }
}

/// The outcome of looking for a part, taken by what it holds.
spec fn part_read(read: Result<Option<&Item>, SignalError>) -> Result<
    Option<ItemView>,
    SignalError,
> {
    match read {
        Ok(Some(item)) => Ok(Some(item@)),
        Ok(None) => Ok(None),
        Err(e) => Err(e),
    }
}

fn take_part<'a>(record: &'a Record, name: &str, at: usize, error: SignalError) -> (found: Result<
    Option<&'a Item>,
    SignalError,
>)
    requires
        record matches Record::Array(items) ==> at < items.len(),
    ensures
        part_read(found) == part(record@, name@, at as int, error),
{
    match record {
        Record::Array(items) => Ok(Some(&items[at])),
        Record::Object(items) => {
            assert(names_of(items@) =~= names_in(items_view(items@)));
            match find_name(items, name) {
                Position::Missing => Ok(None),
                Position::At(i) => Ok(Some(&items[i].1)),
                Position::Repeated => Err(error),
            }
        },
    }
}

fn take_text(record: &Record, name: &str, at: usize, error: SignalError) -> (text: Result<
    String,
    SignalError,
>)
    requires
        record matches Record::Array(items) ==> at < items.len(),
    ensures
        text_read(text) == required_text(part(record@, name@, at as int, error), error),
{
    match take_part(record, name, at, error) {
        Ok(Some(Item::Text(s))) => Ok(s.clone()),
        _ => Err(error),
    }
}

fn take_optional_text(record: &Record, name: &str, at: usize, error: SignalError) -> (text: Result<
    Option<String>,
    SignalError,
>)
    requires
        record matches Record::Array(items) ==> at < items.len(),
    ensures
        optional_read(text) == optional_text(part(record@, name@, at as int, error), error),
{
    match take_part(record, name, at, error) {
        Ok(None) => Ok(None),
        Ok(Some(Item::Null)) => Ok(None),
        Ok(Some(Item::Text(s))) => Ok(Some(s.clone())),
        _ => Err(error),
    }
}

fn take_optional_index(record: &Record, name: &str, at: usize, error: SignalError) -> (index:
    Result<Option<u16>, SignalError>)
    requires
        record matches Record::Array(items) ==> at < items.len(),
    ensures
        index == optional_index(part(record@, name@, at as int, error), error),
{
    match take_part(record, name, at, error) {
        Ok(None) => Ok(None),
        Ok(Some(Item::Null)) => Ok(None),
        Ok(Some(Item::Natural(n))) => if *n <= 0xffff {
            Ok(Some(*n as u16))
        } else {
            Err(error)
        },
        _ => Err(error),
    }
}

fn take_candidate(record: &Record) -> (candidate: Result<IceCandidateInit, SignalError>)
    ensures
        candidate_read(candidate) == candidate_of(record@),
{
    if let Record::Array(items) = record {
        if items.len() != 4 {
            return Err(SignalError::WrongLength);
        }
    }
    let candidate = take_text(record, "candidate", 0, SignalError::NoCandidate)?;
    let sdp_mid = take_optional_text(record, "sdpMid", 1, SignalError::BadSdpMid)?;
    let sdp_mline_index = take_optional_index(
        record,
        "sdpMLineIndex",
        2,
        SignalError::BadSdpMLineIndex,
    )?;
    let username_fragment = take_optional_text(
        record,
        "usernameFragment",
        3,
        SignalError::BadUsernameFragment,
    )?;
    Ok(IceCandidateInit { candidate, sdp_mid, sdp_mline_index, username_fragment })
}

fn flatten_field(field: &Field) -> (item: Item)
    ensures
        item@ == flat(field@),
{
    match field {
        Field::Item(Item::Null) => Item::Null,
        Field::Item(Item::Text(s)) => Item::Text(s.clone()),
        Field::Item(Item::Natural(n)) => Item::Natural(*n),
        _ => Item::Other,
    }
}

fn flatten(fields: &Vec<(String, Field)>) -> (record: Record)
    ensures
        record@ == flattened(fields_view(fields@)),
{
    let mut items: Vec<(String, Item)> = Vec::new();
    let mut i: usize = 0;
    while i < fields.len()
        invariant
            i <= fields.len(),
            items.len() == i,
            forall|k: int|
                0 <= k < i ==> (#[trigger] items@[k]).0@ == fields@[k].0@ && items@[k].1@ == flat(
                    fields@[k].1@,
                ),
        decreases fields.len() - i,
    {
        items.push((fields[i].0.clone(), flatten_field(&fields[i].1)));
        i = i + 1;
    }
    assert(items_view(items@) =~= fields_view(fields@).map_values(
        |f: (Seq<char>, FieldView)| (f.0, flat(f.1)),
    ));
    Record::Object(items)
}

/// The outcome of looking for a payload, taken by what it holds.
spec fn payload_read(read: Result<&Field, SignalError>) -> Result<FieldView, SignalError> {
    match read {
        Ok(field) => Ok(field@),
        Err(e) => Err(e),
    }
}

fn take_payload<'a>(document: &'a Document, name: &str, error: SignalError) -> (found: Result<
    &'a Field,
    SignalError,
>)
    ensures
        payload_read(found) == payload(document@, name@, error),
{
    match document {
        Document::Array(fields) => if fields.len() == 2 {
            Ok(&fields[1])
        } else {
            Err(SignalError::WrongLength)
        },
        Document::Object(fields) => {
            assert(names_of(fields@) =~= names_in(fields_view(fields@)));
            match find_name(fields, name) {
                Position::At(i) => Ok(&fields[i].1),
                _ => Err(error),
            }
        },
    }
}

fn take_sdp(document: &Document) -> (sdp: Result<String, SignalError>)
    ensures
        text_read(sdp) == sdp_of(document@),
{
    match take_payload(document, "sdp", SignalError::NoSdp) {
        Ok(Field::Item(Item::Text(s))) => Ok(s.clone()),
        Ok(_) => Err(SignalError::NoSdp),
        Err(e) => Err(e),
    }
}

fn take_document_candidate(document: &Document) -> (candidate: Result<
    IceCandidateInit,
    SignalError,
>)
    ensures
        candidate_read(candidate) == document_candidate(document@),
{
    match take_payload(document, "candidate", SignalError::NoCandidate) {
        Ok(Field::Record(record)) => take_candidate(record),
        Ok(Field::Item(_)) => match document {
            Document::Object(fields) => take_candidate(&flatten(fields)),
            Document::Array(_) => Err(SignalError::NoCandidate),
        },
        Err(e) => Err(e),
    }
}

fn take_type(document: &Document) -> (kind: Result<String, SignalError>)
    ensures
        text_read(kind) == type_of(document@),
{
    let field = match document {
        Document::Array(fields) => if fields.len() > 0 {
            Some(&fields[0])
        } else {
            None
        },
        Document::Object(fields) => {
            assert(names_of(fields@) =~= names_in(fields_view(fields@)));
            match find_name(fields, "type") {
                Position::At(i) => Some(&fields[i].1),
                _ => None,
            }
        },
    };
    match field {
        Some(Field::Item(Item::Text(s))) => Ok(s.clone()),
        _ => Err(SignalError::NoType),
    }
}

impl Signal {
    /// Reads a message from a JSON document.
    pub fn from_document(document: &Document) -> (read: Result<Signal, SignalError>)
        ensures
            signal_read(read) == signal_of_document(document@),
    {
        let kind = take_type(document)?;
        if same_text(kind.as_str(), "offer") {
            let sdp = take_sdp(document)?;
            Ok(Signal::Offer { sdp })
        } else if same_text(kind.as_str(), "answer") {
            let sdp = take_sdp(document)?;
            Ok(Signal::Answer { sdp })
        } else if same_text(kind.as_str(), "candidate") {
            let candidate = take_document_candidate(document)?;
            Ok(Signal::Candidate { candidate })
        } else {
            Err(SignalError::UnknownType)
        }
    }

    /// Reads a message from its JSON text.
    pub fn from_json(raw: &str) -> (read: Result<Signal, SignalError>)
        ensures
            signal_read(read) == signal_of(raw@),
    {
        match read_document(raw) {
            Some(document) => Signal::from_document(&document),
            None => Err(SignalError::Unreadable),
        }
    }

    /// The items of the message on the wire.
    pub fn to_fields(&self) -> (items: Vec<(String, Item)>)
        ensures
            items_view(items@) == signal_fields(self@),
    {
        let mut items: Vec<(String, Item)> = Vec::new();
        match self {
            Signal::Offer { sdp } => {
                push_text(&mut items, "type", "offer");
                push_text(&mut items, "sdp", sdp.as_str());
            },
            Signal::Answer { sdp } => {
                push_text(&mut items, "type", "answer");
                push_text(&mut items, "sdp", sdp.as_str());
            },
            Signal::Candidate { candidate } => {
                push_text(&mut items, "type", "candidate");
                push_text(&mut items, "candidate", candidate.candidate.as_str());
                push_optional_text(&mut items, "sdpMid", &candidate.sdp_mid);
                push_optional_index(&mut items, "sdpMLineIndex", candidate.sdp_mline_index);
                assert(items_view(items@) =~= candidate_items(candidate@));
                if let Some(fragment) = &candidate.username_fragment {
                    push_text(&mut items, "usernameFragment", fragment.as_str());
                }
            },
        }
        assert(items_view(items@) =~= signal_fields(self@));
        items
    }

    /// Writes the message as JSON text. The text reads back as the message.
    pub fn to_json(&self) -> (text: String)
        ensures
            text@ == json_text(signal_fields(self@)),
            document_of(text@) == Some(items_document(signal_fields(self@))),
            signal_of(text@) == Ok::<SignalView, SignalError>(self@),
            self matches Signal::Offer { sdp } ==> json_value(text@) == Some(
                Json::Object(
                    seq![
                        (Json::Text("type"@), Json::Text("offer"@)),
                        (Json::Text("sdp"@), Json::Text(sdp@)),
                    ],
                ),
            ),
            self matches Signal::Answer { sdp } ==> json_value(text@) == Some(
                Json::Object(
                    seq![
                        (Json::Text("type"@), Json::Text("answer"@)),
                        (Json::Text("sdp"@), Json::Text(sdp@)),
                    ],
                ),
            ),
            self matches Signal::Candidate { candidate: c } ==> json_value(text@) == Some(
                Json::Object(
                    seq![
                        (Json::Text("type"@), Json::Text("candidate"@)),
                        (Json::Text("candidate"@), Json::Text(c.candidate@)),
                        (
                            Json::Text("sdpMid"@),
                            match c.sdp_mid {
                                Some(s) => Json::Text(s@),
                                None => Json::Null,
                            },
                        ),
                        (
                            Json::Text("sdpMLineIndex"@),
                            match c.sdp_mline_index {
                                Some(n) => Json::Natural(n as u64),
                                None => Json::Null,
                            },
                        ),
                    ] + (match c.username_fragment {
                        Some(s) => seq![(Json::Text("usernameFragment"@), Json::Text(s@))],
                        None => seq![],
                    }),
                ),
            ),
    {
        let items = self.to_fields();
        proof {
            lemma_signal_fields_writable(self@);
            written_items_read_back(signal_fields(self@));
            signal_fields_read_back(self@);
            messages_on_the_wire(self@);
            if let Signal::Candidate { candidate: c } = self {
                let pairs = object_json(signal_fields(self@))->Object_0;
                assert(pairs =~= seq![
                    (Json::Text("type"@), Json::Text("candidate"@)),
                    (Json::Text("candidate"@), Json::Text(c.candidate@)),
                    (
                        Json::Text("sdpMid"@),
                        match c.sdp_mid {
                            Some(s) => Json::Text(s@),
                            None => Json::Null,
                        },
                    ),
                    (
                        Json::Text("sdpMLineIndex"@),
                        match c.sdp_mline_index {
                            Some(n) => Json::Natural(n as u64),
                            None => Json::Null,
                        },
                    ),
                ] + (match c.username_fragment {
                    Some(s) => seq![(Json::Text("usernameFragment"@), Json::Text(s@))],
                    None => seq![],
                }));
            }
        }
        write_object(items)
    }
}

fn push_text(items: &mut Vec<(String, Item)>, name: &str, s: &str)
    ensures
        items_view(final(items)@) == items_view(old(items)@).push(text_item(name@, s@)),
{
    items.push((name.to_owned(), Item::Text(s.to_owned())));
    assert(items_view(items@) =~= items_view(old(items)@).push(text_item(name@, s@)));
}

fn push_optional_text(items: &mut Vec<(String, Item)>, name: &str, s: &Option<String>)
    ensures
        items_view(final(items)@) == items_view(old(items)@).push(
            (name@, text_or_null(text_in(*s))),
        ),
{
    let item = match s {
        Some(t) => Item::Text(t.clone()),
        None => Item::Null,
    };
    items.push((name.to_owned(), item));
    assert(items_view(items@) =~= items_view(old(items)@).push((name@, text_or_null(text_in(*s)))));
}

fn push_optional_index(items: &mut Vec<(String, Item)>, name: &str, n: Option<u16>)
    ensures
        items_view(final(items)@) == items_view(old(items)@).push((name@, index_or_null(n))),
{
    let item = match n {
        Some(i) => Item::Natural(i as u64),
        None => Item::Null,
    };
    items.push((name.to_owned(), item));
    assert(items_view(items@) =~= items_view(old(items)@).push((name@, index_or_null(n))));
}

/// The names on the wire differ from one another, and so do the types.
proof fn lemma_wire_names_differ()
    ensures
        "type"@ != "sdp"@,
        "type"@ != "candidate"@,
        "type"@ != "sdpMid"@,
        "type"@ != "sdpMLineIndex"@,
        "type"@ != "usernameFragment"@,
        "candidate"@ != "sdpMid"@,
        "candidate"@ != "sdpMLineIndex"@,
        "candidate"@ != "usernameFragment"@,
        "sdpMid"@ != "sdpMLineIndex"@,
        "sdpMid"@ != "usernameFragment"@,
        "sdpMLineIndex"@ != "usernameFragment"@,
        "offer"@ != "answer"@,
        "offer"@ != "candidate"@,
        "answer"@ != "candidate"@,
{
    reveal_strlit("type");
    reveal_strlit("sdp");
    reveal_strlit("candidate");
    reveal_strlit("sdpMid");
    reveal_strlit("sdpMLineIndex");
    reveal_strlit("usernameFragment");
    reveal_strlit("offer");
    reveal_strlit("answer");
    assert("sdpMid"@.len() == 6);
    assert("answer"@.len() == 6);
    assert("candidate"@.len() == 9);
    assert("sdpMLineIndex"@.len() == 13);
    assert("usernameFragment"@.len() == 16);
    assert("offer"@.len() == 5);
    assert("type"@.len() == 4);
    assert("sdp"@.len() == 3);
}

proof fn lemma_signal_fields_writable(signal: SignalView)
    ensures
        distinct(names_in(signal_fields(signal))),
        writable(signal_fields(signal)),
{
    lemma_wire_names_differ();
}

/// The name of a wire item, in the document or flattened again, stands where it
/// was written.
proof fn lemma_wire_places(signal: SignalView, at: int)
    requires
        0 <= at < signal_fields(signal).len(),
    ensures
        ({
            let items = signal_fields(signal);
            let fields = items.map_values(|i: (Seq<char>, ItemView)| (i.0, FieldView::Item(i.1)));
            &&& place(names_in(items), items[at].0) == Place::At(at)
            &&& place(names_in(fields), items[at].0) == Place::At(at)
        }),
{
    let items = signal_fields(signal);
    let fields = items.map_values(|i: (Seq<char>, ItemView)| (i.0, FieldView::Item(i.1)));
    lemma_signal_fields_writable(signal);
    let names = names_in(items);
    assert(names_in(fields) =~= names);
    assert(names[at] == items[at].0);
    assert forall|i: int| 0 <= i < names.len() && i != at implies #[trigger] names[i]
        != names[at] by {
        if i < at {
            assert(names[i] != names[at]);
        } else {
            assert(names[at] != names[i]);
        }
    }
    lemma_place(names, items[at].0, at);
}

/// A message that goes onto the wire is the message that comes off it.
pub proof fn signal_fields_read_back(signal: SignalView)
    ensures
        signal_of_document(items_document(signal_fields(signal))) == Ok::<SignalView, SignalError>(
            signal,
        ),
{
    let items = signal_fields(signal);
    let fields = items.map_values(|i: (Seq<char>, ItemView)| (i.0, FieldView::Item(i.1)));
    lemma_wire_names_differ();
    lemma_wire_places(signal, 0);
    lemma_wire_places(signal, 1);
    if let SignalView::Candidate { candidate } = signal {
        assert(flattened(fields)->Object_0 =~= items);
        lemma_wire_places(signal, 2);
        lemma_wire_places(signal, 3);
        if candidate.username_fragment is Some {
            lemma_wire_places(signal, 4);
        } else {
            let names = names_in(items);
            assert(!names.contains("usernameFragment"@));
        }
    }
}

/// An object that repeats its type, or the `sdp` of an offer or answer, is no
/// message.
pub proof fn repeated_fields_are_refused(fields: Seq<(Seq<char>, FieldView)>)
    ensures
        place(names_in(fields), "type"@) is Repeated ==> signal_of_document(
            DocumentView::Object(fields),
        ) is Err,
        place(names_in(fields), "sdp"@) is Repeated && (type_of(DocumentView::Object(fields)) == Ok::<
            Seq<char>,
            SignalError,
        >("offer"@) || type_of(DocumentView::Object(fields)) == Ok::<Seq<char>, SignalError>(
            "answer"@,
        )) ==> signal_of_document(DocumentView::Object(fields)) is Err,
{
}

/// The array of a type and a payload is the same message as the object with that
/// type and that payload under its name: the `sdp` of an offer or answer, the
/// whole `candidate` of a candidate.
pub proof fn arrays_read_like_objects(kind: Seq<char>, name: Seq<char>, payload: FieldView)
    requires
        (kind == "offer"@ || kind == "answer"@) && name == "sdp"@ || kind == "candidate"@ && name
            == "candidate"@ && payload is Record,
    ensures
        signal_of_document(
            DocumentView::Array(seq![FieldView::Item(ItemView::Text(kind)), payload]),
        ) == signal_of_document(
            DocumentView::Object(
                seq![("type"@, FieldView::Item(ItemView::Text(kind))), (name, payload)],
            ),
        ),
{
    let fields = seq![("type"@, FieldView::Item(ItemView::Text(kind))), (name, payload)];
    let names = names_in(fields);
    lemma_wire_names_differ();
    assert(names =~= seq!["type"@, name]);
    lemma_place(names, "type"@, 0);
    lemma_place(names, name, 1);
}

/// A message on the wire is a JSON object: its type, then the `sdp` of an offer or
/// answer, or the parts of a candidate, null where `sdpMid` or `sdpMLineIndex` is
/// not set, and without a `usernameFragment` that is not.
pub proof fn messages_on_the_wire(signal: SignalView)
    ensures
        (match signal {
            SignalView::Offer { sdp } => object_json(signal_fields(signal)) == Json::Object(
                seq![
                    (Json::Text("type"@), Json::Text("offer"@)),
                    (Json::Text("sdp"@), Json::Text(sdp)),
                ],
            ),
            SignalView::Answer { sdp } => object_json(signal_fields(signal)) == Json::Object(
                seq![
                    (Json::Text("type"@), Json::Text("answer"@)),
                    (Json::Text("sdp"@), Json::Text(sdp)),
                ],
            ),
            SignalView::Candidate { candidate: c } => object_json(signal_fields(signal))
                == Json::Object(
                seq![
                    (Json::Text("type"@), Json::Text("candidate"@)),
                    (Json::Text("candidate"@), Json::Text(c.candidate)),
                    (
                        Json::Text("sdpMid"@),
                        match c.sdp_mid {
                            Some(s) => Json::Text(s),
                            None => Json::Null,
                        },
                    ),
                    (
                        Json::Text("sdpMLineIndex"@),
                        match c.sdp_mline_index {
                            Some(n) => Json::Natural(n as u64),
                            None => Json::Null,
                        },
                    ),
                ] + (match c.username_fragment {
                    Some(s) => seq![(Json::Text("usernameFragment"@), Json::Text(s))],
                    None => seq![],
                }),
            ),
        }),
{
    let pairs = object_json(signal_fields(signal))->Object_0;
    match signal {
        SignalView::Offer { sdp } => {
            assert(pairs =~= seq![
                (Json::Text("type"@), Json::Text("offer"@)),
                (Json::Text("sdp"@), Json::Text(sdp)),
            ]);
        },
        SignalView::Answer { sdp } => {
            assert(pairs =~= seq![
                (Json::Text("type"@), Json::Text("answer"@)),
                (Json::Text("sdp"@), Json::Text(sdp)),
            ]);
        },
        SignalView::Candidate { candidate: c } => {
            let fragment = match c.username_fragment {
                Some(s) => seq![(Json::Text("usernameFragment"@), Json::Text(s))],
                None => seq![],
            };
            let parts = seq![
                (Json::Text("type"@), Json::Text("candidate"@)),
                (Json::Text("candidate"@), Json::Text(c.candidate)),
                (
                    Json::Text("sdpMid"@),
                    match c.sdp_mid {
                        Some(s) => Json::Text(s),
                        None => Json::Null,
                    },
                ),
                (
                    Json::Text("sdpMLineIndex"@),
                    match c.sdp_mline_index {
                        Some(n) => Json::Natural(n as u64),
                        None => Json::Null,
                    },
                ),
            ];
            assert(pairs =~= parts + fragment);
        },
    }
}

/// What is known of a message is what it holds.
pub proof fn signals_are_their_contents(signal: Signal, error: SignalError)
    ensures
        signal matches Signal::Offer { sdp } ==> signal@ == (SignalView::Offer { sdp: sdp@ }),
        signal matches Signal::Answer { sdp } ==> signal@ == (SignalView::Answer { sdp: sdp@ }),
        signal matches Signal::Candidate { candidate } ==> signal@ == (SignalView::Candidate {
            candidate: candidate@,
        }) && candidate@ == (IceCandidateView {
            candidate: candidate.candidate@,
            sdp_mid: match candidate.sdp_mid {
                Some(s) => Some(s@),
                None => None,
            },
            sdp_mline_index: candidate.sdp_mline_index,
            username_fragment: match candidate.username_fragment {
                Some(s) => Some(s@),
                None => None,
            },
        }),
        signal_read(Ok(signal)) == Ok::<SignalView, SignalError>(signal@),
        signal_read(Err(error)) == Err::<SignalView, SignalError>(error),
{
}

/// A name that an object says once, with this value, is found there.
proof fn lemma_said_once(pairs: Seq<(Json, Json)>, name: Seq<char>, value: Json) -> (at: int)
    requires
        name.len() > 0,
        pairs.contains((Json::Text(name), value)),
        forall|i: int, j: int|
            0 <= i < j < pairs.len() && (#[trigger] pairs[i]).0 == (#[trigger] pairs[j]).0
                ==> pairs[i].0 != Json::Text(name),
    ensures
        0 <= at < pairs.len(),
        pairs[at] == (Json::Text(name), value),
        place(
            names_in(pairs.map_values(|p: (Json, Json)| (name_in(p.0), field_in(p.1)))),
            name,
        ) == Place::At(at),
        place(
            names_in(pairs.map_values(|p: (Json, Json)| (name_in(p.0), item_in(p.1)))),
            name,
        ) == Place::At(at),
{
    let at = choose|i: int| 0 <= i < pairs.len() && pairs[i] == (Json::Text(name), value);
    let fields = pairs.map_values(|p: (Json, Json)| (name_in(p.0), field_in(p.1)));
    let items = pairs.map_values(|p: (Json, Json)| (name_in(p.0), item_in(p.1)));
    let names = names_in(fields);
    assert(names_in(items) =~= names);
    assert forall|i: int| 0 <= i < names.len() && i != at implies #[trigger] names[i] != name by {
        assert(names[i] == name_in(pairs[i].0));
        if i < at {
            assert(pairs[i].0 == pairs[at].0 ==> pairs[i].0 != Json::Text(name));
        } else {
            assert(pairs[at].0 == pairs[i].0 ==> pairs[at].0 != Json::Text(name));
        }
    }
    assert(names[at] == name);
    lemma_place(names, name, at);
    at
}

/// A name that an object says at most once, and then as null, is missing there or
/// found as null.
proof fn lemma_said_as_null(pairs: Seq<(Json, Json)>, name: Seq<char>)
    requires
        name.len() > 0,
        forall|i: int|
            0 <= i < pairs.len() && (#[trigger] pairs[i]).0 == Json::Text(name) ==> pairs[i].1
                == Json::Null,
        forall|i: int, j: int|
            0 <= i < j < pairs.len() && (#[trigger] pairs[i]).0 == (#[trigger] pairs[j]).0
                ==> pairs[i].0 != Json::Text(name),
    ensures
        ({
            let items = pairs.map_values(|p: (Json, Json)| (name_in(p.0), item_in(p.1)));
            match place(names_in(items), name) {
                Place::Missing => true,
                Place::At(i) => 0 <= i < items.len() && items[i].1 is Null,
                Place::Repeated => false,
            }
        }),
{
    let items = pairs.map_values(|p: (Json, Json)| (name_in(p.0), item_in(p.1)));
    let names = names_in(items);
    if exists|i: int| 0 <= i < pairs.len() && (#[trigger] pairs[i]).0 == Json::Text(name) {
        let at = choose|i: int|
            0 <= i < pairs.len() && (#[trigger] pairs[i]).0 == Json::Text(name);
        assert(pairs[at] == (Json::Text(name), Json::Null));
        let _ = lemma_said_once(pairs, name, Json::Null);
    } else {
        assert forall|i: int| 0 <= i < names.len() implies #[trigger] names[i] != name by {
            assert(names[i] == name_in(pairs[i].0));
        }
        assert(!names.contains(name));
    }
}

/// An object that says a candidate's four parts is that candidate.
proof fn lemma_candidate_said(pairs: Seq<(Json, Json)>, c: IceCandidateView)
    requires
        pairs.contains((Json::Text("candidate"@), Json::Text(c.candidate))),
        c.sdp_mid matches Some(v) ==> pairs.contains((Json::Text("sdpMid"@), Json::Text(v))),
        c.sdp_mid is None ==> forall|i: int|
            0 <= i < pairs.len() && (#[trigger] pairs[i]).0 == Json::Text("sdpMid"@)
                ==> pairs[i].1 == Json::Null,
        c.sdp_mline_index matches Some(v) ==> pairs.contains(
            (Json::Text("sdpMLineIndex"@), Json::Natural(v as u64)),
        ),
        c.sdp_mline_index is None ==> forall|i: int|
            0 <= i < pairs.len() && (#[trigger] pairs[i]).0 == Json::Text("sdpMLineIndex"@)
                ==> pairs[i].1 == Json::Null,
        c.username_fragment matches Some(v) ==> pairs.contains(
            (Json::Text("usernameFragment"@), Json::Text(v)),
        ),
        c.username_fragment is None ==> forall|i: int|
            0 <= i < pairs.len() && (#[trigger] pairs[i]).0 == Json::Text("usernameFragment"@)
                ==> pairs[i].1 == Json::Null,
        forall|i: int, j: int|
            0 <= i < j < pairs.len() && (#[trigger] pairs[i]).0 == (#[trigger] pairs[j]).0 ==> !(
            pairs[i].0 == Json::Text("candidate"@)
                || pairs[i].0 == Json::Text("sdpMid"@)
                || pairs[i].0 == Json::Text("sdpMLineIndex"@)
                || pairs[i].0 == Json::Text("usernameFragment"@)),
    ensures
        candidate_of(
            RecordView::Object(
                pairs.map_values(|p: (Json, Json)| (name_in(p.0), item_in(p.1))),
            ),
        ) == Ok::<IceCandidateView, SignalError>(c),
{
    lemma_wire_names_have_length();
    let items = pairs.map_values(|p: (Json, Json)| (name_in(p.0), item_in(p.1)));
    let _ = lemma_said_once(pairs, "candidate"@, Json::Text(c.candidate));
    match c.sdp_mid {
        Some(v) => {
            let _ = lemma_said_once(pairs, "sdpMid"@, Json::Text(v));
        },
        None => lemma_said_as_null(pairs, "sdpMid"@),
    }
    match c.sdp_mline_index {
        Some(v) => {
            let _ = lemma_said_once(pairs, "sdpMLineIndex"@, Json::Natural(v as u64));
        },
        None => lemma_said_as_null(pairs, "sdpMLineIndex"@),
    }
    match c.username_fragment {
        Some(v) => {
            let _ = lemma_said_once(pairs, "usernameFragment"@, Json::Text(v));
        },
        None => lemma_said_as_null(pairs, "usernameFragment"@),
    }
    let record = RecordView::Object(items);
    assert(candidate_text(record) == Ok::<Seq<char>, SignalError>(c.candidate));
    assert(candidate_mid(record) == Ok::<Option<Seq<char>>, SignalError>(c.sdp_mid));
    assert(candidate_index(record) == Ok::<Option<u16>, SignalError>(c.sdp_mline_index));
    assert(candidate_fragment(record) == Ok::<Option<Seq<char>>, SignalError>(
        c.username_fragment,
    ));
}

proof fn lemma_wire_names_have_length()
    ensures
        "type"@.len() > 0,
        "sdp"@.len() > 0,
        "candidate"@.len() > 0,
        "sdpMid"@.len() > 0,
        "sdpMLineIndex"@.len() > 0,
        "usernameFragment"@.len() > 0,
{
    reveal_strlit("type");
    reveal_strlit("sdp");
    reveal_strlit("candidate");
    reveal_strlit("sdpMid");
    reveal_strlit("sdpMLineIndex");
    reveal_strlit("usernameFragment");
}

/// A JSON object that says once that it is an offer, or an answer, and once what
/// its `sdp` is, is that message, whatever else it says and in whatever order.
pub proof fn objects_with_an_sdp_are_read(
    text: Seq<char>,
    pairs: Seq<(Json, Json)>,
    sdp: Seq<char>,
)
    requires
        json_value(text) == Some(Json::Object(pairs)),
        pairs.contains((Json::Text("sdp"@), Json::Text(sdp))),
        forall|i: int, j: int|
            0 <= i < j < pairs.len() && (#[trigger] pairs[i]).0 == (#[trigger] pairs[j]).0 ==> !(
            pairs[i].0 == Json::Text("type"@)
                || pairs[i].0 == Json::Text("sdp"@)),
    ensures
        pairs.contains((Json::Text("type"@), Json::Text("offer"@))) ==> signal_of(text) == Ok::<
            SignalView,
            SignalError,
        >((SignalView::Offer { sdp })),
        pairs.contains((Json::Text("type"@), Json::Text("answer"@))) ==> signal_of(text) == Ok::<
            SignalView,
            SignalError,
        >((SignalView::Answer { sdp })),
{
    lemma_wire_names_have_length();
    lemma_wire_names_differ();
    let _ = lemma_said_once(pairs, "sdp"@, Json::Text(sdp));
    if pairs.contains((Json::Text("type"@), Json::Text("offer"@))) {
        let _ = lemma_said_once(pairs, "type"@, Json::Text("offer"@));
    }
    if pairs.contains((Json::Text("type"@), Json::Text("answer"@))) {
        let _ = lemma_said_once(pairs, "type"@, Json::Text("answer"@));
    }
}

/// A JSON array of a type and an `sdp` is that message.
pub proof fn arrays_with_an_sdp_are_read(text: Seq<char>, sdp: Seq<char>)
    ensures
        json_value(text) == Some(Json::Array(seq![Json::Text("offer"@), Json::Text(sdp)]))
            ==> signal_of(text) == Ok::<SignalView, SignalError>((SignalView::Offer { sdp })),
        json_value(text) == Some(Json::Array(seq![Json::Text("answer"@), Json::Text(sdp)]))
            ==> signal_of(text) == Ok::<SignalView, SignalError>((SignalView::Answer { sdp })),
{
    lemma_wire_names_differ();
}

/// A candidate that an object spells out in its own fields is read, with all four
/// of its parts: the index and the two texts as they are, and as unset where they
/// are null or not there.
pub proof fn spread_candidates_are_read(
    text: Seq<char>,
    pairs: Seq<(Json, Json)>,
    c: IceCandidateView,
)
    requires
        json_value(text) == Some(Json::Object(pairs)),
        pairs.contains((Json::Text("type"@), Json::Text("candidate"@))),
        pairs.contains((Json::Text("candidate"@), Json::Text(c.candidate))),
        c.sdp_mid matches Some(v) ==> pairs.contains((Json::Text("sdpMid"@), Json::Text(v))),
        c.sdp_mid is None ==> forall|i: int|
            0 <= i < pairs.len() && (#[trigger] pairs[i]).0 == Json::Text("sdpMid"@)
                ==> pairs[i].1 == Json::Null,
        c.sdp_mline_index matches Some(v) ==> pairs.contains(
            (Json::Text("sdpMLineIndex"@), Json::Natural(v as u64)),
        ),
        c.sdp_mline_index is None ==> forall|i: int|
            0 <= i < pairs.len() && (#[trigger] pairs[i]).0 == Json::Text("sdpMLineIndex"@)
                ==> pairs[i].1 == Json::Null,
        c.username_fragment matches Some(v) ==> pairs.contains(
            (Json::Text("usernameFragment"@), Json::Text(v)),
        ),
        c.username_fragment is None ==> forall|i: int|
            0 <= i < pairs.len() && (#[trigger] pairs[i]).0 == Json::Text("usernameFragment"@)
                ==> pairs[i].1 == Json::Null,
        forall|i: int, j: int|
            0 <= i < j < pairs.len() && (#[trigger] pairs[i]).0 == (#[trigger] pairs[j]).0 ==> !(
            pairs[i].0 == Json::Text("type"@)
                || pairs[i].0 == Json::Text("candidate"@)
                || pairs[i].0 == Json::Text("sdpMid"@)
                || pairs[i].0 == Json::Text("sdpMLineIndex"@)
                || pairs[i].0 == Json::Text("usernameFragment"@)),
    ensures
        signal_of(text) == Ok::<SignalView, SignalError>((SignalView::Candidate { candidate: c })),
{
    lemma_wire_names_have_length();
    lemma_wire_names_differ();
    let _ = lemma_said_once(pairs, "type"@, Json::Text("candidate"@));
    let _ = lemma_said_once(pairs, "candidate"@, Json::Text(c.candidate));
    lemma_flat_candidate(pairs, c);
}

/// The candidate that a document's own fields spell out, each field a single
/// value.
proof fn lemma_flat_candidate(pairs: Seq<(Json, Json)>, c: IceCandidateView)
    requires
        pairs.contains((Json::Text("candidate"@), Json::Text(c.candidate))),
        c.sdp_mid matches Some(v) ==> pairs.contains((Json::Text("sdpMid"@), Json::Text(v))),
        c.sdp_mid is None ==> forall|i: int|
            0 <= i < pairs.len() && (#[trigger] pairs[i]).0 == Json::Text("sdpMid"@)
                ==> pairs[i].1 == Json::Null,
        c.sdp_mline_index matches Some(v) ==> pairs.contains(
            (Json::Text("sdpMLineIndex"@), Json::Natural(v as u64)),
        ),
        c.sdp_mline_index is None ==> forall|i: int|
            0 <= i < pairs.len() && (#[trigger] pairs[i]).0 == Json::Text("sdpMLineIndex"@)
                ==> pairs[i].1 == Json::Null,
        c.username_fragment matches Some(v) ==> pairs.contains(
            (Json::Text("usernameFragment"@), Json::Text(v)),
        ),
        c.username_fragment is None ==> forall|i: int|
            0 <= i < pairs.len() && (#[trigger] pairs[i]).0 == Json::Text("usernameFragment"@)
                ==> pairs[i].1 == Json::Null,
        forall|i: int, j: int|
            0 <= i < j < pairs.len() && (#[trigger] pairs[i]).0 == (#[trigger] pairs[j]).0 ==> !(
            pairs[i].0 == Json::Text("candidate"@)
                || pairs[i].0 == Json::Text("sdpMid"@)
                || pairs[i].0 == Json::Text("sdpMLineIndex"@)
                || pairs[i].0 == Json::Text("usernameFragment"@)),
    ensures
        candidate_of(
            flattened(pairs.map_values(|p: (Json, Json)| (name_in(p.0), field_in(p.1)))),
        ) == Ok::<IceCandidateView, SignalError>(c),
{
    let fields = pairs.map_values(|p: (Json, Json)| (name_in(p.0), field_in(p.1)));
    let items = pairs.map_values(|p: (Json, Json)| (name_in(p.0), item_in(p.1)));
    assert(flattened(fields) == RecordView::Object(items)) by {
        assert(flattened(fields)->Object_0 =~= items);
    }
    lemma_candidate_said(pairs, c);
}

/// A candidate that comes whole in the field `candidate` of an object, as an
/// object that says its four parts, is read with all of them, whatever else the
/// two objects say.
pub proof fn whole_candidates_are_read(
    text: Seq<char>,
    pairs: Seq<(Json, Json)>,
    said: Seq<(Json, Json)>,
    c: IceCandidateView,
)
    requires
        json_value(text) == Some(Json::Object(pairs)),
        pairs.contains((Json::Text("type"@), Json::Text("candidate"@))),
        pairs.contains((Json::Text("candidate"@), Json::Object(said))),
        forall|i: int, j: int|
            0 <= i < j < pairs.len() && (#[trigger] pairs[i]).0 == (#[trigger] pairs[j]).0 ==> !(
            pairs[i].0 == Json::Text("type"@)
                || pairs[i].0 == Json::Text("candidate"@)),
        said.contains((Json::Text("candidate"@), Json::Text(c.candidate))),
        c.sdp_mid matches Some(v) ==> said.contains((Json::Text("sdpMid"@), Json::Text(v))),
        c.sdp_mid is None ==> forall|i: int|
            0 <= i < said.len() && (#[trigger] said[i]).0 == Json::Text("sdpMid"@)
                ==> said[i].1 == Json::Null,
        c.sdp_mline_index matches Some(v) ==> said.contains(
            (Json::Text("sdpMLineIndex"@), Json::Natural(v as u64)),
        ),
        c.sdp_mline_index is None ==> forall|i: int|
            0 <= i < said.len() && (#[trigger] said[i]).0 == Json::Text("sdpMLineIndex"@)
                ==> said[i].1 == Json::Null,
        c.username_fragment matches Some(v) ==> said.contains(
            (Json::Text("usernameFragment"@), Json::Text(v)),
        ),
        c.username_fragment is None ==> forall|i: int|
            0 <= i < said.len() && (#[trigger] said[i]).0 == Json::Text("usernameFragment"@)
                ==> said[i].1 == Json::Null,
        forall|i: int, j: int|
            0 <= i < j < said.len() && (#[trigger] said[i]).0 == (#[trigger] said[j]).0 ==> !(
            said[i].0 == Json::Text("candidate"@)
                || said[i].0 == Json::Text("sdpMid"@)
                || said[i].0 == Json::Text("sdpMLineIndex"@)
                || said[i].0 == Json::Text("usernameFragment"@)),
    ensures
        signal_of(text) == Ok::<SignalView, SignalError>((SignalView::Candidate { candidate: c })),
{
    lemma_wire_names_have_length();
    lemma_wire_names_differ();
    let _ = lemma_said_once(pairs, "type"@, Json::Text("candidate"@));
    let _ = lemma_said_once(pairs, "candidate"@, Json::Object(said));
    lemma_candidate_said(said, c);
}

/// A whole candidate behind its type in an array is read as well.
pub proof fn whole_candidates_in_arrays_are_read(
    text: Seq<char>,
    said: Seq<(Json, Json)>,
    c: IceCandidateView,
)
    requires
        json_value(text) == Some(
            Json::Array(seq![Json::Text("candidate"@), Json::Object(said)]),
        ),
        said.contains((Json::Text("candidate"@), Json::Text(c.candidate))),
        c.sdp_mid matches Some(v) ==> said.contains((Json::Text("sdpMid"@), Json::Text(v))),
        c.sdp_mid is None ==> forall|i: int|
            0 <= i < said.len() && (#[trigger] said[i]).0 == Json::Text("sdpMid"@)
                ==> said[i].1 == Json::Null,
        c.sdp_mline_index matches Some(v) ==> said.contains(
            (Json::Text("sdpMLineIndex"@), Json::Natural(v as u64)),
        ),
        c.sdp_mline_index is None ==> forall|i: int|
            0 <= i < said.len() && (#[trigger] said[i]).0 == Json::Text("sdpMLineIndex"@)
                ==> said[i].1 == Json::Null,
        c.username_fragment matches Some(v) ==> said.contains(
            (Json::Text("usernameFragment"@), Json::Text(v)),
        ),
        c.username_fragment is None ==> forall|i: int|
            0 <= i < said.len() && (#[trigger] said[i]).0 == Json::Text("usernameFragment"@)
                ==> said[i].1 == Json::Null,
        forall|i: int, j: int|
            0 <= i < j < said.len() && (#[trigger] said[i]).0 == (#[trigger] said[j]).0 ==> !(
            said[i].0 == Json::Text("candidate"@)
                || said[i].0 == Json::Text("sdpMid"@)
                || said[i].0 == Json::Text("sdpMLineIndex"@)
                || said[i].0 == Json::Text("usernameFragment"@)),
    ensures
        signal_of(text) == Ok::<SignalView, SignalError>((SignalView::Candidate { candidate: c })),
{
    lemma_wire_names_differ();
    lemma_candidate_said(said, c);
}

/// The array of a candidate's four values is that candidate.
proof fn lemma_candidate_array(c: IceCandidateView)
    ensures
        field_in(Json::Array(
            seq![
                Json::Text(c.candidate),
                match c.sdp_mid {
                    Some(s) => Json::Text(s),
                    None => Json::Null,
                },
                match c.sdp_mline_index {
                    Some(n) => Json::Natural(n as u64),
                    None => Json::Null,
                },
                match c.username_fragment {
                    Some(s) => Json::Text(s),
                    None => Json::Null,
                },
            ],
        )) matches FieldView::Record(record) && candidate_of(record) == Ok::<
            IceCandidateView,
            SignalError,
        >(c),
{
    let record = field_in(Json::Array(
            seq![
                Json::Text(c.candidate),
                match c.sdp_mid {
                    Some(s) => Json::Text(s),
                    None => Json::Null,
                },
                match c.sdp_mline_index {
                    Some(n) => Json::Natural(n as u64),
                    None => Json::Null,
                },
                match c.username_fragment {
                    Some(s) => Json::Text(s),
                    None => Json::Null,
                },
            ],
        ))->Record_0;
    assert(candidate_text(record) == Ok::<Seq<char>, SignalError>(c.candidate));
    assert(candidate_mid(record) == Ok::<Option<Seq<char>>, SignalError>(c.sdp_mid));
    assert(candidate_index(record) == Ok::<Option<u16>, SignalError>(c.sdp_mline_index));
    assert(candidate_fragment(record) == Ok::<Option<Seq<char>>, SignalError>(
        c.username_fragment,
    ));
}

/// The array of a candidate's four values, null where one is not set, is that
/// candidate, for every candidate: in the field `candidate` of an object, whatever
/// else that says.
pub proof fn candidate_arrays_are_read(
    text: Seq<char>,
    pairs: Seq<(Json, Json)>,
    c: IceCandidateView,
)
    requires
        json_value(text) == Some(Json::Object(pairs)),
        pairs.contains((Json::Text("type"@), Json::Text("candidate"@))),
        pairs.contains((Json::Text("candidate"@), Json::Array(
            seq![
                Json::Text(c.candidate),
                match c.sdp_mid {
                    Some(s) => Json::Text(s),
                    None => Json::Null,
                },
                match c.sdp_mline_index {
                    Some(n) => Json::Natural(n as u64),
                    None => Json::Null,
                },
                match c.username_fragment {
                    Some(s) => Json::Text(s),
                    None => Json::Null,
                },
            ],
        ))),
        forall|i: int, j: int|
            0 <= i < j < pairs.len() && (#[trigger] pairs[i]).0 == (#[trigger] pairs[j]).0 ==> !(
            pairs[i].0 == Json::Text("type"@)
                || pairs[i].0 == Json::Text("candidate"@)),
    ensures
        signal_of(text) == Ok::<SignalView, SignalError>((SignalView::Candidate { candidate: c })),
{
    lemma_wire_names_have_length();
    lemma_wire_names_differ();
    let whole = Json::Array(
            seq![
                Json::Text(c.candidate),
                match c.sdp_mid {
                    Some(s) => Json::Text(s),
                    None => Json::Null,
                },
                match c.sdp_mline_index {
                    Some(n) => Json::Natural(n as u64),
                    None => Json::Null,
                },
                match c.username_fragment {
                    Some(s) => Json::Text(s),
                    None => Json::Null,
                },
            ],
        );
    let _ = lemma_said_once(pairs, "type"@, Json::Text("candidate"@));
    let _ = lemma_said_once(pairs, "candidate"@, whole);
    lemma_candidate_array(c);
}

/// The array of a candidate's four values behind its type in an array is that
/// candidate, for every candidate.
pub proof fn candidate_arrays_in_arrays_are_read(text: Seq<char>, c: IceCandidateView)
    requires
        json_value(text) == Some(Json::Array(seq![Json::Text("candidate"@), Json::Array(
            seq![
                Json::Text(c.candidate),
                match c.sdp_mid {
                    Some(s) => Json::Text(s),
                    None => Json::Null,
                },
                match c.sdp_mline_index {
                    Some(n) => Json::Natural(n as u64),
                    None => Json::Null,
                },
                match c.username_fragment {
                    Some(s) => Json::Text(s),
                    None => Json::Null,
                },
            ],
        )])),
    ensures
        signal_of(text) == Ok::<SignalView, SignalError>((SignalView::Candidate { candidate: c })),
{
    lemma_wire_names_differ();
    lemma_candidate_array(c);
}

/// An offer or an answer is read only from an object that says its type and its
/// `sdp`, each once, or from the array of the two.
pub proof fn only_spoken_sdps_are_read(text: Seq<char>, sdp: Seq<char>, offer: bool)
    requires
        signal_of(text) == Ok::<SignalView, SignalError>(
            if offer {
                SignalView::Offer { sdp }
            } else {
                SignalView::Answer { sdp }
            },
        ),
    ensures
        ({
            let kind = if offer {
                "offer"@
            } else {
                "answer"@
            };
            match json_value(text) {
                Some(Json::Array(values)) => values =~= seq![Json::Text(kind), Json::Text(sdp)],
                Some(Json::Object(pairs)) => (exists|t: int|
                    0 <= t < pairs.len() && name_in((#[trigger] pairs[t]).0) == "type"@
                        && pairs[t].1 == Json::Text(kind)) && (exists|s: int|
                    0 <= s < pairs.len() && name_in((#[trigger] pairs[s]).0) == "sdp"@
                        && pairs[s].1 == Json::Text(sdp)) && (forall|i: int, j: int|
                    0 <= i < j < pairs.len() && name_in((#[trigger] pairs[i]).0) == name_in(
                        (#[trigger] pairs[j]).0,
                    ) ==> name_in(pairs[i].0) != "type"@ && name_in(pairs[i].0) != "sdp"@),
                _ => false,
            }
        }),
{
    match json_value(text) {
        Some(Json::Array(values)) => {
            let fields = values.map_values(|j: Json| field_in(j));
            assert(fields[0] == field_in(values[0]));
            assert(fields[1] == field_in(values[1]));
        },
        Some(Json::Object(pairs)) => {
            let fields = pairs.map_values(|p: (Json, Json)| (name_in(p.0), field_in(p.1)));
            let names = names_in(fields);
            names_have_their_places(names, "type"@);
            names_have_their_places(names, "sdp"@);
            let t = place(names, "type"@)->At_0;
            let s = place(names, "sdp"@)->At_0;
            assert(names[t] == "type"@ && names[s] == "sdp"@);
            assert(fields[t].1 == field_in(pairs[t].1) && fields[s].1 == field_in(pairs[s].1));
            assert(name_in(pairs[t].0) == "type"@ && name_in(pairs[s].0) == "sdp"@);
            assert forall|i: int, j: int|
                0 <= i < j < pairs.len() && name_in((#[trigger] pairs[i]).0) == name_in(
                    (#[trigger] pairs[j]).0,
                ) implies name_in(pairs[i].0) != "type"@ && name_in(pairs[i].0) != "sdp"@ by {
                assert(names[i] == name_in(pairs[i].0) && names[j] == name_in(pairs[j].0));
            }
        },
        _ => {},
    }
}

/// A candidate is read from a record only as the record says it: its text is
/// there, and each other part is there as it is, or as null, or not at all where
/// it is unset.
pub proof fn only_spoken_candidates_are_read(record: RecordView, c: IceCandidateView)
    requires
        candidate_of(record) == Ok::<IceCandidateView, SignalError>(c),
    ensures
        record matches RecordView::Array(items) ==> items.len() == 4 && items[0] == ItemView::Text(
            c.candidate,
        ) && (match c.sdp_mid {
            Some(s) => items[1] == ItemView::Text(s),
            None => items[1] is Null,
        }) && (match c.sdp_mline_index {
            Some(n) => items[2] == ItemView::Natural(n as u64),
            None => items[2] is Null,
        }) && (match c.username_fragment {
            Some(s) => items[3] == ItemView::Text(s),
            None => items[3] is Null,
        }),
        record matches RecordView::Object(items) ==> items.contains(
            ("candidate"@, ItemView::Text(c.candidate)),
        ) && (match c.sdp_mid {
            Some(s) => items.contains(("sdpMid"@, ItemView::Text(s))),
            None => forall|i: int|
                0 <= i < items.len() && (#[trigger] items[i]).0 == "sdpMid"@ ==> items[i].1 is Null,
        }) && (match c.sdp_mline_index {
            Some(n) => items.contains(("sdpMLineIndex"@, ItemView::Natural(n as u64))),
            None => forall|i: int|
                0 <= i < items.len() && (#[trigger] items[i]).0 == "sdpMLineIndex"@
                    ==> items[i].1 is Null,
        }) && (match c.username_fragment {
            Some(s) => items.contains(("usernameFragment"@, ItemView::Text(s))),
            None => forall|i: int|
                0 <= i < items.len() && (#[trigger] items[i]).0 == "usernameFragment"@
                    ==> items[i].1 is Null,
        }),
{
    if let RecordView::Object(items) = record {
        lemma_part_is_said(items, "candidate"@, 0, SignalError::NoCandidate);
        lemma_part_is_said(items, "sdpMid"@, 1, SignalError::BadSdpMid);
        lemma_part_is_said(items, "sdpMLineIndex"@, 2, SignalError::BadSdpMLineIndex);
        lemma_part_is_said(items, "usernameFragment"@, 3, SignalError::BadUsernameFragment);
    }
}

proof fn lemma_part_is_said(
    items: Seq<(Seq<char>, ItemView)>,
    name: Seq<char>,
    at: int,
    error: SignalError,
)
    ensures
        (match part(RecordView::Object(items), name, at, error) {
            Ok(Some(item)) => items.contains((name, item)) && forall|i: int|
                0 <= i < items.len() && (#[trigger] items[i]).0 == name ==> items[i].1 == item,
            Ok(None) => forall|i: int| 0 <= i < items.len() ==> (#[trigger] items[i]).0 != name,
            Err(e) => e == error && exists|i: int, j: int|
                0 <= i < j < items.len() && (#[trigger] items[i]).0 == name && (
                #[trigger] items[j]).0 == name,
        }),
{
    let names = names_in(items);
    names_have_their_places(names, name);
    assert forall|i: int| 0 <= i < items.len() implies #[trigger] names[i] == items[i].0 by {}
    match place(names, name) {
        Place::At(k) => {
            assert(names[k] == name);
            assert(items[k] == (name, items[k].1));
            assert forall|i: int| 0 <= i < items.len() && (#[trigger] items[i]).0
                == name implies items[i].1 == items[k].1 by {
                assert(names[i] == items[i].0);
            }
        },
        Place::Missing => {
            assert forall|i: int| 0 <= i < items.len() implies (#[trigger] items[i]).0 != name by {
                assert(names[i] == items[i].0);
            }
        },
        Place::Repeated => {
            let (i, j) = choose|i: int, j: int|
                0 <= i < j < names.len() && #[trigger] names[i] == name && #[trigger] names[j]
                    == name;
            assert(items[i].0 == name && items[j].0 == name);
        },
    }
}

/// A candidate is read from a document only whole, from the field or the place
/// for it, or spelled out in the document's own fields. Its type is said.
pub proof fn candidates_come_whole_or_spread(document: DocumentView, c: IceCandidateView)
    requires
        signal_of_document(document) == Ok::<SignalView, SignalError>(
            (SignalView::Candidate { candidate: c }),
        ),
    ensures
        document matches DocumentView::Array(fields) ==> fields.len() == 2 && fields[0]
            == FieldView::Item(ItemView::Text("candidate"@)) && (
        fields[1] matches FieldView::Record(record) && candidate_of(record) == Ok::<
            IceCandidateView,
            SignalError,
        >(c)),
        document matches DocumentView::Object(fields) ==> fields.contains(
            ("type"@, FieldView::Item(ItemView::Text("candidate"@))),
        ) && exists|i: int|
            0 <= i < fields.len() && (#[trigger] fields[i]).0 == "candidate"@ && match fields[i].1 {
                FieldView::Record(record) => candidate_of(record) == Ok::<
                    IceCandidateView,
                    SignalError,
                >(c),
                FieldView::Item(_) => candidate_of(flattened(fields)) == Ok::<
                    IceCandidateView,
                    SignalError,
                >(c),
            },
{
    if let DocumentView::Object(fields) = document {
        let names = names_in(fields);
        names_have_their_places(names, "type"@);
        names_have_their_places(names, "candidate"@);
        let t = place(names, "type"@)->At_0;
        let at = place(names, "candidate"@)->At_0;
        assert(names[t] == "type"@ && names[at] == "candidate"@);
        assert(fields[t] == ("type"@, FieldView::Item(ItemView::Text("candidate"@))));
        assert(fields[at].0 == "candidate"@);
    }
}

/// An object's own fields, taken as single values, keep their names, order and
/// values; an array or object among them is no value that a message carries.
pub proof fn spread_fields_stay_in_place(fields: Seq<(Seq<char>, FieldView)>)
    ensures
        flattened(fields) matches RecordView::Object(items) && items.len() == fields.len()
            && forall|i: int|
            0 <= i < fields.len() ==> (#[trigger] items[i]).0 == fields[i].0 && items[i].1 == (
            match fields[i].1 {
                FieldView::Item(item) => item,
                FieldView::Record(_) => ItemView::Other,
            }),
{
}

/// A text that is no message is refused for its first fault: it is no JSON array
/// or object; its type is not said, or not said once, as a text; or its type is
/// none of the three.
pub proof fn refusals_name_the_first_fault(text: Seq<char>)
    ensures
        (match json_value(text) {
            Some(Json::Array(values)) => {
                &&& signal_of(text) == Err::<SignalView, SignalError>(SignalError::NoType) <==> (
                values.len() == 0 || !(values[0] is Text))
                &&& signal_of(text) == Err::<SignalView, SignalError>(SignalError::UnknownType)
                    <==> values.len() > 0 && (values[0] matches Json::Text(kind) && kind
                    != "offer"@ && kind != "answer"@ && kind != "candidate"@)
            },
            Some(Json::Object(pairs)) => signal_of(text) == Err::<SignalView, SignalError>(
                SignalError::NoType,
            ) <==> !(exists|t: int|
                0 <= t < pairs.len() && name_in((#[trigger] pairs[t]).0) == "type"@
                    && pairs[t].1 is Text && forall|i: int|
                    0 <= i < pairs.len() && i != t ==> name_in((#[trigger] pairs[i]).0)
                        != "type"@),
            _ => signal_of(text) == Err::<SignalView, SignalError>(SignalError::Unreadable),
        }),
{
    match json_value(text) {
        Some(Json::Array(values)) => {
            let fields = values.map_values(|j: Json| field_in(j));
            if values.len() > 0 {
                assert(fields[0] == field_in(values[0]));
            }
        },
        Some(Json::Object(pairs)) => {
            let fields = pairs.map_values(|p: (Json, Json)| (name_in(p.0), field_in(p.1)));
            let names = names_in(fields);
            names_have_their_places(names, "type"@);
            assert forall|i: int| 0 <= i < pairs.len() implies #[trigger] names[i] == name_in(
                pairs[i].0,
            ) by {}
            if place(names, "type"@) is At {
                let t = place(names, "type"@)->At_0;
                assert(names[t] == "type"@);
                assert(fields[t].1 == field_in(pairs[t].1));
                assert forall|i: int| 0 <= i < pairs.len() && i != t implies name_in(
                    (#[trigger] pairs[i]).0,
                ) != "type"@ by {
                    assert(names[i] == name_in(pairs[i].0));
                }
                assert(name_in(pairs[t].0) == "type"@);
            }
            assert forall|t: int|
                0 <= t < pairs.len() && name_in((#[trigger] pairs[t]).0) == "type"@
                    && pairs[t].1 is Text && (forall|i: int|
                    0 <= i < pairs.len() && i != t ==> name_in((#[trigger] pairs[i]).0)
                        != "type"@) implies place(names, "type"@) == Place::At(t) by {
                assert(names[t] == "type"@);
                assert forall|i: int| 0 <= i < names.len() && i != t implies #[trigger] names[i]
                    != "type"@ by {
                    assert(names[i] == name_in(pairs[i].0));
                }
                lemma_place(names, "type"@, t);
            }
        },
        _ => {},
    }
}

/// An array that is no candidate is refused for its first fault: it has not four
/// values, its text is none, its `sdpMid` is neither null nor a text, its index is
/// neither null nor below 65536, or its `usernameFragment` is neither null nor a
/// text.
pub proof fn bad_candidates_name_the_first_bad_part(items: Seq<ItemView>)
    ensures
        candidate_of(RecordView::Array(items)) matches Err(e) ==> e == (if items.len() != 4 {
            SignalError::WrongLength
        } else if !(items[0] is Text) {
            SignalError::NoCandidate
        } else if !(items[1] is Text || items[1] is Null) {
            SignalError::BadSdpMid
        } else if !(items[2] is Null || (items[2] matches ItemView::Natural(n) && n < 65536)) {
            SignalError::BadSdpMLineIndex
        } else {
            SignalError::BadUsernameFragment
        }),
        candidate_of(RecordView::Array(items)) is Ok <==> items.len() == 4 && items[0] is Text && (
        items[1] is Text || items[1] is Null) && (items[2] is Null || (
        items[2] matches ItemView::Natural(n) && n < 65536)) && (items[3] is Text
            || items[3] is Null),
{
}

/// An offer or an answer without its one `sdp`, as a text, is refused for that; an
/// array of more or fewer than two values is refused for its length.
pub proof fn messages_without_an_sdp_are_refused(document: DocumentView)
    requires
        type_of(document) == Ok::<Seq<char>, SignalError>("offer"@) || type_of(document) == Ok::<
            Seq<char>,
            SignalError,
        >("answer"@),
    ensures
        document matches DocumentView::Array(fields) ==> signal_of_document(document) is Ok || (
        signal_of_document(document) == Err::<SignalView, SignalError>(
            if fields.len() == 2 {
                SignalError::NoSdp
            } else {
                SignalError::WrongLength
            },
        )),
        document is Object ==> signal_of_document(document) is Ok || signal_of_document(document)
            == Err::<SignalView, SignalError>(SignalError::NoSdp),
{
}

} // verus!
