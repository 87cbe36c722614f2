//! The decisions behind the HTTP routes.
use axum::http::header::{HeaderValue, InvalidHeaderValue};
use std::sync::atomic::AtomicUsize;
use std::sync::Arc;
use tower_http::cors::AllowOrigin;
use vstd::prelude::*;
use vstd::utf8::encode_utf8;

use crate::config::Config;
use crate::slots::{count_steps, granted, refused, CountStep, PeerSlot, Refusal};
use crate::text::texts;

verus! {

#[verifier::external_type_specification]
#[verifier::external_body]
pub struct ExHeaderValue(HeaderValue);

#[verifier::external_type_specification]
#[verifier::external_body]
pub struct ExInvalidHeaderValue(InvalidHeaderValue);

#[verifier::external_type_specification]
#[verifier::external_body]
pub struct ExAllowOrigin(AllowOrigin);

/// The bytes that a header value holds.
pub uninterp spec fn header_bytes(value: HeaderValue) -> Seq<u8>;

/// The origins that a CORS list holds, in order.
pub uninterp spec fn listed_origins(list: AllowOrigin) -> Seq<Seq<u8>>;

/// Whether a CORS list allows every origin, by the wildcard.
pub uninterp spec fn allows_any(list: AllowOrigin) -> bool;

/// A byte that may stand in a header value.
pub open spec fn is_header_byte(b: u8) -> bool {
    b == 9 || (b >= 32 && b != 127)
}

/// A text that may be a header value.
pub open spec fn is_header_text(s: Seq<char>) -> bool {
    forall|i: int| 0 <= i < encode_utf8(s).len() ==> is_header_byte(#[trigger] encode_utf8(s)[i])
}

/// The bytes of the wildcard origin `*`.
pub open spec fn wildcard() -> Seq<u8> {
    seq![42u8]
}

/// Calls `HeaderValue::from_str`: it accepts exactly the texts whose bytes may
/// all stand in a header value, and the value holds those bytes.
#[verifier::external_body]
fn header_value(s: &str) -> (value: Result<HeaderValue, InvalidHeaderValue>)
    ensures
        value is Ok <==> is_header_text(s@),
        value matches Ok(v) ==> header_bytes(v) == encode_utf8(s@),
{
    HeaderValue::from_str(s)
}

/// Calls `AllowOrigin::any`: every origin is allowed.
#[verifier::external_body]
fn any_origin() -> (list: AllowOrigin)
    ensures
        allows_any(list),
{
    AllowOrigin::any()
}

/// Calls `AllowOrigin::list`, which panics on the wildcard: the list holds the
/// values in order, and allows no other origin.
#[verifier::external_body]
fn list_origins(origins: Vec<HeaderValue>) -> (list: AllowOrigin)
    requires
        forall|i: int|
            0 <= i < origins@.len() ==> header_bytes(#[trigger] origins@[i]) != wildcard(),
    ensures
        !allows_any(list),
        listed_origins(list) == origins@.map_values(|v: HeaderValue| header_bytes(v)),
{
    AllowOrigin::list(origins)
}

/// Health check: always `"ok"`.
pub fn health() -> (body: &'static str)
    ensures
        body@ == "ok"@,
{
    "ok"
}

/// Why the allowed origins cannot be listed.
#[derive(Clone, Copy, Debug, PartialEq, Eq, Structural)]
pub enum OriginError {
    /// The origin at this position is no header value.
    Invalid(usize),
    /// The origin at this position is the wildcard, and it is not the only one.
    Wildcard(usize),
}

/// The position of the first origin that is no header value.
pub open spec fn first_invalid(origins: Seq<Seq<char>>, at: int) -> bool {
    &&& 0 <= at < origins.len()
    &&& !is_header_text(origins[at])
    &&& forall|i: int| 0 <= i < at ==> is_header_text(#[trigger] origins[i])
}

/// The position of the first wildcard.
pub open spec fn first_wildcard(origins: Seq<Seq<char>>, at: int) -> bool {
    &&& 0 <= at < origins.len()
    &&& encode_utf8(origins[at]) == wildcard()
    &&& forall|i: int| 0 <= i < at ==> encode_utf8(#[trigger] origins[i]) != wildcard()
}

/// Every origin is a header value.
pub open spec fn all_header_texts(origins: Seq<Seq<char>>) -> bool {
    forall|i: int| 0 <= i < origins.len() ==> is_header_text(#[trigger] origins[i])
}

/// The list is the wildcard alone.
pub open spec fn only_wildcard(origins: Seq<Seq<char>>) -> bool {
    origins.len() == 1 && encode_utf8(origins[0]) == wildcard()
}

/// The outcome of listing these origins.
pub open spec fn listing(
    origins: Seq<Seq<char>>,
    listed: Result<AllowOrigin, OriginError>,
) -> bool {
    match listed {
        Ok(list) => if only_wildcard(origins) {
            allows_any(list)
        } else {
            &&& !allows_any(list)
            &&& all_header_texts(origins)
            &&& forall|i: int|
                0 <= i < origins.len() ==> encode_utf8(#[trigger] origins[i]) != wildcard()
            &&& listed_origins(list) == origins.map_values(|o: Seq<char>| encode_utf8(o))
        },
        Err(OriginError::Invalid(at)) => first_invalid(origins, at as int),
        Err(OriginError::Wildcard(at)) => origins.len() > 1 && all_header_texts(origins)
            && first_wildcard(origins, at as int),
    }
}

/// Whether a text is the wildcard origin.
fn is_wildcard(s: &str) -> (is: bool)
    ensures
        is == (encode_utf8(s@) == wildcard()),
{
    let bytes = s.as_bytes();
    let is: bool = bytes.len() == 1 && bytes[0] == 42;
    assert(is ==> bytes@ == wildcard());
    is
}

/// The CORS list of the allowed origins; `*` alone allows every origin. An
/// origin that is no header value, or else a wildcard among other origins, makes
/// the configuration unusable.
pub fn allowed_origins(config: &Config) -> (listed: Result<AllowOrigin, OriginError>)
    ensures
        listing(config@.allowed_origins, listed),
        listed is Ok <==> (config@.allowed_origins.len() == 1 && encode_utf8(
            config@.allowed_origins[0],
        ) == seq![42u8]) || forall|i: int|
            0 <= i < config@.allowed_origins.len() ==> is_header_text(
                #[trigger] config@.allowed_origins[i],
            ) && encode_utf8(config@.allowed_origins[i]) != seq![42u8],
        listed matches Ok(list) ==> (allows_any(list) <==> config@.allowed_origins.len() == 1
            && encode_utf8(config@.allowed_origins[0]) == seq![42u8]),
        listed matches Ok(list) ==> allows_any(list) || (listed_origins(list).len()
            == config@.allowed_origins.len() && forall|i: int|
            0 <= i < config@.allowed_origins.len() ==> #[trigger] listed_origins(list)[i]
                == encode_utf8(config@.allowed_origins[i])),
        listed matches Err(OriginError::Invalid(at)) ==> at < config@.allowed_origins.len()
            && !is_header_text(config@.allowed_origins[at as int]),
        listed matches Err(OriginError::Wildcard(at)) ==> at < config@.allowed_origins.len()
            && encode_utf8(config@.allowed_origins[at as int]) == seq![42u8],
{
    let origins = &config.allowed_origins;
    let ghost all = texts(origins@);
    if origins.len() == 1 && is_wildcard(origins[0].as_str()) {
        return Ok(any_origin());
    }
    assert(!only_wildcard(all));
    let mut values: Vec<HeaderValue> = Vec::new();
    let mut i: usize = 0;
    while i < origins.len()
        invariant
            i <= origins.len(),
            all == texts(origins@),
            all == config@.allowed_origins,
            !only_wildcard(all),
            values.len() == i,
            forall|k: int| 0 <= k < i ==> is_header_text(#[trigger] all[k]),
            forall|k: int| 0 <= k < i ==> header_bytes(#[trigger] values@[k]) == encode_utf8(all[k]),
        decreases origins.len() - i,
    {
        assert(all[i as int] == origins@[i as int]@);
        match header_value(origins[i].as_str()) {
            Ok(value) => {
                values.push(value);
            },
            Err(_) => {
                return Err(OriginError::Invalid(i));
            },
        }
        i = i + 1;
    }
    let mut k: usize = 0;
    while k < origins.len()
        invariant
            k <= origins.len(),
            all == texts(origins@),
            all == config@.allowed_origins,
            !only_wildcard(all),
            all_header_texts(all),
            forall|j: int| 0 <= j < k ==> encode_utf8(#[trigger] all[j]) != wildcard(),
        decreases origins.len() - k,
    {
        assert(all[k as int] == origins@[k as int]@);
        if is_wildcard(origins[k].as_str()) {
            return Err(OriginError::Wildcard(k));
        }
        k = k + 1;
    }
    assert forall|j: int| 0 <= j < values@.len() implies header_bytes(#[trigger] values@[j])
        != wildcard() by {
        assert(encode_utf8(all[j]) != wildcard());
    }
    assert forall|j: int| 0 <= j < all.len() implies is_header_text(#[trigger] all[j])
        && encode_utf8(all[j]) != seq![42u8] by {
        assert(encode_utf8(all[j]) != wildcard());
    }
    assert(values@.map_values(|v: HeaderValue| header_bytes(v)) == all.map_values(
        |o: Seq<char>| encode_utf8(o),
    ));
    Ok(list_origins(values))
}

/// The methods that CORS allows: GET alone.
pub fn allowed_methods() -> (methods: Vec<String>)
    ensures
        texts(methods@) == seq!["GET"@],
{
    let mut methods: Vec<String> = Vec::new();
    methods.push("GET".to_owned());
    assert(texts(methods@) =~= seq!["GET"@]);
    methods
}

/// A lower-case hexadecimal digit.
pub open spec fn is_hex(c: char) -> bool {
    '0' as u32 <= c as u32 <= '9' as u32 || 'a' as u32 <= c as u32 <= 'f' as u32
}

/// A random (version 4) UUID in its hyphenated form.
pub open spec fn is_random_uuid(s: Seq<char>) -> bool {
    &&& s.len() == 36
    &&& forall|i: int|
        0 <= i < 36 ==> if i == 8 || i == 13 || i == 18 || i == 23 {
            #[trigger] s[i] == '-'
        } else {
            is_hex(s[i])
        }
    &&& s[14] == '4'
    &&& s[19] == '8' || s[19] == '9' || s[19] == 'a' || s[19] == 'b'
}

#[verifier::external_type_specification]
#[verifier::external_body]
pub struct ExUuid(uuid::Uuid);

/// The hyphenated form of a UUID.
pub uninterp spec fn uuid_text(id: uuid::Uuid) -> Seq<char>;

/// Calls `Uuid::new_v4`: a random UUID. Which one is up to chance.
#[verifier::external_body]
fn new_uuid() -> (id: uuid::Uuid)
    ensures
        is_random_uuid(uuid_text(id)),
{
    uuid::Uuid::new_v4()
}

/// Calls `Uuid::to_string`: the hyphenated form, in lower case.
#[verifier::external_body]
fn format_uuid(id: &uuid::Uuid) -> (text: String)
    ensures
        text@ == uuid_text(*id),
{
    id.to_string()
}

/// The text of a random UUID.
pub open spec fn is_peer_id(text: Seq<char>) -> bool {
    exists|id: uuid::Uuid| text == #[trigger] uuid_text(id) && is_random_uuid(text)
}

/// A peer that may connect: its slot and its ID.
pub struct NewPeer {
    pub slot: PeerSlot,
    pub peer_id: String,
}

/// The status of a refused upgrade: 503 Service Unavailable.
pub const SERVICE_UNAVAILABLE: u16 = 503;

/// An upgrade that is refused: the status to answer, and the search for a slot
/// that found none.
pub struct RefusedUpgrade {
    pub status: u16,
    pub refusal: Refusal,
}

/// What an upgrade request is told once a slot was sought.
pub fn upgrade_reply(slot: Result<PeerSlot, Refusal>) -> (reply: Result<NewPeer, RefusedUpgrade>)
    ensures
        slot matches Err(refusal) ==> reply == Err::<NewPeer, RefusedUpgrade>(
            (RefusedUpgrade { status: SERVICE_UNAVAILABLE, refusal }),
        ),
        reply matches Err(upgrade) ==> slot is Err && upgrade.status == 503,
        slot matches Ok(s) ==> reply matches Ok(peer) && peer.slot == s && is_peer_id(
            peer.peer_id@,
        ),
{
    match slot {
        Ok(slot) => Ok(NewPeer { slot, peer_id: format_uuid(&new_uuid()) }),
        Err(refusal) => Err(RefusedUpgrade { status: SERVICE_UNAVAILABLE, refusal }),
    }
}

/// Decides a WebSocket upgrade request by one atomic step on the peer count:
/// a count below the limit becomes one more, and the peer gets that slot and a
/// new ID; a count at the limit stays, and the request is answered with 503.
pub fn ws_handler(peer_count: Arc<AtomicUsize>, max_peers: usize) -> (reply: Result<
    NewPeer,
    RefusedUpgrade,
>)
    ensures
        reply matches Ok(peer) ==> granted(count_steps(peer_count), max_peers, peer.slot.steps())
            && is_peer_id(peer.peer_id@),
        reply matches Err(upgrade) ==> upgrade.status == SERVICE_UNAVAILABLE && refused(
            count_steps(peer_count),
            max_peers,
            upgrade.refusal.steps(),
            upgrade.refusal.count_found(),
        ),
        reply matches Ok(peer) ==> exists|found: usize|
            found < max_peers && peer.slot.steps() == #[trigger] count_steps(peer_count).push(
                CountStep::Sought { found, limit: max_peers },
            ),
        reply matches Err(upgrade) ==> upgrade.status == 503 && upgrade.refusal.count_found()
            >= max_peers && upgrade.refusal.steps() == count_steps(peer_count).push(
            CountStep::Sought { found: upgrade.refusal.count_found(), limit: max_peers },
        ),
{
    upgrade_reply(PeerSlot::reserve(peer_count, max_peers))
}

/// A header value holds tabs and every byte from space on but the delete
/// character.
pub proof fn header_bytes_are_printable_or_tab(b: u8, s: Seq<char>)
    ensures
        is_header_text(s) <==> forall|i: int|
            0 <= i < encode_utf8(s).len() ==> is_header_byte(#[trigger] encode_utf8(s)[i]),
        is_header_byte(b) <==> b == 9 || 32 <= b <= 126 || b >= 128,
        wildcard() == seq![42u8],
{
}

/// The outcome of listing follows from the origins: `*` alone allows every
/// origin; otherwise the list holds exactly the origins, in order, and none may
/// be `*` or unfit for a header. The error names the first that is unfit, or
/// else the first `*`.
pub proof fn listed_origins_are_the_configured(
    origins: Seq<Seq<char>>,
    listed: Result<AllowOrigin, OriginError>,
)
    requires
        listing(origins, listed),
    ensures
        listed matches Ok(list) ==> if origins.len() == 1 && encode_utf8(origins[0]) == seq![42u8] {
            allows_any(list)
        } else {
            &&& !allows_any(list)
            &&& listed_origins(list).len() == origins.len()
            &&& forall|i: int|
                0 <= i < origins.len() ==> #[trigger] listed_origins(list)[i] == encode_utf8(
                    origins[i],
                ) && is_header_text(origins[i]) && encode_utf8(origins[i]) != seq![42u8]
        },
        listed matches Err(OriginError::Invalid(at)) ==> at < origins.len() && !is_header_text(
            origins[at as int],
        ) && forall|i: int| 0 <= i < at ==> is_header_text(#[trigger] origins[i]),
        listed matches Err(OriginError::Wildcard(at)) ==> at < origins.len() && origins.len() > 1
            && encode_utf8(origins[at as int]) == seq![42u8] && (forall|i: int|
            0 <= i < origins.len() ==> is_header_text(#[trigger] origins[i])) && forall|i: int|
            0 <= i < at ==> encode_utf8(#[trigger] origins[i]) != seq![42u8],
{
}

/// A peer's ID is a version 4 UUID: 36 characters, hyphens at the four places
/// that part its five groups, lower-case hexadecimal digits at all others, the
/// version `4` and the variant `8`, `9`, `a` or `b` at theirs.
pub proof fn peer_ids_are_version_4(id: Seq<char>)
    requires
        is_peer_id(id),
    ensures
        id.len() == 36,
        id[8] == '-' && id[13] == '-' && id[18] == '-' && id[23] == '-',
        id[14] == '4',
        id[19] == '8' || id[19] == '9' || id[19] == 'a' || id[19] == 'b',
        forall|i: int|
            0 <= i < 36 && i != 8 && i != 13 && i != 18 && i != 23 ==> 48 <= (
            #[trigger] id[i]) as u32 <= 57 || 97 <= id[i] as u32 <= 102,
{
}

} // verus!
