//! Frames and ICE servers.
use bytes::Bytes;
use vstd::prelude::*;
use vstd::string::StrSliceExecFns;

use crate::config::EnvVars;
use crate::text::{chars_of, find_from, first_at, split, split_trimmed, texts, trimmed, trimmed_pieces};

verus! {

#[verifier::external_type_specification]
#[verifier::external_body]
pub struct ExBytes(Bytes);

/// The bytes that a `Bytes` buffer holds.
pub uninterp spec fn bytes_held(buffer: Bytes) -> Seq<u8>;

/// Calls `bytes::Bytes::copy_from_slice`: the buffer holds the bytes of the
/// slice.
#[verifier::external_body]
fn copy_from_slice(data: &[u8]) -> (buffer: Bytes)
    ensures
        bytes_held(buffer) == data@,
{
    Bytes::copy_from_slice(data)
}

/// `<bytes::Bytes as Clone>::clone`: the clone holds the same bytes.
pub assume_specification[ <Bytes as Clone>::clone ](buffer: &Bytes) -> (copy: Bytes)
    ensures
        bytes_held(copy) == bytes_held(*buffer),
;

/// A raw I420 frame from the capture pipeline.
pub struct RawFrame {
    pub data: Bytes,
    /// Presentation time in nanoseconds.
    pub pts: u64,
}

/// An encoded H.264 NAL unit ready for RTP packetization.
pub struct EncodedFrame {
    pub data: Bytes,
    /// Time that the frame is shown for, in nanoseconds.
    pub duration: u64,
}

impl Clone for RawFrame {
    fn clone(&self) -> (frame: Self)
        ensures
            bytes_held(frame.data) == bytes_held(self.data),
            frame.pts == self.pts,
    {
        RawFrame { data: self.data.clone(), pts: self.pts }
    }
}

impl Clone for EncodedFrame {
    fn clone(&self) -> (frame: Self)
        ensures
            bytes_held(frame.data) == bytes_held(self.data),
            frame.duration == self.duration,
    {
        EncodedFrame { data: self.data.clone(), duration: self.duration }
    }
}

impl RawFrame {
    /// A frame with a copy of `data`.
    pub fn copied(data: &[u8], pts: u64) -> (frame: RawFrame)
        ensures
            bytes_held(frame.data) == data@,
            frame.pts == pts,
    {
        RawFrame { data: copy_from_slice(data), pts }
    }
}

impl EncodedFrame {
    /// A frame with a copy of `data`.
    pub fn copied(data: &[u8], duration: u64) -> (frame: EncodedFrame)
        ensures
            bytes_held(frame.data) == data@,
            frame.duration == duration,
    {
        EncodedFrame { data: copy_from_slice(data), duration }
    }
}

/// ICE server configuration (STUN/TURN) for NAT traversal.
#[derive(Clone, Debug)]
pub struct IceServers {
    pub stun: Vec<String>,
    /// Each entry is (url, username, password).
    pub turn: Vec<(String, String, String)>,
}

/// The texts of a TURN entry.
pub open spec fn turn_texts(entry: (String, String, String)) -> (Seq<char>, Seq<char>, Seq<char>) {
    (entry.0@, entry.1@, entry.2@)
}

/// The STUN server that is used where none is configured.
pub open spec fn default_stun() -> Seq<Seq<char>> {
    seq!["stun:stun.l.google.com:19302"@]
}

/// The URLs in a comma-separated list, each trimmed.
pub open spec fn stun_list(list: Seq<char>) -> Seq<Seq<char>> {
    split(list, ',').map_values(|p: Seq<char>| trimmed(p))
}

/// The `(url, user, pass)` of an entry `url|user|pass`: the first two bars
/// separate, later ones belong to the password. With fewer bars there is no
/// entry.
pub open spec fn turn_entry(entry: Seq<char>) -> Option<(Seq<char>, Seq<char>, Seq<char>)> {
    let first = first_at(entry, '|', 0);
    let second = first_at(entry, '|', first + 1);
    if second < entry.len() {
        Some((entry.take(first), entry.subrange(first + 1, second), entry.skip(second + 1)))
    } else {
        None
    }
}

/// The entries among `pieces`, in order; pieces that are no entry are left out.
pub open spec fn turn_entries(pieces: Seq<Seq<char>>) -> Seq<(Seq<char>, Seq<char>, Seq<char>)>
    decreases pieces.len(),
{
    if pieces.len() == 0 {
        Seq::empty()
    } else {
        let before = turn_entries(pieces.drop_last());
        match turn_entry(pieces.last()) {
            Some(entry) => before.push(entry),
            None => before,
        }
    }
}

/// The entries in a semicolon-separated list, each trimmed.
pub open spec fn turn_list(list: Seq<char>) -> Seq<(Seq<char>, Seq<char>, Seq<char>)> {
    turn_entries(split(list, ';').map_values(|p: Seq<char>| trimmed(p)))
}

impl IceServers {
    pub open spec fn stun_urls(self) -> Seq<Seq<char>> {
        texts(self.stun@)
    }

    pub open spec fn turn_servers(self) -> Seq<(Seq<char>, Seq<char>, Seq<char>)> {
        self.turn@.map_values(|e: (String, String, String)| turn_texts(e))
    }
}

impl Default for IceServers {
    fn default() -> (servers: Self)
        ensures
            servers.stun_urls() == default_stun(),
            servers.turn_servers() == Seq::<(Seq<char>, Seq<char>, Seq<char>)>::empty(),
            servers.stun.len() == 1,
            servers.stun@[0]@ == "stun:stun.l.google.com:19302"@,
            servers.turn.len() == 0,
    {
        let mut stun: Vec<String> = Vec::new();
        stun.push("stun:stun.l.google.com:19302".to_owned());
        IceServers { stun, turn: Vec::new() }
    }
}

/// Reads one TURN entry `url|user|pass`.
pub fn parse_turn_entry(entry: &str) -> (parsed: Option<(String, String, String)>)
    ensures
        parsed matches Some(e) ==> turn_entry(entry@) == Some(turn_texts(e)),
        parsed is None ==> turn_entry(entry@) is None,
        parsed matches Some(e) ==> entry@ == e.0@.push('|') + e.1@.push('|') + e.2@
            && !e.0@.contains('|') && !e.1@.contains('|'),
        parsed is None ==> forall|i: int, j: int|
            0 <= i < j < entry@.len() ==> !(#[trigger] entry@[i] == '|' && #[trigger] entry@[j]
                == '|'),
{
    proof {
        turn_entries_are_cut_at_two_bars(entry@);
    }
    let chars = chars_of(entry);
    let first = find_from(&chars, '|', 0);
    if first == chars.len() {
        return None;
    }
    let second = find_from(&chars, '|', first + 1);
    if second == chars.len() {
        return None;
    }
    let url = entry.substring_char(0, first).to_owned();
    let user = entry.substring_char(first + 1, second).to_owned();
    let pass = entry.substring_char(second + 1, chars.len()).to_owned();
    assert(entry@.take(first as int) == entry@.subrange(0, first as int));
    assert(entry@.skip(second + 1) == entry@.subrange(second + 1, entry@.len() as int));
    Some((url, user, pass))
}

/// Reads the entries of a semicolon-separated TURN list.
fn parse_turn_list(list: &str) -> (turn: Vec<(String, String, String)>)
    ensures
        turn@.map_values(|e: (String, String, String)| turn_texts(e)) == turn_list(list@),
{
    let pieces = split_trimmed(list, ';');
    let ghost all = texts(pieces@);
    let ghost view = |e: (String, String, String)| turn_texts(e);
    let mut turn: Vec<(String, String, String)> = Vec::new();
    let mut i: usize = 0;
    assert(turn@.map_values(view) == turn_entries(all.take(0)));
    while i < pieces.len()
        invariant
            i <= pieces.len(),
            all == texts(pieces@),
            view == (|e: (String, String, String)| turn_texts(e)),
            turn@.map_values(view) == turn_entries(all.take(i as int)),
        decreases pieces.len() - i,
    {
        assert(all.take(i + 1).drop_last() == all.take(i as int));
        assert(all.take(i + 1).last() == pieces@[i as int]@);
        if let Some(entry) = parse_turn_entry(pieces[i].as_str()) {
            let ghost before = turn@;
            turn.push(entry);
            assert(turn@.map_values(view) == before.map_values(view).push(turn_texts(entry)));
        }
        i = i + 1;
    }
    assert(all.take(i as int) == all);
    turn
}

/// The pieces that are no entry, in order.
pub open spec fn pieces_ignored(pieces: Seq<Seq<char>>) -> Seq<Seq<char>>
    decreases pieces.len(),
{
    if pieces.len() == 0 {
        Seq::empty()
    } else {
        let before = pieces_ignored(pieces.drop_last());
        match turn_entry(pieces.last()) {
            Some(_) => before,
            None => before.push(pieces.last()),
        }
    }
}

/// The trimmed pieces of a semicolon-separated TURN list that are no entry.
pub open spec fn turn_ignored(list: Seq<char>) -> Seq<Seq<char>> {
    pieces_ignored(split(list, ';').map_values(|p: Seq<char>| trimmed(p)))
}

/// The pieces of a semicolon-separated TURN list that are no entry.
fn ignored_pieces(list: &str) -> (ignored: Vec<String>)
    ensures
        texts(ignored@) == turn_ignored(list@),
{
    let pieces = split_trimmed(list, ';');
    let ghost all = texts(pieces@);
    let mut ignored: Vec<String> = Vec::new();
    let mut i: usize = 0;
    assert(texts(ignored@) == pieces_ignored(all.take(0)));
    while i < pieces.len()
        invariant
            i <= pieces.len(),
            all == texts(pieces@),
            texts(ignored@) == pieces_ignored(all.take(i as int)),
        decreases pieces.len() - i,
    {
        assert(all.take(i + 1).drop_last() == all.take(i as int));
        assert(all.take(i + 1).last() == pieces@[i as int]@);
        if parse_turn_entry(pieces[i].as_str()).is_none() {
            let ghost before = ignored@;
            let piece = pieces[i].clone();
            ignored.push(piece);
            assert(texts(ignored@) == texts(before).push(piece@));
        }
        i = i + 1;
    }
    assert(all.take(i as int) == all);
    ignored
}

impl IceServers {
    /// The entries of `TURN_SERVERS` that [`IceServers::from_env`] ignores,
    /// trimmed, in order: those that do not have the form `url|user|pass`.
    pub fn ignored_turn_entries(vars: &EnvVars) -> (ignored: Vec<String>)
        ensures
            texts(ignored@) == (match vars.value("TURN_SERVERS"@) {
                Some(list) => turn_ignored(list),
                None => Seq::empty(),
            }),
            vars.value("TURN_SERVERS"@) is None ==> ignored.len() == 0,
            vars.value("TURN_SERVERS"@) matches Some(list) ==> texts(ignored@) == pieces_ignored(
                trimmed_pieces(list, ';'),
            ),
    {
        match vars.get("TURN_SERVERS") {
            Some(list) => ignored_pieces(list),
            None => {
                let none: Vec<String> = Vec::new();
                assert(texts(none@) == Seq::<Seq<char>>::empty());
                none
            },
        }
    }

    /// ICE servers from the environment, or the defaults.
    ///
    /// - `STUN_SERVERS`: comma-separated STUN URLs.
    /// - `TURN_SERVERS`: semicolon-separated `url|user|pass` triplets; an
    ///   entry of another form is ignored
    ///   (see [`IceServers::ignored_turn_entries`]).
    pub fn from_env(vars: &EnvVars) -> (servers: Self)
        ensures
            servers.stun_urls() == (match vars.value("STUN_SERVERS"@) {
                Some(list) => stun_list(list),
                None => default_stun(),
            }),
            servers.turn_servers() == (match vars.value("TURN_SERVERS"@) {
                Some(list) => turn_list(list),
                None => Seq::empty(),
            }),
            vars.value("STUN_SERVERS"@) is None ==> servers.stun.len() == 1 && servers.stun@[0]@
                == "stun:stun.l.google.com:19302"@,
            vars.value("TURN_SERVERS"@) is None ==> servers.turn.len() == 0,
            vars.value("STUN_SERVERS"@) matches Some(list) ==> texts(servers.stun@)
                == trimmed_pieces(list, ','),
            vars.value("TURN_SERVERS"@) matches Some(list) ==> servers.turn_servers()
                == turn_entries(trimmed_pieces(list, ';')),
    {
        let mut servers = IceServers::default();
        if let Some(list) = vars.get("STUN_SERVERS") {
            servers.stun = split_trimmed(list, ',');
        }
        if let Some(list) = vars.get("TURN_SERVERS") {
            servers.turn = parse_turn_list(list);
        }
        servers
    }
}

/// Every piece of a TURN list is either an entry or ignored.
pub proof fn turn_pieces_are_read_or_ignored(pieces: Seq<Seq<char>>)
    ensures
        turn_entries(pieces).len() + pieces_ignored(pieces).len() == pieces.len(),
        forall|i: int|
            0 <= i < pieces_ignored(pieces).len() ==> turn_entry(
                #[trigger] pieces_ignored(pieces)[i],
            ) is None,
    decreases pieces.len(),
{
    if pieces.len() > 0 {
        turn_pieces_are_read_or_ignored(pieces.drop_last());
    }
}

proof fn lemma_first_at(s: Seq<char>, c: char, from: int, at: int)
    requires
        0 <= from <= at < s.len(),
        s[at] == c,
        forall|i: int| from <= i < at ==> s[i] != c,
    ensures
        first_at(s, c, from) == at,
    decreases at - from,
{
    if from < at {
        lemma_first_at(s, c, from + 1, at);
    }
}

/// An entry written as `url|user|pass`, where neither the URL nor the user
/// holds a bar, reads back as its three parts.
pub proof fn turn_entry_reads_back(url: Seq<char>, user: Seq<char>, pass: Seq<char>)
    requires
        !url.contains('|'),
        !user.contains('|'),
    ensures
        turn_entry(url.push('|') + user.push('|') + pass) == Some((url, user, pass)),
{
    let entry = url.push('|') + user.push('|') + pass;
    let first = url.len() as int;
    let second = first + 1 + user.len();
    assert forall|i: int| 0 <= i < first implies entry[i] != '|' by {
        assert(url.contains(url[i]));
    }
    assert forall|i: int| first < i < second implies entry[i] != '|' by {
        assert(user.contains(user[i - first - 1]));
    }
    lemma_first_at(entry, '|', 0, first);
    lemma_first_at(entry, '|', first + 1, second);
    assert(entry.take(first) == url);
    assert(entry.subrange(first + 1, second) == user);
    assert(entry.skip(second + 1) == pass);
}

proof fn lemma_first_at_finds(s: Seq<char>, c: char, from: int)
    requires
        0 <= from <= s.len(),
    ensures
        from <= first_at(s, c, from) <= s.len(),
        forall|i: int| from <= i < first_at(s, c, from) ==> #[trigger] s[i] != c,
        first_at(s, c, from) < s.len() ==> s[first_at(s, c, from)] == c,
    decreases s.len() - from,
{
    if from < s.len() && s[from] != c {
        lemma_first_at_finds(s, c, from + 1);
    }
}

/// An entry is cut at its first two bars and nowhere else: its parts with the
/// bars between them are the entry again, and neither the URL nor the user holds
/// a bar. A text without two bars is no entry.
pub proof fn turn_entries_are_cut_at_two_bars(entry: Seq<char>)
    ensures
        turn_entry(entry) matches Some((url, user, pass)) ==> entry == url.push('|') + user.push(
            '|',
        ) + pass && !url.contains('|') && !user.contains('|'),
        turn_entry(entry) is None <==> forall|i: int, j: int|
            0 <= i < j < entry.len() ==> !(#[trigger] entry[i] == '|' && #[trigger] entry[j]
                == '|'),
{
    lemma_first_at_finds(entry, '|', 0);
    let first = first_at(entry, '|', 0);
    if first < entry.len() {
        lemma_first_at_finds(entry, '|', first + 1);
        let second = first_at(entry, '|', first + 1);
        if second < entry.len() {
            let url = entry.take(first);
            let user = entry.subrange(first + 1, second);
            let pass = entry.skip(second + 1);
            assert(entry =~= url.push('|') + user.push('|') + pass);
            assert(entry[first] == '|' && entry[second] == '|');
        }
    }
}

/// The servers of a list of pieces are those of its parts, in order: each piece
/// that is an entry is one server, and any other is none.
pub proof fn turn_entries_keep_their_order(before: Seq<Seq<char>>, behind: Seq<Seq<char>>)
    ensures
        turn_entries(before + behind) == turn_entries(before) + turn_entries(behind),
        pieces_ignored(before + behind) == pieces_ignored(before) + pieces_ignored(behind),
    decreases behind.len(),
{
    if behind.len() == 0 {
        assert(before + behind =~= before);
        assert(turn_entries(before + behind) =~= turn_entries(before) + turn_entries(behind));
        assert(pieces_ignored(before + behind) =~= pieces_ignored(before) + pieces_ignored(
            behind,
        ));
    } else {
        assert((before + behind).drop_last() =~= before + behind.drop_last());
        turn_entries_keep_their_order(before, behind.drop_last());
        assert(turn_entries(before + behind) =~= turn_entries(before) + turn_entries(behind));
        assert(pieces_ignored(before + behind) =~= pieces_ignored(before) + pieces_ignored(
            behind,
        ));
    }
}

/// A piece is one server where it has the form of an entry; otherwise it is
/// ignored as it is.
pub proof fn one_piece_is_one_server_or_none(piece: Seq<char>)
    ensures
        turn_entry(piece) matches Some(server) ==> turn_entries(seq![piece]) == seq![server]
            && pieces_ignored(seq![piece]).len() == 0,
        turn_entry(piece) is None ==> turn_entries(seq![piece]).len() == 0 && pieces_ignored(
            seq![piece],
        ) == seq![piece],
{
    let none = Seq::<Seq<char>>::empty();
    assert(seq![piece].drop_last() =~= none);
    assert(turn_entries(none).len() == 0);
    assert(pieces_ignored(none).len() == 0);
    if turn_entry(piece) is Some {
        assert(turn_entries(seq![piece]) =~= seq![turn_entry(piece)->0]);
    } else {
        assert(pieces_ignored(seq![piece]) =~= seq![piece]);
    }
}

/// What is known of a list of servers is what its fields hold.
pub proof fn ice_servers_are_their_fields(servers: IceServers)
    ensures
        servers.stun_urls().len() == servers.stun@.len(),
        forall|i: int|
            0 <= i < servers.stun@.len() ==> #[trigger] servers.stun_urls()[i] == servers.stun@[i]@,
        servers.turn_servers().len() == servers.turn@.len(),
        forall|i: int|
            0 <= i < servers.turn@.len() ==> #[trigger] servers.turn_servers()[i] == (
                servers.turn@[i].0@,
                servers.turn@[i].1@,
                servers.turn@[i].2@,
            ),
{
}

} // verus!
