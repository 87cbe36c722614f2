//! The ICE servers of a peer connection.
use vstd::prelude::*;

use crate::text::texts;
use crate::types::{turn_texts, IceServers};

verus! {

/// One ICE server of a connection's configuration. A STUN server has no
/// credentials: its user name and credential are empty.
#[derive(Debug)]
pub struct IceServerEntry {
    pub urls: Vec<String>,
    pub username: String,
    pub credential: String,
}

/// What an [`IceServerEntry`] holds.
pub struct IceServerEntryView {
    pub urls: Seq<Seq<char>>,
    pub username: Seq<char>,
    pub credential: Seq<char>,
}

impl View for IceServerEntry {
    type V = IceServerEntryView;

    open spec fn view(&self) -> IceServerEntryView {
        IceServerEntryView {
            urls: texts(self.urls@),
            username: self.username@,
            credential: self.credential@,
        }
    }
}

/// The entry of a STUN server.
pub open spec fn stun_entry(url: Seq<char>) -> IceServerEntryView {
    IceServerEntryView { urls: seq![url], username: Seq::empty(), credential: Seq::empty() }
}

/// The entry of a TURN server.
pub open spec fn turn_server_entry(
    server: (Seq<char>, Seq<char>, Seq<char>),
) -> IceServerEntryView {
    IceServerEntryView { urls: seq![server.0], username: server.1, credential: server.2 }
}

/// What a list of entries holds.
pub open spec fn entries_view(entries: Seq<IceServerEntry>) -> Seq<IceServerEntryView> {
    entries.map_values(|e: IceServerEntry| e@)
}

/// The STUN servers, then the TURN servers, one entry each.
pub open spec fn server_entries(
    stun: Seq<Seq<char>>,
    turn: Seq<(Seq<char>, Seq<char>, Seq<char>)>,
) -> Seq<IceServerEntryView> {
    stun.map_values(|url: Seq<char>| stun_entry(url)) + turn.map_values(
        |server: (Seq<char>, Seq<char>, Seq<char>)| turn_server_entry(server),
    )
}

/// The entry has this URL alone and no credentials.
spec fn serves_stun(entry: IceServerEntry, url: Seq<char>) -> bool {
    &&& entry.urls@.len() == 1
    &&& entry.urls@[0]@ == url
    &&& entry.username@.len() == 0
    &&& entry.credential@.len() == 0
}

/// The entry has this URL alone, and these credentials.
spec fn serves_turn(
    entry: IceServerEntry,
    url: Seq<char>,
    username: Seq<char>,
    credential: Seq<char>,
) -> bool {
    &&& entry.urls@.len() == 1
    &&& entry.urls@[0]@ == url
    &&& entry.username@ == username
    &&& entry.credential@ == credential
}

fn entry(url: &String, username: String, credential: String) -> (e: IceServerEntry)
    ensures
        e@ == (IceServerEntryView {
            urls: seq![url@],
            username: username@,
            credential: credential@,
        }),
        e.urls@.len() == 1,
        e.urls@[0]@ == url@,
        e.username@ == username@,
        e.credential@ == credential@,
{
    let mut urls: Vec<String> = Vec::new();
    urls.push(url.clone());
    assert(texts(urls@) == seq![url@]);
    IceServerEntry { urls, username, credential }
}

/// The ICE servers of a connection's configuration: the STUN servers, then the
/// TURN servers with their credentials.
pub fn ice_server_entries(servers: &IceServers) -> (entries: Vec<IceServerEntry>)
    ensures
        entries_view(entries@) == server_entries(servers.stun_urls(), servers.turn_servers()),
        entries.len() == servers.stun.len() + servers.turn.len(),
        forall|i: int|
            0 <= i < servers.stun.len() ==> (#[trigger] entries@[i]).urls@.len() == 1
                && entries@[i].urls@[0]@ == servers.stun@[i]@ && entries@[i].username@.len() == 0
                && entries@[i].credential@.len() == 0,
        forall|i: int|
            servers.stun.len() <= i < entries.len() ==> {
                let server = servers.turn@[i - servers.stun.len()];
                &&& (#[trigger] entries@[i]).urls@.len() == 1
                &&& entries@[i].urls@[0]@ == server.0@
                &&& entries@[i].username@ == server.1@
                &&& entries@[i].credential@ == server.2@
            },
{
    let mut entries: Vec<IceServerEntry> = Vec::new();
    let ghost stun = servers.stun_urls();
    let ghost turn = servers.turn_servers();
    let mut i: usize = 0;
    assert(entries_view(entries@) == server_entries(stun.take(0), turn.take(0)));
    while i < servers.stun.len()
        invariant
            i <= servers.stun.len(),
            stun == servers.stun_urls(),
            entries_view(entries@) == server_entries(stun.take(i as int), turn.take(0)),
            entries.len() == i,
            forall|j: int|
                0 <= j < i ==> serves_stun(#[trigger] entries@[j], servers.stun@[j]@),
        decreases servers.stun.len() - i,
    {
        let ghost before = entries@;
        let e = entry(&servers.stun[i], String::new(), String::new());
        entries.push(e);
        assert(entries_view(entries@) == entries_view(before).push(e@));
        assert(e@ == stun_entry(stun[i as int]));
        assert(server_entries(stun.take(i + 1), turn.take(0)) == server_entries(
            stun.take(i as int),
            turn.take(0),
        ).push(stun_entry(stun[i as int])));
        i = i + 1;
    }
    assert(stun.take(i as int) == stun);
    let mut k: usize = 0;
    while k < servers.turn.len()
        invariant
            k <= servers.turn.len(),
            stun == servers.stun_urls(),
            turn == servers.turn_servers(),
            entries_view(entries@) == server_entries(stun, turn.take(k as int)),
            entries.len() == servers.stun.len() + k,
            forall|j: int|
                0 <= j < servers.stun.len() ==> serves_stun(
                    #[trigger] entries@[j],
                    servers.stun@[j]@,
                ),
            forall|j: int|
                0 <= j < k ==> serves_turn(
                    #[trigger] entries@[servers.stun.len() + j],
                    servers.turn@[j].0@,
                    servers.turn@[j].1@,
                    servers.turn@[j].2@,
                ),
        decreases servers.turn.len() - k,
    {
        let ghost before = entries@;
        let ghost count = servers.stun.len() + k;
        let server = &servers.turn[k];
        let e = entry(&server.0, server.1.clone(), server.2.clone());
        entries.push(e);
        assert(entries_view(entries@) == entries_view(before).push(e@));
        assert(turn[k as int] == turn_texts(servers.turn@[k as int]));
        assert(e@ == turn_server_entry(turn[k as int]));
        assert(server_entries(stun, turn.take(k + 1)) == server_entries(
            stun,
            turn.take(k as int),
        ).push(turn_server_entry(turn[k as int])));
        assert forall|j: int| 0 <= j < k + 1 implies serves_turn(
            #[trigger] entries@[servers.stun.len() + j],
            servers.turn@[j].0@,
            servers.turn@[j].1@,
            servers.turn@[j].2@,
        ) by {
            if j < k {
                assert(entries@[servers.stun.len() + j] == before[servers.stun.len() + j]);
            } else {
                assert(entries@[count] == e);
            }
        }
        k = k + 1;
    }
    assert(turn.take(k as int) == turn);
    assert forall|i: int| servers.stun.len() <= i < entries.len() implies {
        let server = servers.turn@[i - servers.stun.len()];
        &&& (#[trigger] entries@[i]).urls@.len() == 1
        &&& entries@[i].urls@[0]@ == server.0@
        &&& entries@[i].username@ == server.1@
        &&& entries@[i].credential@ == server.2@
    } by {
        let j = i - servers.stun.len();
        assert(entries@[servers.stun.len() + j] == entries@[i]);
    }
    entries
}

/// Every server has one entry, in order, STUN before TURN. A STUN server has its
/// URL and no credentials; a TURN server has its own URL, user name and password,
/// all three of one triplet.
pub proof fn each_server_keeps_its_own_credentials(
    stun: Seq<Seq<char>>,
    turn: Seq<(Seq<char>, Seq<char>, Seq<char>)>,
)
    ensures
        server_entries(stun, turn).len() == stun.len() + turn.len(),
        forall|i: int|
            0 <= i < stun.len() ==> #[trigger] server_entries(stun, turn)[i] == (
            IceServerEntryView { urls: seq![stun[i]], username: seq![], credential: seq![] }),
        forall|i: int|
            0 <= i < turn.len() ==> #[trigger] server_entries(stun, turn)[stun.len() + i] == (
            IceServerEntryView {
                urls: seq![turn[i].0],
                username: turn[i].1,
                credential: turn[i].2,
            }),
{
}

/// A TURN server's entry is the same wherever the server stands and whatever
/// other servers there are.
pub proof fn other_servers_change_no_entry(
    stun: (Seq<Seq<char>>, Seq<Seq<char>>),
    turn: (Seq<(Seq<char>, Seq<char>, Seq<char>)>, Seq<(Seq<char>, Seq<char>, Seq<char>)>),
    i: int,
    j: int,
)
    requires
        0 <= i < turn.0.len(),
        0 <= j < turn.1.len(),
        turn.0[i] == turn.1[j],
    ensures
        server_entries(stun.0, turn.0)[stun.0.len() + i] == server_entries(stun.1, turn.1)[
        stun.1.len() + j],
{
}

/// More servers at the end are more entries at the end.
pub proof fn appended_servers_are_appended_entries(
    stun: Seq<Seq<char>>,
    turn: Seq<(Seq<char>, Seq<char>, Seq<char>)>,
    more: Seq<(Seq<char>, Seq<char>, Seq<char>)>,
)
    ensures
        server_entries(stun, turn + more) == server_entries(stun, turn) + server_entries(
            Seq::empty(),
            more,
        ),
{
    assert(server_entries(stun, turn + more) =~= server_entries(stun, turn) + server_entries(
        Seq::empty(),
        more,
    ));
}

} // verus!
