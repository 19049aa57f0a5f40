//! Who is connected: the player ids handed out on the reliable channel and
//! the network addresses that snapshots are broadcast to.

use vstd::prelude::*;
use crate::game_world::next_id;

verus! {

/// A network address, as plain numbers.
#[derive(Clone, Copy, Debug, PartialEq, Eq, Structural)]
pub enum Endpoint {
    V4 { host: u32, port: u16 },
    V6 { host6: u128, port: u16, flowinfo: u32, scope_id: u32 },
}

/// The answer to a handshake: the id that the client plays under, and whether
/// a new player has to be put into the world for it.
#[derive(Clone, Copy, Debug, PartialEq, Eq, Structural)]
pub struct Welcome {
    pub player_id: u32,
    pub joined: bool,
}

/// The ids handed out so far and the addresses heard from so far, in the
/// order in which they were first heard. The addresses are a set: none is
/// held twice (`RegistryState::sound`). They stand in a vector and are found
/// by going through it, because an address of the wider kind has more bits
/// than any integer that could key a hashed set.
#[derive(Clone, Debug, PartialEq, Eq)]
pub struct ConnectionRegistry {
    pub next_player_id: u32,
    pub clients: Vec<Endpoint>,
}

/// The mathematical content of a [`ConnectionRegistry`].
pub struct RegistryState {
    pub next_player_id: u32,
    pub clients: Seq<Endpoint>,
}

impl View for ConnectionRegistry {
    type V = RegistryState;

    open spec fn view(&self) -> RegistryState {
        RegistryState { next_player_id: self.next_player_id, clients: self.clients@ }
    }
}

/// The number that a client sends on first contact, in place of an id: the
/// largest 32-bit number. It is the one number that is never below the
/// counter of ids, so it is never taken for an id handed out before.
pub const OPENING_TOKEN: u32 = 0xFFFF_FFFF;

/// The four bytes of `v`, most significant first.
pub open spec fn be_bytes(v: u32) -> Seq<u8> {
    seq![
        (v / 0x100_0000) as u8,
        (v / 0x1_0000 % 0x100) as u8,
        (v / 0x100 % 0x100) as u8,
        (v % 0x100) as u8,
    ]
}

/// The number that four bytes spell, most significant first.
pub open spec fn be_value(s: Seq<u8>) -> u32 {
    (s[0] * 0x100_0000 + s[1] * 0x1_0000 + s[2] * 0x100 + s[3]) as u32
}

/// What a client says on first contact: the four bytes of the opening
/// token, most significant first.
pub open spec fn opening_token() -> Seq<u8> {
    be_bytes(OPENING_TOKEN)
}

/// The id that a handshake request presents: a request of exactly four bytes
/// presents the number they spell, unless that number is the opening token;
/// any other request presents none.
pub open spec fn presented(request: Seq<u8>) -> Option<u32> {
    if request.len() == 4 && be_value(request) != OPENING_TOKEN {
        Some(be_value(request))
    } else {
        None
    }
}

impl RegistryState {
    /// Nobody has connected yet: the first id is zero.
    pub open spec fn initial() -> RegistryState {
        RegistryState { next_player_id: 0, clients: Seq::empty() }
    }

    /// No address is held twice.
    pub open spec fn sound(self) -> bool {
        self.clients.no_duplicates()
    }

    /// The request presents an id that has been handed out before.
    pub open spec fn returning(self, request: Seq<u8>) -> bool {
        presented(request) matches Some(id) && id < self.next_player_id
    }

    /// The answer to a handshake request: a client that presents an id handed
    /// out before keeps it; any other client gets the next id and joins.
    pub open spec fn welcome(self, request: Seq<u8>) -> Welcome {
        if self.returning(request) {
            Welcome { player_id: presented(request)->Some_0, joined: false }
        } else {
            Welcome { player_id: self.next_player_id, joined: true }
        }
    }

    /// The registry after a handshake request.
    pub open spec fn greeted(self, request: Seq<u8>) -> RegistryState {
        if self.returning(request) {
            self
        } else {
            RegistryState { next_player_id: next_id(self.next_player_id), ..self }
        }
    }

    /// The registry after a datagram from `addr`: an address heard for the
    /// first time is put at the end.
    pub open spec fn heard(self, addr: Endpoint) -> RegistryState {
        if self.clients.contains(addr) {
            self
        } else {
            RegistryState { clients: self.clients.push(addr), ..self }
        }
    }
}

/// Writing an id in four bytes and reading them gives the id back.
pub proof fn lemma_player_id_round_trip(id: u32)
    ensures
        be_bytes(id).len() == 4,
        be_value(be_bytes(id)) == id,
{
}

/// A client that presents an id handed out before is told that id again,
/// and nothing changes; a client that sends the opening token gets the next
/// id and joins, whatever the counter stands at: the token is never taken
/// for an id.
pub proof fn lemma_handshake(r: RegistryState, id: u32)
    ensures
        opening_token().len() == 4,
        presented(opening_token()) is None,
        !r.returning(opening_token()),
        id < r.next_player_id ==> r.welcome(be_bytes(id)) == (Welcome { player_id: id, joined: false })
            && r.greeted(be_bytes(id)) == r,
        r.welcome(opening_token()) == (Welcome { player_id: r.next_player_id, joined: true }),
        r.greeted(opening_token()).next_player_id == next_id(r.next_player_id),
        r.greeted(opening_token()).clients == r.clients,
{
}

/// Two clients that join one after the other get different ids, the second
/// one more than the first, until the counter has run through all ids.
pub proof fn lemma_ids_rise(r: RegistryState, first: Seq<u8>, second: Seq<u8>)
    requires
        !r.returning(first),
        !r.greeted(first).returning(second),
        r.next_player_id < u32::MAX,
    ensures
        r.welcome(first).joined,
        r.greeted(first).welcome(second).joined,
        r.greeted(first).welcome(second).player_id == r.welcome(first).player_id + 1,
{
}

/// The addresses only grow: whoever was heard from stays, no address comes
/// to stand twice, and the one just heard from is there.
pub proof fn lemma_clients_only_grow(r: RegistryState, addr: Endpoint, other: Endpoint)
    requires
        r.sound(),
    ensures
        r.heard(addr).sound(),
        r.heard(addr).clients.contains(addr),
        r.clients.contains(other) ==> r.heard(addr).clients.contains(other),
        r.heard(addr).clients.contains(other) ==> other == addr || r.clients.contains(other),
        r.heard(addr).next_player_id == r.next_player_id,
{
    let v = r.heard(addr);
    if !r.clients.contains(addr) {
        assert(v.clients[r.clients.len() as int] == addr);
        if r.clients.contains(other) {
            let at = choose|at: int| 0 <= at < r.clients.len() && r.clients[at] == other;
            assert(v.clients[at] == other);
        }
    }
}

/// What a client says on first contact: the opening token in four bytes.
pub fn greeting() -> (token: Vec<u8>)
    ensures
        token@ == opening_token(),
        token@.len() == 4,
{
    let bytes = encode_player_id(OPENING_TOKEN);
    vec![bytes[0], bytes[1], bytes[2], bytes[3]]
}

/// What a client says to the server, always a 32-bit number in four bytes,
/// most significant first: its id where it has one from an earlier
/// handshake, else the opening token.
pub fn handshake_request(previous: Option<u32>) -> (request: Vec<u8>)
    ensures
        request@.len() == 4,
        request@ == (match previous {
            Some(id) => be_bytes(id),
            None => opening_token(),
        }),
        presented(request@) == (match previous {
            Some(id) => if id == OPENING_TOKEN {
                None
            } else {
                Some(id)
            },
            None => None,
        }),
{
    match previous {
        Some(id) => {
            let bytes = encode_player_id(id);
            let request = vec![bytes[0], bytes[1], bytes[2], bytes[3]];
            request
        },
        None => greeting(),
    }
}

/// The id that a handshake request presents, if it presents one: the number
/// that its four bytes spell, unless that is the opening token.
pub fn presented_id(request: &[u8]) -> (id: Option<u32>)
    ensures
        id == presented(request@),
{
    if request.len() != 4 {
        return None;
    }
    let b0: u32 = request[0] as u32;
    let b1: u32 = request[1] as u32;
    let b2: u32 = request[2] as u32;
    let b3: u32 = request[3] as u32;
    let id: u32 = b0 * 0x100_0000 + b1 * 0x1_0000 + b2 * 0x100 + b3;
    if id == OPENING_TOKEN {
        None
    } else {
        Some(id)
    }
}

/// Whether a request is the opening token.
pub fn is_greeting(request: &[u8]) -> (r: bool)
    ensures
        r == (request@ == opening_token()),
{
    let token = greeting();
    if request.len() != token.len() {
        return false;
    }
    let mut i: usize = 0;
    while i < token.len()
        invariant
            i <= token@.len(),
            request@.len() == token@.len(),
            token@ == opening_token(),
            forall|j: int| 0 <= j < i ==> request@[j] == token@[j],
        decreases token.len() - i,
    {
        if request[i] != token[i] {
            return false;
        }
        i += 1;
    }
    assert(request@ =~= opening_token());
    true
}

/// The four bytes that carry a player id on the reliable channel.
pub fn encode_player_id(id: u32) -> (bytes: [u8; 4])
    ensures
        bytes@ == be_bytes(id),
{
    let bytes: [u8; 4] = [
        (id / 0x100_0000) as u8,
        (id / 0x1_0000 % 0x100) as u8,
        (id / 0x100 % 0x100) as u8,
        (id % 0x100) as u8,
    ];
    bytes
}

/// The player id that four bytes of the reliable channel carry.
pub fn decode_player_id(bytes: &[u8; 4]) -> (id: u32)
    ensures
        id == be_value(bytes@),
{
    let b0: u32 = bytes[0] as u32;
    let b1: u32 = bytes[1] as u32;
    let b2: u32 = bytes[2] as u32;
    let b3: u32 = bytes[3] as u32;
    b0 * 0x100_0000 + b1 * 0x1_0000 + b2 * 0x100 + b3
}

impl ConnectionRegistry {
    /// A registry that nobody has connected to yet.
    pub fn new() -> (r: ConnectionRegistry)
        ensures
            r@ == RegistryState::initial(),
    {
        ConnectionRegistry { next_player_id: 0, clients: Vec::new() }
    }

    /// Answers a handshake request.
    pub fn handshake(&mut self, request: &[u8]) -> (w: Welcome)
        ensures
            w == old(self)@.welcome(request@),
            final(self)@ == old(self)@.greeted(request@),
    {
        if let Some(id) = presented_id(request) {
            if id < self.next_player_id {
                return Welcome { player_id: id, joined: false };
            }
        }
        let id: u32 = self.next_player_id;
        self.next_player_id = id.wrapping_add(1);
        Welcome { player_id: id, joined: true }
    }

    /// Whether `addr` has been heard from.
    pub fn knows(&self, addr: &Endpoint) -> (known: bool)
        ensures
            known == self@.clients.contains(*addr),
    {
        let mut i: usize = 0;
        while i < self.clients.len()
            invariant
                i <= self.clients.len(),
                forall|j: int| 0 <= j < i ==> self.clients@[j] != *addr,
            decreases self.clients.len() - i,
        {
            if self.clients[i] == *addr {
                return true;
            }
            i += 1;
        }
        false
    }

    /// Takes note of a datagram from `addr`. The answer says whether the
    /// address was heard for the first time.
    pub fn note_sender(&mut self, addr: Endpoint) -> (fresh: bool)
        ensures
            fresh == !old(self)@.clients.contains(addr),
            final(self)@ == old(self)@.heard(addr),
    {
        if self.knows(&addr) {
            false
        } else {
            self.clients.push(addr);
            true
        }
    }

    /// The addresses that a snapshot is sent to.
    pub fn recipients(&self) -> (all: &Vec<Endpoint>)
        ensures
            all@ == self@.clients,
    {
        &self.clients
    }
}

} // verus!
