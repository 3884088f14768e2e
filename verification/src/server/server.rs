//! The datagram server: the registry of connected clients and its answers to
//! their packets. Keys are carried as PEM text; what the server sends a
//! client past the greeting is encrypted with that client's key.

use vstd::prelude::*;
use crate::shared::{ClientMessage, ServerMessage};
use crate::shared::crypto::{encrypt_for, fits, pem_is_public_key, pem_modulus_bytes, pkcs1v15_encrypts};
use crate::shared::id::new_id;
use crate::shared::networking::SocketAddress;

verus! {

/// A connected client: its address, the id the server gave it, and its
/// public key (PEM).
#[derive(Debug)]
pub struct Client {
    pub addr: SocketAddress,
    pub id: u128,
    pub public_key: String,
}

/// A client's session token.
#[derive(Debug)]
pub struct ClientConnection {
    pub token: String,
}

impl Clone for ClientConnection {
    fn clone(&self) -> (r: Self)
        ensures
            r.token@ == self.token@,
    {
        ClientConnection { token: self.token.clone() }
    }
}

/// Abstract view of a client: address, id and key text.
pub struct ClientView {
    pub addr: SocketAddress,
    pub id: u128,
    pub public_key: Seq<char>,
}

impl View for Client {
    type V = ClientView;

    open spec fn view(&self) -> ClientView {
        ClientView { addr: self.addr, id: self.id, public_key: self.public_key@ }
    }
}

impl Clone for Client {
    fn clone(&self) -> (r: Self)
        ensures
            r@ == self@,
    {
        Client { addr: self.addr, id: self.id, public_key: self.public_key.clone() }
    }
}

impl Client {
    /// A client at `addr` with the key `public_key`, under a fresh random id.
    pub fn new(addr: SocketAddress, public_key: String) -> (r: Client)
        ensures
            r.addr == addr,
            r.public_key@ == public_key@,
            crate::shared::id::is_v4(r.id),
    {
        Client { addr, id: new_id(), public_key }
    }
}

/// Whether a message is sent in clear: only the answer that hands out the
/// server's public key is.
pub open spec fn sent_in_clear(message: ServerMessage) -> bool {
    message is Connected
}

/// Whether a message to a client is encrypted with the client's key.
pub fn needs_encryption(message: &ServerMessage) -> (r: bool)
    ensures
        r == !sent_in_clear(*message),
{
    match message {
        ServerMessage::Connected(_) => false,
        _ => true,
    }
}

/// The datagram server's state: its public key (PEM) and its clients, in
/// connection order.
#[derive(Debug)]
pub struct Server {
    public_key: String,
    clients: Vec<Client>,
}

/// Abstract view of the server.
pub struct ServerView {
    pub public_key: Seq<char>,
    pub clients: Seq<ClientView>,
}

impl View for Server {
    type V = ServerView;

    closed spec fn view(&self) -> ServerView {
        ServerView { public_key: self.public_key@, clients: self.clients@.map_values(|c: Client| c@) }
    }
}

/// Whether the client at `i` is the first with the id `id`.
pub open spec fn first_with_id(clients: Seq<ClientView>, id: u128, i: int) -> bool {
    &&& 0 <= i < clients.len()
    &&& clients[i].id == id
    &&& forall|j: int| 0 <= j < i ==> (#[trigger] clients[j]).id != id
}

/// Whether some client has the address `addr`.
pub open spec fn has_addr(clients: Seq<ClientView>, addr: SocketAddress) -> bool {
    exists|i: int| 0 <= i < clients.len() && (#[trigger] clients[i]).addr == addr
}

/// The clients other than those with the id `id`, in order.
pub open spec fn without_id(clients: Seq<ClientView>, id: u128) -> Seq<ClientView> {
    clients.filter(|c: ClientView| c.id != id)
}

impl ServerView {
    /// The server's invariant: no two clients share an address.
    pub open spec fn inv(self) -> bool {
        forall|i: int, j: int|
            0 <= i < self.clients.len() && 0 <= j < self.clients.len() && i != j ==> (
            #[trigger] self.clients[i]).addr != (#[trigger] self.clients[j]).addr
    }
}

impl Server {
    /// A server with no client, whose public key is `public_key` (PEM).
    pub fn new(public_key: String) -> (r: Server)
        ensures
            r@.public_key == public_key@,
            r@.clients.len() == 0,
            r@.inv(),
    {
        let r = Server { public_key, clients: Vec::new() };
        assert(r@.clients =~= Seq::<ClientView>::empty());
        r
    }

    /// The connected clients, in connection order.
    pub fn clients(&self) -> (r: &Vec<Client>)
        ensures
            r@.map_values(|c: Client| c@) == self@.clients,
    {
        &self.clients
    }

    /// The first client at `addr`, if any.
    pub fn find_client_by_addr(&self, addr: SocketAddress) -> (r: Option<&Client>)
        ensures
            r is Some <==> has_addr(self@.clients, addr),
            r matches Some(c) ==> c.addr == addr && exists|i: int|
                0 <= i < self@.clients.len() && self@.clients[i] == c@,
    {
        let mut i: usize = 0;
        while i < self.clients.len()
            invariant
                i <= self.clients@.len(),
                forall|j: int| 0 <= j < i ==> (#[trigger] self.clients@[j]).addr != addr,
            decreases self.clients.len() - i,
        {
            if self.clients[i].addr == addr {
                assert(self@.clients[i as int] == self.clients@[i as int]@);
                return Some(&self.clients[i]);
            }
            i = i + 1;
        }
        assert(!has_addr(self@.clients, addr)) by {
            if has_addr(self@.clients, addr) {
                let k = choose|k: int| 0 <= k < self@.clients.len() && (#[trigger] self@.clients[k]).addr == addr;
                assert(self.clients@[k]@ == self@.clients[k]);
            }
        }
        None
    }

    /// The first client with the id `id`, if any.
    pub fn find_client_by_id(&self, id: u128) -> (r: Option<&Client>)
        ensures
            r is Some <==> exists|i: int| 0 <= i < self@.clients.len() && (#[trigger] self@.clients[i]).id == id,
            r matches Some(c) ==> c.id == id && exists|i: int|
                first_with_id(self@.clients, id, i) && self@.clients[i] == c@,
    {
        let mut i: usize = 0;
        while i < self.clients.len()
            invariant
                i <= self.clients@.len(),
                forall|j: int| 0 <= j < i ==> (#[trigger] self.clients@[j]).id != id,
                forall|j: int| 0 <= j < i ==> (#[trigger] self@.clients[j]).id != id,
            decreases self.clients.len() - i,
        {
            if self.clients[i].id == id {
                assert(self@.clients[i as int] == self.clients@[i as int]@);
                return Some(&self.clients[i]);
            }
            i = i + 1;
        }
        assert forall|k: int| 0 <= k < self@.clients.len() implies (#[trigger] self@.clients[k]).id != id by {
            assert(self.clients@[k]@ == self@.clients[k]);
        }
        None
    }

    /// Registers the client at `addr` with the key `client_public_key`,
    /// unless a client already has that address. A new client is greeted
    /// with the server's public key: the returned id and message are to be
    /// sent.
    pub fn register_client(&mut self, addr: SocketAddress, client_public_key: String) -> (r: Option<
        (u128, ServerMessage),
    >)
        ensures
            has_addr(old(self)@.clients, addr) ==> r is None && final(self)@ == old(self)@,
            !has_addr(old(self)@.clients, addr) ==> {
                &&& r matches Some((id, ServerMessage::Connected(key))) && key@ == old(self)@.public_key
                    && final(self)@.clients.len() == old(self)@.clients.len() + 1
                    && final(self)@.clients.last().id == id
                &&& final(self)@.clients.drop_last() == old(self)@.clients
                &&& final(self)@.clients.last().addr == addr
                &&& final(self)@.clients.last().public_key == client_public_key@
                &&& final(self)@.public_key == old(self)@.public_key
            },
            old(self)@.inv() ==> final(self)@.inv(),
    {
        if self.find_client_by_addr(addr).is_some() {
            return None;
        }
        let new_client = Client::new(addr, client_public_key);
        let new_client_id = new_client.id;
        let ghost c = new_client@;
        self.clients.push(new_client);
        proof {
            assert(self@.clients =~= old(self)@.clients.push(c));
            assert(self@.clients.drop_last() =~= old(self)@.clients);
            if old(self)@.inv() {
                let n = old(self)@.clients.len() as int;
                assert forall|i: int, j: int|
                    0 <= i < self@.clients.len() && 0 <= j < self@.clients.len() && i != j implies (
                    #[trigger] self@.clients[i]).addr != (#[trigger] self@.clients[j]).addr by {
                    if i == n {
                        assert(self@.clients[j] == old(self)@.clients[j]);
                    } else if j == n {
                        assert(self@.clients[i] == old(self)@.clients[i]);
                    } else {
                        assert(self@.clients[i] == old(self)@.clients[i]);
                        assert(self@.clients[j] == old(self)@.clients[j]);
                    }
                }
            }
        }
        Some((new_client_id, ServerMessage::Connected(self.public_key.clone())))
    }

    /// Removes every client with the id `client_id`, keeping the others in
    /// order.
    pub fn remove_client(&mut self, client_id: u128)
        ensures
            final(self)@.clients == without_id(old(self)@.clients, client_id),
            final(self)@.public_key == old(self)@.public_key,
            old(self)@.inv() ==> final(self)@.inv(),
    {
        let ghost pred = |c: ClientView| c.id != client_id;
        let mut old_clients: Vec<Client> = Vec::new();
        std::mem::swap(&mut old_clients, &mut self.clients);
        let ghost all = old(self)@.clients;
        let mut kept: Vec<Client> = Vec::new();
        let mut i: usize = 0;
        let n = old_clients.len();
        while i < n
            invariant
                n == old_clients@.len(),
                all == old_clients@.map_values(|c: Client| c@),
                pred == (|c: ClientView| c.id != client_id),
                i <= n,
                kept@.map_values(|c: Client| c@) == all.take(i as int).filter(pred),
            decreases n - i,
        {
            proof {
                assert(all.take(i + 1) =~= all.take(i as int).push(all[i as int]));
                all.take(i as int).lemma_filter_push(all[i as int], pred);
            }
            let c = &old_clients[i];
            if c.id != client_id {
                let ghost before = kept@;
                kept.push(c.clone());
                assert(kept@.map_values(|c: Client| c@) =~= before.map_values(|c: Client| c@).push(all[i as int]));
            }
            i = i + 1;
        }
        proof {
            assert(all.take(n as int) =~= all);
        }
        self.clients = kept;
        proof {
            if old(self)@.inv() {
                let f = self@.clients;
                assert forall|x: int, y: int|
                    0 <= x < f.len() && 0 <= y < f.len() && x != y implies (#[trigger] f[x]).addr
                    != (#[trigger] f[y]).addr by {
                    lemma_filter_distinct_sources(all, pred, x, y);
                }
            }
        }
    }

    /// Where and what to send for `message`, whose encoding is `bytes`, to
    /// the client `client_id` (the first with that id): its address, and the
    /// bytes encrypted with its key, or in clear for the greeting that hands
    /// out the server's key. None if no client has that id, or if its key
    /// text is no key or the message is too long for it.
    pub fn seal_for(&self, client_id: u128, message: &ServerMessage, bytes: Vec<u8>) -> (r: Option<
        (SocketAddress, Vec<u8>),
    >)
        ensures
            !(exists|i: int| 0 <= i < self@.clients.len() && (#[trigger] self@.clients[i]).id == client_id)
                ==> r is None,
            forall|i: int| #[trigger]
                first_with_id(self@.clients, client_id, i) ==> {
                    let c = self@.clients[i];
                    &&& sent_in_clear(*message) ==> (r matches Some((a, out)) && a == c.addr && out@
                        == bytes@)
                    &&& !sent_in_clear(*message) ==> (r is Some <==> (pem_is_public_key(c.public_key)
                        && fits(bytes@.len(), pem_modulus_bytes(c.public_key))))
                    &&& !sent_in_clear(*message) ==> (r matches Some((a, out)) ==> a == c.addr
                        && pkcs1v15_encrypts(c.public_key, bytes@, out@))
                },
    {
        let client = match self.find_client_by_id(client_id) {
            Some(c) => c,
            None => return None,
        };
        let addr = client.addr;
        if needs_encryption(message) {
            match encrypt_for(client.public_key.as_str(), bytes.as_slice()) {
                Some(sealed) => Some((addr, sealed)),
                None => None,
            }
        } else {
            Some((addr, bytes))
        }
    }

    /// Answers a packet from `addr`: a connection request from an unknown
    /// address registers it (with the key it gives) and greets it; from a
    /// known address it is answered as already connected; a disconnection
    /// request from a known address removes that client; anything else gets
    /// no answer. The returned id and message are to be sent.
    pub fn handle_packet(&mut self, addr: SocketAddress, message: ClientMessage) -> (r: Option<
        (u128, ServerMessage),
    >)
        ensures
            message matches ClientMessage::ConnectionRequest(key) ==> {
                &&& has_addr(old(self)@.clients, addr) ==> (r matches Some((id, m)) && m
                    == ServerMessage::AlreadyConnected && exists|i: int|
                    0 <= i < old(self)@.clients.len() && old(self)@.clients[i].addr == addr
                        && old(self)@.clients[i].id == id) && final(self)@ == old(self)@
                &&& !has_addr(old(self)@.clients, addr) ==> (r matches Some((id, ServerMessage::Connected(k)))
                    && k@ == old(self)@.public_key && final(self)@.clients.len() == old(self)@.clients.len() + 1
                    && final(self)@.clients.last().id == id
                    && final(self)@.clients.drop_last() == old(self)@.clients
                    && final(self)@.clients.last().addr == addr
                    && final(self)@.clients.last().public_key == key@)
            },
            message is DisconnectionRequest ==> r is None && (has_addr(old(self)@.clients, addr)
                ==> exists|i: int|
                0 <= i < old(self)@.clients.len() && old(self)@.clients[i].addr == addr
                    && final(self)@.clients == without_id(old(self)@.clients, old(self)@.clients[i].id))
                && (!has_addr(old(self)@.clients, addr) ==> final(self)@ == old(self)@),
            message is Text || message is Empty ==> r is None && final(self)@ == old(self)@,
            final(self)@.public_key == old(self)@.public_key,
            old(self)@.inv() ==> final(self)@.inv(),
    {
        match message {
            ClientMessage::ConnectionRequest(client_public_key) => {
                match self.find_client_by_addr(addr) {
                    Some(client) => {
                        let id = client.id;
                        Some((id, ServerMessage::AlreadyConnected))
                    },
                    None => self.register_client(addr, client_public_key),
                }
            },
            ClientMessage::DisconnectionRequest => {
                match self.find_client_by_addr(addr) {
                    Some(client) => {
                        let id = client.id;
                        self.remove_client(id);
                    },
                    None => {},
                }
                None
            },
            ClientMessage::Text(_) => None,
            ClientMessage::Empty => None,
        }
    }

    /// A client at `addr` timed out or disconnected: if it is known, it is
    /// told so and removed. The returned id and message are to be sent
    /// before the removal.
    pub fn on_peer_gone(&mut self, addr: SocketAddress) -> (r: Option<(u128, ServerMessage)>)
        ensures
            has_addr(old(self)@.clients, addr) ==> exists|i: int|
                0 <= i < old(self)@.clients.len() && old(self)@.clients[i].addr == addr && r
                    == Some((old(self)@.clients[i].id, ServerMessage::Disconnected))
                    && final(self)@.clients == without_id(old(self)@.clients, old(self)@.clients[i].id),
            !has_addr(old(self)@.clients, addr) ==> r is None && final(self)@ == old(self)@,
            final(self)@.public_key == old(self)@.public_key,
            old(self)@.inv() ==> final(self)@.inv(),
    {
        match self.find_client_by_addr(addr) {
            Some(client) => {
                let id = client.id;
                self.remove_client(id);
                Some((id, ServerMessage::Disconnected))
            },
            None => None,
        }
    }
}

/// After a removal by id, no client with that id is left.
pub proof fn lemma_removed_id_is_gone(clients: Seq<ClientView>, id: u128)
    ensures
        forall|k: int| 0 <= k < without_id(clients, id).len() ==> (#[trigger] without_id(clients, id)[k]).id != id,
{
    let pred = |c: ClientView| c.id != id;
    assert forall|k: int| 0 <= k < without_id(clients, id).len() implies (#[trigger] without_id(
        clients,
        id,
    )[k]).id != id by {
        clients.lemma_filter_pred(pred, k);
    }
}

/// Once the client at an address is gone (removed by its id), no client is
/// left at that address: addresses are never shared.
pub proof fn lemma_gone_peer_is_unknown(s: ServerView, i: int)
    requires
        s.inv(),
        0 <= i < s.clients.len(),
    ensures
        !has_addr(without_id(s.clients, s.clients[i].id), s.clients[i].addr),
{
    let id = s.clients[i].id;
    let addr = s.clients[i].addr;
    let pred = |c: ClientView| c.id != id;
    let f = without_id(s.clients, id);
    if has_addr(f, addr) {
        let k = choose|k: int| 0 <= k < f.len() && (#[trigger] f[k]).addr == addr;
        s.clients.lemma_filter_pred(pred, k);
        lemma_filter_index(s.clients, pred, k);
        let j = choose|j: int| 0 <= j < s.clients.len() && f[k] == s.clients[j];
        assert(s.clients[j].addr == addr);
        assert(j == i);
    }
}

/// A client registered at an unknown address is then found at that address.
pub proof fn lemma_registered_is_found(clients: Seq<ClientView>, c: ClientView)
    ensures
        has_addr(clients.push(c), c.addr),
{
    assert(clients.push(c)[clients.len() as int] == c);
}

/// Two distinct positions of a filtered sequence hold elements from two
/// distinct positions of the unfiltered sequence.
pub proof fn lemma_filter_distinct_sources<A>(s: Seq<A>, pred: spec_fn(A) -> bool, x: int, y: int)
    requires
        0 <= x < y < s.filter(pred).len() || 0 <= y < x < s.filter(pred).len(),
    ensures
        exists|i: int, j: int|
            0 <= i < s.len() && 0 <= j < s.len() && i != j && s.filter(pred)[x] == s[i]
                && s.filter(pred)[y] == s[j],
    decreases s.len(),
{
    reveal(Seq::filter);
    let d = s.drop_last();
    let fd = d.filter(pred);
    if pred(s.last()) {
        let n = fd.len() as int;
        if x < n && y < n {
            lemma_filter_distinct_sources(d, pred, x, y);
            let (i, j) = choose|i: int, j: int|
                0 <= i < d.len() && 0 <= j < d.len() && i != j && fd[x] == d[i] && fd[y] == d[j];
            assert(s[i] == d[i] && s[j] == d[j]);
        } else if x == n {
            d.lemma_filter_len(pred);
            lemma_filter_index(d, pred, y);
            let j = choose|j: int| 0 <= j < d.len() && fd[y] == d[j];
            assert(s[j] == d[j]);
            assert(s.filter(pred)[x] == s[s.len() - 1]);
        } else {
            d.lemma_filter_len(pred);
            lemma_filter_index(d, pred, x);
            let i = choose|i: int| 0 <= i < d.len() && fd[x] == d[i];
            assert(s[i] == d[i]);
            assert(s.filter(pred)[y] == s[s.len() - 1]);
        }
    } else {
        lemma_filter_distinct_sources(d, pred, x, y);
        let (i, j) = choose|i: int, j: int|
            0 <= i < d.len() && 0 <= j < d.len() && i != j && fd[x] == d[i] && fd[y] == d[j];
        assert(s[i] == d[i] && s[j] == d[j]);
    }
}

/// Each position of a filtered sequence holds an element of the unfiltered one.
pub proof fn lemma_filter_index<A>(s: Seq<A>, pred: spec_fn(A) -> bool, x: int)
    requires
        0 <= x < s.filter(pred).len(),
    ensures
        exists|i: int| 0 <= i < s.len() && s.filter(pred)[x] == s[i],
{
    let e = s.filter(pred)[x];
    assert(s.filter(pred).contains(e));
    s.lemma_filter_contains_rev(pred, e);
}

} // verus!
