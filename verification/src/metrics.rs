//! The client registry: a table of reusable slots, one per live connection,
//! and the statistics of the connections that have left.
//!
//! A [`Metrics`] value is used by one caller at a time; a server shares it
//! between its tasks behind a lock.

use vstd::prelude::*;
use crate::clock::Moment;
use crate::clock::elapsed_seconds;
use crate::stats::ClientMetrics;
use crate::stats::Snapshot;
use crate::exposition::exposition;
use crate::exposition::render;

verus! {

/// What the registry keeps of one live connection.
#[derive(Clone, Copy, Debug, PartialEq, Eq)]
pub struct Client {
    /// When the connection was admitted.
    pub start: Moment,
    /// Chunks written so far, easter eggs included.
    pub sent_chunks: u64,
    /// Easter eggs written so far.
    pub sent_eastereggs: u64,
    /// Full passes over the banner so far.
    pub sent_banners: u64,
}

impl Client {
    /// The record of a connection admitted at `start` that has sent nothing yet.
    pub open spec fn fresh(start: Moment) -> Client {
        Client { start, sent_chunks: 0, sent_eastereggs: 0, sent_banners: 0 }
    }

    /// Counts one chunk.
    pub fn count_chunk(&mut self)
        ensures
            *final(self) == applied(Event::Chunk, *old(self)),
    {
        self.sent_chunks = self.sent_chunks.wrapping_add(1);
    }

    /// Counts one easter egg.
    pub fn count_easteregg(&mut self)
        ensures
            *final(self) == applied(Event::EasterEgg, *old(self)),
    {
        self.sent_eastereggs = self.sent_eastereggs.wrapping_add(1);
    }

    /// Counts one full pass over the banner.
    pub fn count_banner(&mut self)
        ensures
            *final(self) == applied(Event::Banner, *old(self)),
    {
        self.sent_banners = self.sent_banners.wrapping_add(1);
    }
}

/// What a connection reports to the registry.
#[derive(Clone, Copy, Debug, PartialEq, Eq, Structural)]
pub enum Event {
    /// A chunk was written.
    Chunk,
    /// The chunk that was written was the easter egg.
    EasterEgg,
    /// The banner was written to its end.
    Banner,
}

/// The record `client` with `event` counted.
pub open spec fn applied(event: Event, client: Client) -> Client {
    match event {
        Event::Chunk => Client { sent_chunks: client.sent_chunks.wrapping_add(1), ..client },
        Event::EasterEgg => Client {
            sent_eastereggs: client.sent_eastereggs.wrapping_add(1),
            ..client
        },
        Event::Banner => Client { sent_banners: client.sent_banners.wrapping_add(1), ..client },
    }
}

/// Why the registry did not act on a token.
#[derive(Clone, Copy, Debug, PartialEq, Eq, Structural)]
pub enum TokenError {
    /// The token's slot exists and is empty.
    AlreadyDisconnected,
    /// The registry has no slot with the token's number.
    InvalidToken,
}

impl TokenError {
    /// The error in words.
    pub open spec fn text(self) -> Seq<char> {
        match self {
            TokenError::AlreadyDisconnected => "Already Disconnected"@,
            TokenError::InvalidToken => "Invalid Token"@,
        }
    }

    /// Says the error in words.
    pub fn message(&self) -> (message: &'static str)
        ensures
            message@ == self.text(),
    {
        match self {
            TokenError::AlreadyDisconnected => "Already Disconnected",
            TokenError::InvalidToken => "Invalid Token",
        }
    }
}

/// The handle of one live connection: the number of its slot. It is handed
/// out by [`Metrics::connect`] and given back to [`Metrics::disconnect`].
#[derive(Debug, PartialEq, Eq)]
pub struct Token {
    uid: usize,
}

impl View for Token {
    type V = usize;

    closed spec fn view(&self) -> usize {
        self.uid
    }
}

impl Token {
    /// The number of the slot that the token refers to.
    pub fn uid(&self) -> (uid: usize)
        ensures
            uid == self@,
    {
        self.uid
    }
}

/// Number of occupied slots.
pub open spec fn live_count(slots: Seq<Option<Client>>) -> nat
    decreases slots.len(),
{
    if slots.len() == 0 {
        0
    } else {
        live_count(slots.drop_last()) + if slots.last() is Some {
            1nat
        } else {
            0nat
        }
    }
}

/// The lowest number of an empty slot, or the number of slots if all are occupied.
pub open spec fn first_free(slots: Seq<Option<Client>>) -> nat
    decreases slots.len(),
{
    if slots.len() == 0 {
        0
    } else {
        let before = first_free(slots.drop_last());
        if before < slots.len() - 1 {
            before
        } else if slots.last() is None {
            (slots.len() - 1) as nat
        } else {
            slots.len()
        }
    }
}

/// The slots with `client` in slot `at`; the table grows by one slot where
/// `at` is the number of slots.
pub open spec fn occupy(slots: Seq<Option<Client>>, at: int, client: Client) -> Seq<
    Option<Client>,
> {
    if at < slots.len() {
        slots.update(at, Some(client))
    } else {
        slots.push(Some(client))
    }
}

/// `first_free` is the one number up to which every slot is occupied and
/// which is itself no occupied slot.
pub proof fn lemma_first_free(slots: Seq<Option<Client>>, at: int)
    requires
        0 <= at <= slots.len(),
        forall|j: int| 0 <= j < at ==> slots[j] is Some,
        at < slots.len() ==> slots[at] is None,
    ensures
        first_free(slots) == at,
    decreases slots.len(),
{
    if slots.len() > 0 {
        if at < slots.len() {
            lemma_first_free(slots.drop_last(), at);
        } else {
            lemma_first_free(slots.drop_last(), at - 1);
        }
    }
}

/// Every slot before `first_free` is occupied, and the slot with that number,
/// where there is one, is empty.
pub proof fn lemma_first_free_is_lowest(slots: Seq<Option<Client>>)
    ensures
        first_free(slots) <= slots.len(),
        forall|j: int| 0 <= j < first_free(slots) ==> slots[j] is Some,
        first_free(slots) < slots.len() ==> slots[first_free(slots) as int] is None,
    decreases slots.len(),
{
    if slots.len() > 0 {
        let front = slots.drop_last();
        lemma_first_free_is_lowest(front);
        assert forall|j: int| 0 <= j < first_free(slots) implies slots[j] is Some by {
            if j < front.len() {
                assert(slots[j] == front[j]);
            }
        }
        if first_free(slots) < front.len() {
            assert(slots[first_free(slots) as int] == front[first_free(front) as int]);
        }
    }
}

/// Writing one slot changes the number of occupied slots by what the slot
/// gains or loses.
pub proof fn lemma_live_count_update(slots: Seq<Option<Client>>, at: int, entry: Option<Client>)
    requires
        0 <= at < slots.len(),
    ensures
        live_count(slots.update(at, entry)) + (if slots[at] is Some {
            1nat
        } else {
            0nat
        }) == live_count(slots) + (if entry is Some {
            1nat
        } else {
            0nat
        }),
    decreases slots.len(),
{
    if at < slots.len() - 1 {
        assert(slots.update(at, entry).drop_last() =~= slots.drop_last().update(at, entry));
        lemma_live_count_update(slots.drop_last(), at, entry);
    } else {
        assert(slots.update(at, entry).drop_last() =~= slots.drop_last());
    }
}

/// No more slots are occupied than there are.
pub proof fn lemma_live_count_bound(slots: Seq<Option<Client>>)
    ensures
        live_count(slots) <= slots.len(),
    decreases slots.len(),
{
    if slots.len() > 0 {
        lemma_live_count_bound(slots.drop_last());
    }
}

/// The statistics over the live connections in `slots` at the moment `now`,
/// folded in slot by slot.
pub open spec fn scan(slots: Seq<Option<Client>>, now: Moment) -> ClientMetrics
    decreases slots.len(),
{
    if slots.len() == 0 {
        ClientMetrics::empty()
    } else {
        let before = scan(slots.drop_last(), now);
        match slots.last() {
            Some(client) => before.recorded(
                elapsed_seconds(client.start, now),
                client.sent_chunks,
                client.sent_eastereggs,
                client.sent_banners,
            ),
            None => before,
        }
    }
}

/// The state of a registry.
pub struct Registry {
    /// When the registry was made.
    pub startup: Moment,
    /// The slot table: a live connection's record, or nothing, in each slot.
    pub slots: Seq<Option<Client>>,
    /// Statistics of the connections that were disconnected.
    pub former: ClientMetrics,
    /// How often admission was asked for.
    pub attempts: usize,
}

impl Registry {
    /// The registry at its start: no slot, nothing recorded.
    pub open spec fn initial(startup: Moment) -> Registry {
        Registry {
            startup,
            slots: Seq::empty(),
            former: ClientMetrics::empty(),
            attempts: 0,
        }
    }

    /// Number of live connections.
    pub open spec fn live(self) -> nat {
        live_count(self.slots)
    }

    /// Whether one more connection is admitted under the limit `max_clients`.
    pub open spec fn has_room(self, max_clients: usize) -> bool {
        self.live() < max_clients
    }

    /// The state after admission was asked for at the moment `now`: the
    /// attempt is counted, and where the connection is admitted it takes the
    /// lowest empty slot.
    pub open spec fn connected(self, max_clients: usize, now: Moment) -> Registry {
        Registry {
            attempts: self.attempts.wrapping_add(1),
            slots: if self.has_room(max_clients) {
                occupy(self.slots, first_free(self.slots) as int, Client::fresh(now))
            } else {
                self.slots
            },
            ..self
        }
    }

    /// What the registry reports at the moment `now`.
    pub open spec fn snapshot(self, now: Moment) -> Snapshot {
        Snapshot {
            uptime_seconds: elapsed_seconds(self.startup, now),
            connections_count: self.live() as usize,
            connections_total: self.attempts,
            current: scan(self.slots, now),
            former: self.former,
            total: ClientMetrics::total_spec(scan(self.slots, now), self.former),
        }
    }

    /// Whether slot `uid` holds a live connection.
    pub open spec fn holds(self, uid: usize) -> bool {
        uid < self.slots.len() && self.slots[uid as int] is Some
    }

    /// What the registry says of a token for slot `uid`.
    pub open spec fn check(self, uid: usize) -> Result<(), TokenError> {
        if uid >= self.slots.len() {
            Err(TokenError::InvalidToken)
        } else if self.slots[uid as int] is None {
            Err(TokenError::AlreadyDisconnected)
        } else {
            Ok(())
        }
    }

    /// The record in slot `uid`.
    pub open spec fn client(self, uid: usize) -> Client
        recommends
            self.holds(uid),
    {
        self.slots[uid as int]->0
    }

    /// The state with `client` as the record in slot `uid`.
    pub open spec fn with_client(self, uid: usize, client: Client) -> Registry {
        Registry { slots: self.slots.update(uid as int, Some(client)), ..self }
    }

    /// The state after the connection in slot `uid` reported `event`. Without
    /// a live connection in that slot nothing changes.
    pub open spec fn noted(self, uid: usize, event: Event) -> Registry {
        if self.holds(uid) {
            self.with_client(uid, applied(event, self.client(uid)))
        } else {
            self
        }
    }

    /// How long the connection in slot `uid` has lasted at the moment `now`, in seconds.
    pub open spec fn duration(self, uid: usize, now: Moment) -> u64
        recommends
            self.holds(uid),
    {
        elapsed_seconds(self.client(uid).start, now)
    }

    /// The state after the connection in slot `uid` was disconnected at the
    /// moment `now`: its slot is empty and its record is folded into the
    /// statistics of former connections. Without a live connection in that
    /// slot nothing changes.
    pub open spec fn disconnected(self, uid: usize, now: Moment) -> Registry {
        if self.holds(uid) {
            let client = self.client(uid);
            Registry {
                slots: self.slots.update(uid as int, None),
                former: self.former.recorded(
                    self.duration(uid, now),
                    client.sent_chunks,
                    client.sent_eastereggs,
                    client.sent_banners,
                ),
                ..self
            }
        } else {
            self
        }
    }
}

fn act<Func>(client: &mut Client, action: Func) where Func: FnOnce(&mut Client)
    requires
        forall|before: &mut Client| *before == *old(client) ==> action.requires((before,)),
    ensures
        exists|before: &mut Client|
            {
                &&& *before == *old(client)
                &&& action.ensures((before,), ())
                &&& *final(before) == *final(client)
            },
{
    action(client);
}

/// The client registry.
pub struct Metrics {
    startup: Moment,
    clients: Vec<Option<Client>>,
    former_metrics: ClientMetrics,
    connections_count: usize,
    connections_total: usize,
}

impl View for Metrics {
    type V = Registry;

    closed spec fn view(&self) -> Registry {
        Registry {
            startup: self.startup,
            slots: self.clients@,
            former: self.former_metrics,
            attempts: self.connections_total,
        }
    }
}

impl Metrics {
    /// The registry's invariant: its counter of live connections agrees with
    /// its slot table. Every registry that this module hands out satisfies it.
    pub closed spec fn wf(&self) -> bool {
        self.connections_count == live_count(self.clients@)
    }

    /// A registry without connections, made at the moment `startup`.
    pub fn new(startup: Moment) -> (metrics: Metrics)
        ensures
            metrics.wf(),
            metrics@ == Registry::initial(startup),
    {
        Metrics {
            startup,
            clients: Vec::new(),
            former_metrics: ClientMetrics::new(),
            connections_count: 0,
            connections_total: 0,
        }
    }

    fn lowest_free(&self) -> (index: usize)
        ensures
            index == first_free(self.clients@),
            index <= self.clients.len(),
    {
        let mut index: usize = 0;
        while index < self.clients.len()
            invariant
                index <= self.clients.len(),
                forall|j: int| 0 <= j < index ==> self.clients@[j] is Some,
            decreases self.clients.len() - index,
        {
            if self.clients[index].is_none() {
                proof {
                    lemma_first_free(self.clients@, index as int);
                }
                return index;
            }
            index = index + 1;
        }
        proof {
            lemma_first_free(self.clients@, index as int);
        }
        index
    }

    /// Asks for admission of a connection that begins at the moment `start`.
    ///
    /// The attempt is counted in any case. While fewer than `max_clients`
    /// connections are live, the connection is admitted: it gets the lowest
    /// empty slot, or a new one behind the others, and the result is the new
    /// number of live connections with the token of that slot. Otherwise the
    /// result is the unchanged number of live connections.
    pub fn connect(&mut self, max_clients: usize, start: Moment) -> (result: Result<
        (usize, Token),
        usize,
    >)
        requires
            old(self).wf(),
        ensures
            final(self).wf(),
            final(self)@ == old(self)@.connected(max_clients, start),
            match result {
                Ok((count, token)) => {
                    &&& old(self)@.has_room(max_clients)
                    &&& count == old(self)@.live() + 1
                    &&& token@ == first_free(old(self)@.slots)
                },
                Err(count) => !old(self)@.has_room(max_clients) && count == old(self)@.live(),
            },
    {
        self.connections_total = self.connections_total.wrapping_add(1);
        if self.connections_count >= max_clients {
            return Err(self.connections_count);
        }
        let client = Client { start, sent_chunks: 0, sent_eastereggs: 0, sent_banners: 0 };
        let index = self.lowest_free();
        if index < self.clients.len() {
            proof {
                lemma_first_free_is_lowest(self.clients@);
                lemma_live_count_update(self.clients@, index as int, Some(client));
            }
            self.clients[index] = Some(client);
        } else {
            assert(self.clients@.push(Some(client)).drop_last() =~= self.clients@);
            self.clients.push(Some(client));
        }
        self.connections_count = self.connections_count + 1;
        Ok((self.connections_count, Token { uid: index }))
    }

    /// Ends the connection of `token` at the moment `now`.
    ///
    /// Where the token's slot holds a live connection, the slot is emptied,
    /// the connection's record is folded into the statistics of former
    /// connections, and the result is the new number of live connections
    /// with the connection's duration in seconds. A token for an empty slot
    /// or for no slot at all is refused, and nothing changes.
    pub fn disconnect(&mut self, token: Token, now: Moment) -> (result: Result<
        (usize, u64),
        TokenError,
    >)
        requires
            old(self).wf(),
        ensures
            final(self).wf(),
            final(self)@ == old(self)@.disconnected(token@, now),
            match result {
                Ok((count, seconds)) => {
                    &&& old(self)@.holds(token@)
                    &&& count == old(self)@.live() - 1
                    &&& seconds == old(self)@.duration(token@, now)
                },
                Err(error) => Err::<(), TokenError>(error) == old(self)@.check(token@),
            },
            result is Err ==> final(self)@ == old(self)@,
    {
        if token.uid >= self.clients.len() {
            return Err(TokenError::InvalidToken);
        }
        match self.clients[token.uid] {
            None => Err(TokenError::AlreadyDisconnected),
            Some(client) => {
                let seconds = now.seconds_since(&client.start);
                self.former_metrics.record(
                    seconds,
                    client.sent_chunks,
                    client.sent_eastereggs,
                    client.sent_banners,
                );
                proof {
                    lemma_live_count_update(self.clients@, token.uid as int, None);
                }
                self.clients[token.uid] = None;
                self.connections_count = self.connections_count - 1;
                Ok((self.connections_count, seconds))
            },
        }
    }

    /// Lets `action` change the record of the live connection of `token`.
    ///
    /// A token for an empty slot or for no slot at all is refused, and
    /// `action` is not called.
    pub fn in_client<Func>(&mut self, token: &Token, action: Func) -> (result: Result<
        (),
        TokenError,
    >) where Func: FnOnce(&mut Client)
        requires
            old(self).wf(),
            forall|client: &mut Client|
                old(self)@.holds(token@) && *client == old(self)@.client(token@)
                    ==> action.requires((client,)),
        ensures
            final(self).wf(),
            result == old(self)@.check(token@),
            result is Err ==> final(self)@ == old(self)@,
            result is Ok ==> exists|client: &mut Client|
                {
                    &&& *client == old(self)@.client(token@)
                    &&& action.ensures((client,), ())
                    &&& final(self)@ == old(self)@.with_client(token@, *final(client))
                },
    {
        if token.uid >= self.clients.len() {
            return Err(TokenError::InvalidToken);
        }
        match self.clients[token.uid] {
            None => Err(TokenError::AlreadyDisconnected),
            Some(client) => {
                let mut entry = client;
                act(&mut entry, action);
                proof {
                    lemma_live_count_update(self.clients@, token.uid as int, Some(entry));
                }
                self.clients[token.uid] = Some(entry);
                proof {
                    let ran = choose|before: &mut Client|
                        {
                            &&& *before == client
                            &&& action.ensures((before,), ())
                            &&& *final(before) == entry
                        };
                    assert(self@ == old(self)@.with_client(token@, *final(ran)));
                }
                Ok(())
            },
        }
    }

    /// Counts one chunk written on the connection of `token`.
    pub fn sent_chunk(&mut self, token: &Token) -> (result: Result<(), TokenError>)
        requires
            old(self).wf(),
        ensures
            final(self).wf(),
            result == old(self)@.check(token@),
            final(self)@ == old(self)@.noted(token@, Event::Chunk),
    {
        self.in_client(token, Client::count_chunk)
    }

    /// Counts one easter egg written on the connection of `token`.
    pub fn sent_easteregg(&mut self, token: &Token) -> (result: Result<(), TokenError>)
        requires
            old(self).wf(),
        ensures
            final(self).wf(),
            result == old(self)@.check(token@),
            final(self)@ == old(self)@.noted(token@, Event::EasterEgg),
    {
        self.in_client(token, Client::count_easteregg)
    }

    /// Counts one full pass over the banner on the connection of `token`.
    pub fn sent_banner(&mut self, token: &Token) -> (result: Result<(), TokenError>)
        requires
            old(self).wf(),
        ensures
            final(self).wf(),
            result == old(self)@.check(token@),
            final(self)@ == old(self)@.noted(token@, Event::Banner),
    {
        self.in_client(token, Client::count_banner)
    }

    /// What the registry reports at the moment `now`. The registry stays as it is.
    pub fn snapshot(&self, now: Moment) -> (snapshot: Snapshot)
        requires
            self.wf(),
        ensures
            snapshot == self@.snapshot(now),
    {
        let mut current = ClientMetrics::new();
        let mut index: usize = 0;
        assert(self.clients@.take(0) =~= Seq::<Option<Client>>::empty());
        while index < self.clients.len()
            invariant
                index <= self.clients.len(),
                current == scan(self.clients@.take(index as int), now),
            decreases self.clients.len() - index,
        {
            assert(self.clients@.take(index + 1).drop_last() =~= self.clients@.take(index as int));
            match self.clients[index] {
                Some(client) => {
                    current.record(
                        now.seconds_since(&client.start),
                        client.sent_chunks,
                        client.sent_eastereggs,
                        client.sent_banners,
                    );
                },
                None => {},
            }
            index = index + 1;
        }
        assert(self.clients@.take(index as int) =~= self.clients@);
        Snapshot {
            uptime_seconds: now.seconds_since(&self.startup),
            connections_count: self.connections_count,
            connections_total: self.connections_total,
            current,
            former: self.former_metrics,
            total: ClientMetrics::total(&current, &self.former_metrics),
        }
    }

    /// The registry's report at the moment `now`, as text. The registry stays as it is.
    pub fn export(&self, now: Moment) -> (text: String)
        requires
            self.wf(),
        ensures
            text@ == exposition(self@.snapshot(now)),
    {
        let snapshot = self.snapshot(now);
        render(&snapshot)
    }

    /// Number of live connections.
    pub fn connections(&self) -> (count: usize)
        requires
            self.wf(),
        ensures
            count == self@.live(),
    {
        self.connections_count
    }
}

} // verus!
