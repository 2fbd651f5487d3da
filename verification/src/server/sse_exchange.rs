use vstd::prelude::*;

verus! {

/// First message of every event stream, sent when a client connects.
pub const CONNECTION_ESTABLISHED: &'static str = "data: connection established\n\n";

/// Capacity of the channel that feeds one client's event stream.
pub const CLIENT_CHANNEL_CAPACITY: usize = 512;

/// Capacity of the channel that carries commands to the exchange.
pub const COMMAND_CHANNEL_CAPACITY: usize = 1024;

/// The text of a server-sent event carrying `raw`: `data: <raw>` and a blank line.
pub open spec fn sse_message(raw: Seq<char>) -> Seq<char> {
    seq!['d', 'a', 't', 'a', ':', ' '] + raw + seq!['\n', '\n']
}

/// A server-sent event carries the whole payload, whatever its length: the
/// `data: ` field name, every character of the payload in order, then the
/// blank line that ends the event.
pub proof fn law_sse_message_carries_whole_payload(p: Seq<char>)
    ensures
        sse_message(p).len() == p.len() + 8,
        sse_message(p).take(6) == seq!['d', 'a', 't', 'a', ':', ' '],
        sse_message(p).subrange(6, 6 + p.len() as int) == p,
        sse_message(p).skip(6 + p.len() as int) == seq!['\n', '\n'],
        forall|i: int| 0 <= i < p.len() ==> sse_message(p)[6 + i] == #[trigger] p[i],
{
    let m = sse_message(p);
    assert(m.take(6) =~= seq!['d', 'a', 't', 'a', ':', ' ']);
    assert(m.subrange(6, 6 + p.len() as int) =~= p);
    assert(m.skip(6 + p.len() as int) =~= seq!['\n', '\n']);
}

/// Formats `raw_message` as a server-sent event.
pub fn generate_sse_message(raw_message: &str) -> (s: String)
    ensures
        s@ == sse_message(raw_message@),
        s@.len() == raw_message@.len() + 8,
        s@.take(6) == seq!['d', 'a', 't', 'a', ':', ' '],
        s@.subrange(6, 6 + raw_message@.len() as int) == raw_message@,
        s@.skip(6 + raw_message@.len() as int) == seq!['\n', '\n'],
{
    proof {
        law_sse_message_carries_whole_payload(raw_message@);
    }
    proof {
        reveal_strlit("data: ");
        reveal_strlit("\n\n");
    }
    let mut s = "data: ".to_owned();
    s.append(raw_message);
    s.append("\n\n");
    s
}

/// The connection acknowledgement is the event whose data is
/// `connection established`.
pub proof fn law_acknowledgement_is_an_event()
    ensures
        CONNECTION_ESTABLISHED@ == sse_message("connection established"@),
{
    reveal_strlit("data: connection established\n\n");
    reveal_strlit("connection established");
    assert(CONNECTION_ESTABLISHED@ =~= sse_message("connection established"@));
}

/// An event published for one client.
pub struct Event {
    client_id: String,
    correlation_id: String,
    payload: String,
}

impl Event {
    pub closed spec fn spec_client_id(&self) -> Seq<char> {
        self.client_id@
    }

    pub closed spec fn spec_correlation_id(&self) -> Seq<char> {
        self.correlation_id@
    }

    pub closed spec fn spec_payload(&self) -> Seq<char> {
        self.payload@
    }

    pub fn new(client_id: &str, correlation_id: &str, payload: &str) -> (e: Event)
        ensures
            e.spec_client_id() == client_id@,
            e.spec_correlation_id() == correlation_id@,
            e.spec_payload() == payload@,
    {
        Event {
            client_id: client_id.to_owned(),
            payload: payload.to_owned(),
            correlation_id: correlation_id.to_owned(),
        }
    }

    pub fn client_id(&self) -> (r: &str)
        ensures
            r@ == self.spec_client_id(),
    {
        self.client_id.as_str()
    }

    pub fn correlation_id(&self) -> (r: &str)
        ensures
            r@ == self.spec_correlation_id(),
    {
        self.correlation_id.as_str()
    }

    pub fn payload(&self) -> (r: &str)
        ensures
            r@ == self.spec_payload(),
    {
        self.payload.as_str()
    }
}

/// A client that asked for an event stream: its id and the sending half of
/// the channel that feeds its stream. `H` is the channel type chosen by the
/// runtime that drives the exchange.
pub struct StreamClient<H> {
    id: String,
    sender: H,
}

impl<H> StreamClient<H> {
    pub closed spec fn spec_id(&self) -> Seq<char> {
        self.id@
    }

    pub closed spec fn spec_sender(&self) -> H {
        self.sender
    }

    pub fn new(id: &str, sender: H) -> (c: StreamClient<H>)
        ensures
            c.spec_id() == id@,
            c.spec_sender() == sender,
    {
        StreamClient { id: id.to_owned(), sender }
    }

    pub fn id(&self) -> (r: &str)
        ensures
            r@ == self.spec_id(),
    {
        self.id.as_str()
    }

    pub fn sender(&self) -> (r: &H)
        ensures
            *r == self.spec_sender(),
    {
        &self.sender
    }

    /// What the exchange sends a client that asks to connect: the
    /// acknowledgement, on the client's own channel.
    pub fn acknowledgement(&self) -> (r: (&H, &'static str))
        ensures
            *r.0 == self.spec_sender(),
            r.1@ == CONNECTION_ESTABLISHED@,
    {
        (&self.sender, CONNECTION_ESTABLISHED)
    }
}

/// Ids of a sequence of clients, in order.
pub open spec fn client_ids<H>(clients: Seq<StreamClient<H>>) -> Seq<Seq<char>> {
    clients.map_values(|c: StreamClient<H>| c.spec_id())
}

/// The registry of connected clients kept by the exchange: each client id is
/// registered at most once, with the channel its events go to. It is kept in
/// a vector, as nothing can be proved of std's hash map with string keys.
pub struct ExchangeState<H> {
    clients: Vec<StreamClient<H>>,
    history: Ghost<Seq<RegistryStep<H>>>,
}

/// What became of a connect request once its acknowledgement was attempted.
#[derive(PartialEq, Eq, Structural, Debug, Clone, Copy)]
pub enum ConnectOutcome {
    Registered,
    Rejected,
}

/// What became of a client once an event was sent to it.
#[derive(PartialEq, Eq, Structural, Debug, Clone, Copy)]
pub enum DeliveryOutcome {
    Delivered,
    ClientRemoved,
}

/// The registrations after a connect request whose acknowledgement did or did
/// not reach the client.
pub open spec fn after_connect<H>(
    clients: Map<Seq<char>, H>,
    id: Seq<char>,
    sender: H,
    acknowledged: bool,
) -> Map<Seq<char>, H> {
    if acknowledged {
        clients.insert(id, sender)
    } else {
        clients
    }
}

/// The registrations after an event was, or was not, delivered to a client.
pub open spec fn after_delivery<H>(
    clients: Map<Seq<char>, H>,
    id: Seq<char>,
    delivered: bool,
) -> Map<Seq<char>, H> {
    if delivered {
        clients
    } else {
        clients.remove(id)
    }
}

/// The channel an event for `id` goes to, if `id` is registered.
pub open spec fn route<H>(clients: Map<Seq<char>, H>, id: Seq<char>) -> Option<H> {
    if clients.contains_key(id) {
        Some(clients[id])
    } else {
        None
    }
}

impl<H> ExchangeState<H> {
    pub closed spec fn ids(&self) -> Seq<Seq<char>> {
        client_ids(self.clients@)
    }

    /// Each client id occurs once.
    pub closed spec fn distinct_ids(&self) -> bool {
        self.ids().no_duplicates()
    }

    /// Each client id occurs once, and the registrations are those that the
    /// steps taken so far lead to.
    pub closed spec fn wf(&self) -> bool {
        &&& self.distinct_ids()
        &&& self.registrations() == replay(Map::<Seq<char>, H>::empty(), self.history@)
    }

    /// The connects and deliveries this registry has taken, in order.
    pub closed spec fn history(&self) -> Seq<RegistryStep<H>> {
        self.history@
    }

    /// Whatever run of connects and deliveries a registry has taken since it
    /// was made empty, it holds exactly the clients whose connect was
    /// acknowledged with no failed delivery to them since, each with the
    /// channel that replaying those steps gives.
    pub proof fn law_registry_follows_its_steps(&self)
        requires
            self.wf(),
        ensures
            self.registrations() == replay(Map::<Seq<char>, H>::empty(), self.history()),
            self.registrations().dom() == Set::new(|id: Seq<char>| still_registered(self.history(), id)),
    {
        law_registered_clients(self.history());
    }

    /// The registrations, as a map from client id to channel.
    pub closed spec fn registrations(&self) -> Map<Seq<char>, H> {
        Map::new(
            |k: Seq<char>| self.ids().contains(k),
            |k: Seq<char>| self.clients@[self.ids().index_of(k)].spec_sender(),
        )
    }

    proof fn lemma_lookup(&self, i: int)
        requires
            self.distinct_ids(),
            0 <= i < self.clients@.len(),
        ensures
            self.registrations().contains_key(self.clients@[i].spec_id()),
            self.registrations()[self.clients@[i].spec_id()] == self.clients@[i].spec_sender(),
    {
        let k = self.clients@[i].spec_id();
        assert(self.ids()[i] == k);
        let j = self.ids().index_of(k);
        assert(self.ids()[j] == k);
    }

    proof fn lemma_len(&self)
        requires
            self.distinct_ids(),
        ensures
            self.registrations().dom().finite(),
            self.registrations().len() == self.clients@.len(),
    {
        assert(self.registrations().dom() =~= self.ids().to_set());
        self.ids().unique_seq_to_set();
    }

    pub fn new() -> (s: Self)
        ensures
            s.wf(),
            s.registrations() == Map::<Seq<char>, H>::empty(),
            s.history() == Seq::<RegistryStep<H>>::empty(),
    {
        let s = ExchangeState { clients: Vec::new(), history: Ghost(Seq::empty()) };
        assert(s.registrations() =~= Map::<Seq<char>, H>::empty());
        s
    }

    /// Position of the client registered under `id`, if any.
    fn position(&self, id: &String) -> (r: Option<usize>)
        requires
            self.distinct_ids(),
        ensures
            r is None ==> !self.ids().contains(id@),
            r matches Some(i) ==> i < self.clients@.len() && self.ids()[i as int] == id@,
    {
        let mut i: usize = 0;
        while i < self.clients.len()
            invariant
                i <= self.clients@.len(),
                forall|j: int| 0 <= j < i ==> self.ids()[j] != id@,
            decreases self.clients@.len() - i,
        {
            if self.clients[i].id == *id {
                return Some(i);
            }
            i = i + 1;
        }
        None
    }

    /// Registers `client` when the connection acknowledgement reached it;
    /// a client registered under the same id before is replaced.
    pub fn handle_connect(&mut self, client: StreamClient<H>, acknowledged: bool) -> (r: ConnectOutcome)
        requires
            old(self).wf(),
        ensures
            final(self).wf(),
            final(self).registrations() == after_connect(
                old(self).registrations(),
                client.spec_id(),
                client.spec_sender(),
                acknowledged,
            ),
            r == (if acknowledged { ConnectOutcome::Registered } else { ConnectOutcome::Rejected }),
            final(self).history() == old(self).history().push(
                (RegistryStep::Connect {
                    id: client.spec_id(),
                    sender: client.spec_sender(),
                    acknowledged,
                }),
            ),
    {
        let ghost step = RegistryStep::Connect {
            id: client.spec_id(),
            sender: client.spec_sender(),
            acknowledged,
        };
        let ghost prev = self.history@;
        self.history = Ghost(prev.push(step));
        proof {
            lemma_replay_push(Map::<Seq<char>, H>::empty(), prev, step);
        }
        if !acknowledged {
            return ConnectOutcome::Rejected;
        }
        let ghost old_state = *self;
        let ghost k = client.spec_id();
        let ghost h = client.spec_sender();
        match self.position(&client.id) {
            Some(i) => {
                self.clients.remove(i);
                self.clients.insert(i, client);
                proof {
                    assert(self.clients@ =~= old_state.clients@.update(i as int, client));
                    assert(self.ids() =~= old_state.ids());
                    assert forall|key: Seq<char>|
                        #![trigger self.registrations().contains_key(key)]
                        self.registrations().contains_key(key) implies self.registrations()[key]
                        == old_state.registrations().insert(k, h)[key] by {
                        let j = self.ids().index_of(key);
                        assert(self.ids()[j] == key);
                        if key == k {
                            self.lemma_lookup(i as int);
                        } else {
                            old_state.lemma_lookup(j);
                            assert(j != i);
                        }
                    }
                    assert(self.registrations().dom() =~= old_state.registrations().insert(k, h).dom());
                    assert(self.registrations() =~= old_state.registrations().insert(k, h));
                }
            },
            None => {
                self.clients.push(client);
                proof {
                    let n = old_state.clients@.len() as int;
                    assert(self.clients@ =~= old_state.clients@.push(client));
                    assert(self.ids() =~= old_state.ids().push(k));
                    assert(self.ids().no_duplicates()) by {
                        assert forall|a: int, b: int|
                            0 <= a < self.ids().len() && 0 <= b < self.ids().len() && a != b
                            implies self.ids()[a] != self.ids()[b] by {
                            if a == n {
                                assert(old_state.ids()[b] == self.ids()[b]);
                            } else if b == n {
                                assert(old_state.ids()[a] == self.ids()[a]);
                            }
                        }
                    }
                    assert forall|key: Seq<char>|
                        #![trigger self.registrations().contains_key(key)]
                        self.registrations().contains_key(key) implies self.registrations()[key]
                        == old_state.registrations().insert(k, h)[key] by {
                        let j = self.ids().index_of(key);
                        assert(self.ids()[j] == key);
                        if key == k {
                            self.lemma_lookup(n);
                        } else {
                            assert(j != n);
                            assert(old_state.ids()[j] == key);
                            old_state.lemma_lookup(j);
                            self.lemma_lookup(j);
                        }
                    }
                    assert forall|key: Seq<char>|
                        old_state.registrations().insert(k, h).contains_key(key)
                        implies #[trigger] self.registrations().contains_key(key) by {
                        if key != k {
                            let j = old_state.ids().index_of(key);
                            assert(old_state.ids()[j] == key);
                            assert(self.ids()[j] == key);
                        } else {
                            assert(self.ids()[n] == k);
                        }
                    }
                    assert(self.registrations().dom() =~= old_state.registrations().insert(k, h).dom());
                    assert(self.registrations() =~= old_state.registrations().insert(k, h));
                }
            },
        }
        ConnectOutcome::Registered
    }

    /// What the exchange sends for a published event: the event's payload as
    /// a server-sent event, on the channel of the client it is addressed to;
    /// nothing when that client is not registered.
    pub fn publication(&self, event: &Event) -> (r: Option<(&H, String)>)
        requires
            self.wf(),
        ensures
            r is Some <==> self.registrations().contains_key(event.spec_client_id()),
            r matches Some(p) ==> Some(*p.0) == route(self.registrations(), event.spec_client_id())
                && p.1@ == sse_message(event.spec_payload()),
    {
        match self.recipient(event.client_id()) {
            Some(h) => Some((h, generate_sse_message(event.payload()))),
            None => None,
        }
    }

    /// The channel that events for `client_id` go to, if it is registered.
    pub fn recipient(&self, client_id: &str) -> (r: Option<&H>)
        requires
            self.wf(),
        ensures
            r is Some <==> self.registrations().contains_key(client_id@),
            r matches Some(h) ==> Some(*h) == route(self.registrations(), client_id@),
    {
        let key = client_id.to_owned();
        match self.position(&key) {
            Some(i) => {
                proof {
                    self.lemma_lookup(i as int);
                }
                Some(&self.clients[i].sender)
            },
            None => None,
        }
    }

    /// Drops the registration of `client_id` when an event could not be
    /// delivered to it; keeps it otherwise.
    pub fn handle_delivery(&mut self, client_id: &str, delivered: bool) -> (r: DeliveryOutcome)
        requires
            old(self).wf(),
        ensures
            final(self).wf(),
            final(self).registrations() == after_delivery(
                old(self).registrations(),
                client_id@,
                delivered,
            ),
            r == (if delivered { DeliveryOutcome::Delivered } else { DeliveryOutcome::ClientRemoved }),
            final(self).history() == old(self).history().push(
                (RegistryStep::Delivery { id: client_id@, delivered }),
            ),
    {
        let ghost step = RegistryStep::Delivery { id: client_id@, delivered };
        let ghost prev = self.history@;
        self.history = Ghost(prev.push(step));
        proof {
            lemma_replay_push(Map::<Seq<char>, H>::empty(), prev, step);
        }
        if delivered {
            return DeliveryOutcome::Delivered;
        }
        let ghost old_state = *self;
        let ghost k = client_id@;
        let key = client_id.to_owned();
        match self.position(&key) {
            Some(i) => {
                self.clients.remove(i);
                proof {
                    let n = old_state.clients@.len() as int;
                    assert(self.clients@ =~= old_state.clients@.remove(i as int));
                    assert(self.ids() =~= old_state.ids().remove(i as int));
                    assert forall|a: int|
                        0 <= a < self.ids().len() implies #[trigger] self.ids()[a] == old_state.ids()[
                        if a < i { a } else { a + 1 }] by {}
                    assert(self.ids().no_duplicates()) by {
                        assert forall|a: int, b: int|
                            0 <= a < self.ids().len() && 0 <= b < self.ids().len() && a != b
                            implies self.ids()[a] != self.ids()[b] by {
                            let a1 = if a < i { a } else { a + 1 };
                            let b1 = if b < i { b } else { b + 1 };
                            assert(old_state.ids()[a1] == self.ids()[a]);
                            assert(old_state.ids()[b1] == self.ids()[b]);
                        }
                    }
                    assert forall|key: Seq<char>|
                        #![trigger self.registrations().contains_key(key)]
                        self.registrations().contains_key(key) implies key != k
                        && old_state.registrations().contains_key(key)
                        && self.registrations()[key] == old_state.registrations()[key] by {
                        let j = self.ids().index_of(key);
                        assert(self.ids()[j] == key);
                        let j1 = if j < i { j } else { j + 1 };
                        assert(old_state.ids()[j1] == key);
                        assert(old_state.ids()[i as int] == k);
                        self.lemma_lookup(j);
                        old_state.lemma_lookup(j1);
                    }
                    assert forall|key: Seq<char>|
                        old_state.registrations().remove(k).contains_key(key)
                        implies #[trigger] self.registrations().contains_key(key) by {
                        let j = old_state.ids().index_of(key);
                        assert(old_state.ids()[j] == key);
                        assert(old_state.ids()[i as int] == k);
                        assert(j != i);
                        let j0 = if j < i { j } else { j - 1 };
                        assert(self.ids()[j0] == key);
                    }
                    assert(self.registrations().dom() =~= old_state.registrations().remove(k).dom());
                    assert(self.registrations() =~= old_state.registrations().remove(k));
                }
            },
            None => {
                proof {
                    assert(old_state.registrations().remove(k) =~= old_state.registrations());
                }
            },
        }
        DeliveryOutcome::ClientRemoved
    }

    /// Number of registered clients, as the `u32` the count query answers
    /// with (the count wraps past `u32::MAX`).
    pub fn client_count(&self) -> (r: u32)
        requires
            self.wf(),
        ensures
            r == self.registrations().len() as u32,
            r == Set::new(|id: Seq<char>| still_registered(self.history(), id)).len() as u32,
    {
        proof {
            self.lemma_len();
            law_registered_clients(self.history());
        }
        self.clients.len() as u32
    }
}


/// A client whose connection acknowledgement arrived receives, on its own
/// channel, the events published for its id.
pub proof fn law_acknowledged_client_is_routed<H>(
    clients: Map<Seq<char>, H>,
    id: Seq<char>,
    sender: H,
)
    ensures
        route(after_connect(clients, id, sender, true), id) == Some(sender),
{
}

/// A connect request whose acknowledgement could not be sent registers nothing.
pub proof fn law_unacknowledged_connect_registers_nothing<H>(
    clients: Map<Seq<char>, H>,
    id: Seq<char>,
    sender: H,
)
    ensures
        after_connect(clients, id, sender, false) == clients,
        route(after_connect(clients, id, sender, false), id) == route(clients, id),
{
}

/// A client that an event could not be delivered to is removed: nothing is
/// routed to it any more and the client count drops by one.
pub proof fn law_unreachable_client_is_removed<H>(clients: Map<Seq<char>, H>, id: Seq<char>)
    requires
        clients.dom().finite(),
        clients.contains_key(id),
    ensures
        route(after_delivery(clients, id, false), id) is None,
        after_delivery(clients, id, false).len() + 1 == clients.len(),
{
}

/// A delivered event changes no registration.
pub proof fn law_delivery_keeps_registrations<H>(clients: Map<Seq<char>, H>, id: Seq<char>)
    ensures
        after_delivery(clients, id, true) == clients,
{
}

/// Connecting one client, or dropping one, leaves every other client's
/// route as it was.
pub proof fn law_other_clients_unaffected<H>(
    clients: Map<Seq<char>, H>,
    id: Seq<char>,
    other: Seq<char>,
    sender: H,
    acknowledged: bool,
    delivered: bool,
)
    requires
        id != other,
    ensures
        route(after_connect(clients, id, sender, acknowledged), other) == route(clients, other),
        route(after_delivery(clients, id, delivered), other) == route(clients, other),
{
}

/// A registered connect adds one to the client count for a new id, and
/// nothing for an id that was registered already (its channel is replaced).
pub proof fn law_connect_count<H>(clients: Map<Seq<char>, H>, id: Seq<char>, sender: H)
    requires
        clients.dom().finite(),
    ensures
        after_connect(clients, id, sender, true).len() == clients.len() + (if clients.contains_key(
            id,
        ) {
            0int
        } else {
            1int
        }),
{
    if clients.contains_key(id) {
        assert(clients.insert(id, sender).dom() =~= clients.dom());
    }
}

/// Dropping a client that was not registered before its connect request
/// leaves the registrations as they were before it connected.
pub proof fn law_removal_undoes_new_connection<H>(clients: Map<Seq<char>, H>, id: Seq<char>, sender: H)
    requires
        !clients.contains_key(id),
    ensures
        after_delivery(after_connect(clients, id, sender, true), id, false) == clients,
{
    assert(clients.insert(id, sender).remove(id) =~= clients);
}

/// One step of the exchange's registry: a connect request whose
/// acknowledgement was or was not delivered, or an event that was or was not
/// delivered to a client.
pub enum RegistryStep<H> {
    Connect { id: Seq<char>, sender: H, acknowledged: bool },
    Delivery { id: Seq<char>, delivered: bool },
}

pub open spec fn apply_step<H>(clients: Map<Seq<char>, H>, step: RegistryStep<H>) -> Map<Seq<char>, H> {
    match step {
        RegistryStep::Connect { id, sender, acknowledged } => after_connect(clients, id, sender, acknowledged),
        RegistryStep::Delivery { id, delivered } => after_delivery(clients, id, delivered),
    }
}

/// The registrations after `steps`, in order, starting from `clients`.
pub open spec fn replay<H>(clients: Map<Seq<char>, H>, steps: Seq<RegistryStep<H>>) -> Map<Seq<char>, H>
    decreases steps.len(),
{
    if steps.len() == 0 {
        clients
    } else {
        apply_step(replay(clients, steps.drop_last()), steps.last())
    }
}

proof fn lemma_replay_push<H>(clients: Map<Seq<char>, H>, steps: Seq<RegistryStep<H>>, step: RegistryStep<H>)
    ensures
        replay(clients, steps.push(step)) == apply_step(replay(clients, steps), step),
{
    assert(steps.push(step).drop_last() =~= steps);
}

pub open spec fn acknowledged_connect<H>(step: RegistryStep<H>, id: Seq<char>) -> bool {
    step matches RegistryStep::Connect { id: i, acknowledged: true, .. } && i == id
}

pub open spec fn failed_delivery<H>(step: RegistryStep<H>, id: Seq<char>) -> bool {
    step matches RegistryStep::Delivery { id: i, delivered: false } && i == id
}

/// Whether `id` had a connect acknowledged during `steps` with no failed
/// delivery to it afterwards.
pub open spec fn still_registered<H>(steps: Seq<RegistryStep<H>>, id: Seq<char>) -> bool {
    exists|i: int|
        #![trigger steps[i]]
        0 <= i < steps.len() && acknowledged_connect(steps[i], id) && forall|j: int|
            i < j < steps.len() ==> !failed_delivery(#[trigger] steps[j], id)
}

/// The clients an exchange holds after any sequence of steps, starting with
/// none, are exactly the ids whose connect was acknowledged with no failed
/// delivery to them since; the client count is their number.
pub proof fn law_registered_clients<H>(steps: Seq<RegistryStep<H>>)
    ensures
        replay(Map::<Seq<char>, H>::empty(), steps).dom() == Set::new(|id: Seq<char>| still_registered(steps, id)),
        replay(Map::<Seq<char>, H>::empty(), steps).dom().finite(),
        replay(Map::<Seq<char>, H>::empty(), steps).len() == Set::new(
            |id: Seq<char>| still_registered(steps, id),
        ).len(),
    decreases steps.len(),
{
    let m = replay(Map::<Seq<char>, H>::empty(), steps);
    if steps.len() == 0 {
        assert(m.dom() =~= Set::new(|id: Seq<char>| still_registered(steps, id)));
    } else {
        let prev = steps.drop_last();
        let last = steps.last();
        law_registered_clients(prev);
        let pm = replay(Map::<Seq<char>, H>::empty(), prev);
        assert(steps[steps.len() - 1] == last);
        assert forall|id: Seq<char>| m.dom().contains(id) <==> still_registered(steps, id) by {
            if still_registered(steps, id) {
                let i = choose|i: int|
                    #![trigger steps[i]]
                    0 <= i < steps.len() && acknowledged_connect(steps[i], id) && forall|j: int|
                        i < j < steps.len() ==> !failed_delivery(#[trigger] steps[j], id);
                if i < steps.len() - 1 {
                    assert(prev[i] == steps[i]);
                    assert forall|j: int| i < j < prev.len() implies !failed_delivery(#[trigger] prev[j], id) by {
                        assert(prev[j] == steps[j]);
                        assert(!failed_delivery(steps[j], id));
                    }
                    assert(still_registered(prev, id));
                    assert(!failed_delivery(steps[steps.len() - 1], id));
                }
            }
            if m.dom().contains(id) {
                if acknowledged_connect(last, id) {
                    assert(still_registered(steps, id)) by {
                        let k = steps.len() - 1;
                        assert(acknowledged_connect(steps[k], id));
                    }
                } else {
                    assert(pm.dom().contains(id));
                    assert(still_registered(prev, id));
                    let i = choose|i: int|
                        #![trigger prev[i]]
                        0 <= i < prev.len() && acknowledged_connect(prev[i], id) && forall|j: int|
                            i < j < prev.len() ==> !failed_delivery(#[trigger] prev[j], id);
                    assert(steps[i] == prev[i]);
                    assert(!failed_delivery(last, id));
                    assert forall|j: int| i < j < steps.len() implies !failed_delivery(#[trigger] steps[j], id) by {
                        if j < prev.len() {
                            assert(prev[j] == steps[j]);
                        }
                    }
                }
            }
        }
        assert(m.dom() =~= Set::new(|id: Seq<char>| still_registered(steps, id)));
    }
}

} // verus!
