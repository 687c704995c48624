//! The fan-out hub: every decoded audio payload goes to every registered
//! listener, with a synchronization envelope on joining and after every 60th
//! payload. A listener whose send fails is evicted; the others go on.
use vstd::prelude::*;

verus! {

/// Audio the listeners are asked to keep buffered, in milliseconds.
pub const BUFFER_TARGET_MS: u32 = 1000;

/// Payloads between two periodic envelopes.
pub const ENVELOPE_PERIOD: u64 = 60;

/// Why an envelope was sent.
#[derive(Clone, Copy, Debug, PartialEq, Eq, Structural)]
pub enum EnvelopeKind {
    /// The first message on a new connection.
    Start,
    /// The periodic resynchronization message.
    Periodic,
}

/// A synchronization envelope: the listener protocol's text message.
#[derive(Clone, Copy, Debug, PartialEq, Eq, Structural)]
pub struct SyncEnvelope {
    pub timestamp_ms: u64,
    pub sequence: u32,
    pub buffer_target_ms: u32,
    pub kind: EnvelopeKind,
}

/// The sequence number that travels in an envelope: the payload count,
/// wrapping at 32 bits.
pub open spec fn wire_sequence(delivered: u64) -> u32 {
    (delivered % 0x1_0000_0000) as u32
}

/// Envelopes one listener has received after `k` payloads.
pub open spec fn envelopes_after(k: nat) -> nat {
    1 + k / (ENVELOPE_PERIOD as nat)
}

/// What one listener's connection has been sent.
#[derive(Clone, Copy, Debug, PartialEq, Eq, Structural)]
pub struct ClientFeed {
    /// Audio payloads delivered.
    pub delivered: u64,
    /// Envelopes sent, the opening one included.
    pub envelopes: u64,
}

impl ClientFeed {
    pub open spec fn wf(&self) -> bool {
        self.envelopes == envelopes_after(self.delivered as nat)
    }

    /// The feed after one more payload.
    pub open spec fn advanced(&self) -> ClientFeed {
        ClientFeed {
            delivered: (self.delivered + 1) as u64,
            envelopes: (self.envelopes + if (self.delivered + 1) % (ENVELOPE_PERIOD as int) == 0 {
                1int
            } else {
                0int
            }) as u64,
        }
    }

    /// A new connection's feed and the envelope that opens it.
    pub fn open(now_ms: u64) -> (r: (ClientFeed, SyncEnvelope))
        ensures
            r.0.wf(),
            r.0.delivered == 0,
            r.1 == (SyncEnvelope {
                timestamp_ms: now_ms,
                sequence: 0,
                buffer_target_ms: BUFFER_TARGET_MS,
                kind: EnvelopeKind::Start,
            }),
    {
        (
            ClientFeed { delivered: 0, envelopes: 1 },
            SyncEnvelope {
                timestamp_ms: now_ms,
                sequence: 0,
                buffer_target_ms: BUFFER_TARGET_MS,
                kind: EnvelopeKind::Start,
            },
        )
    }

    /// Counts one delivered payload, and the envelope that follows it when it
    /// completes a period.
    pub fn count_payload(&mut self)
        requires
            old(self).wf(),
            old(self).delivered < u64::MAX,
        ensures
            final(self).wf(),
            *final(self) == old(self).advanced(),
    {
        proof {
            lemma_cadence_step(self.delivered as nat);
        }
        self.delivered = self.delivered + 1;
        if self.delivered % ENVELOPE_PERIOD == 0 {
            self.envelopes = self.envelopes + 1;
        }
    }

    /// Counts one delivered payload; after every 60th it hands out the
    /// periodic envelope to send. Over `k` payloads a listener thus receives
    /// `1 + k / 60` envelopes in all.
    pub fn record_payload(&mut self, now_ms: u64) -> (r: Option<SyncEnvelope>)
        requires
            old(self).wf(),
            old(self).delivered < u64::MAX,
        ensures
            final(self).wf(),
            *final(self) == old(self).advanced(),
            final(self).envelopes == envelopes_after(final(self).delivered as nat),
            r.is_some() <==> final(self).delivered % ENVELOPE_PERIOD == 0,
            r.is_some() ==> r == Some(
                SyncEnvelope {
                    timestamp_ms: now_ms,
                    sequence: wire_sequence(final(self).delivered),
                    buffer_target_ms: BUFFER_TARGET_MS,
                    kind: EnvelopeKind::Periodic,
                },
            ),
    {
        self.count_payload();
        if self.delivered % ENVELOPE_PERIOD == 0 {
            Some(
                SyncEnvelope {
                    timestamp_ms: now_ms,
                    sequence: (self.delivered % 0x1_0000_0000) as u32,
                    buffer_target_ms: BUFFER_TARGET_MS,
                    kind: EnvelopeKind::Periodic,
                },
            )
        } else {
            None
        }
    }
}

/// One more payload adds an envelope exactly when it completes a period.
pub proof fn lemma_cadence_step(k: nat)
    ensures
        envelopes_after(k + 1) == envelopes_after(k) + if (k + 1) % 60 == 0 {
            1int
        } else {
            0int
        },
{
}

/// Over any `k` payloads one listener receives `1 + k / 60` envelopes: the
/// opening one and one per completed period.
pub proof fn lemma_envelope_count(k: nat)
    requires
        k <= u64::MAX,
    ensures
        feed_after(k).envelopes == 1 + k / 60,
        feed_after(k).delivered == k,
    decreases k,
{
    if k > 0 {
        lemma_envelope_count((k - 1) as nat);
        lemma_cadence_step((k - 1) as nat);
    }
}

/// A feed after `k` payloads, from its opening.
pub open spec fn feed_after(k: nat) -> ClientFeed
    decreases k,
{
    if k == 0 {
        ClientFeed { delivered: 0, envelopes: 1 }
    } else {
        feed_after((k - 1) as nat).advanced()
    }
}

/// A registered listener.
#[derive(Clone, Copy, Debug, PartialEq, Eq, Structural)]
pub struct ClientSession {
    /// Opaque identity.
    pub id: u128,
    /// Wall-clock milliseconds at which it joined.
    pub joined_ms: u64,
    pub feed: ClientFeed,
}

/// The listeners that stay after one payload, given whether the send to each
/// succeeded: those whose send failed are gone, the rest advanced by one.
pub open spec fn survivors(clients: Seq<ClientSession>, sent: Seq<bool>) -> Seq<ClientSession>
    decreases clients.len(),
{
    if clients.len() == 0 {
        seq![]
    } else {
        let rest = survivors(clients.drop_last(), sent.take(clients.len() - 1));
        if sent[clients.len() - 1] {
            rest.push(
                ClientSession { feed: clients.last().feed.advanced(), ..clients.last() },
            )
        } else {
            rest
        }
    }
}

/// How many entries of `sent` are true.
pub open spec fn count_sent(sent: Seq<bool>) -> nat
    decreases sent.len(),
{
    if sent.len() == 0 {
        0
    } else {
        count_sent(sent.drop_last()) + if sent.last() {
            1nat
        } else {
            0nat
        }
    }
}

/// The registered listeners, each identity at most once.
pub struct ClientRegistry {
    pub clients: Vec<ClientSession>,
}

impl ClientRegistry {
    pub open spec fn has(&self, id: u128) -> bool {
        exists|i: int| 0 <= i < self.clients@.len() && self.clients@[i].id == id
    }

    pub open spec fn wf(&self) -> bool {
        &&& forall|i: int, j: int|
            0 <= i < j < self.clients@.len() ==> self.clients@[i].id != self.clients@[j].id
        &&& forall|i: int| 0 <= i < self.clients@.len() ==> (#[trigger] self.clients@[i]).feed.wf()
    }

    /// A registry with no listeners.
    pub fn new() -> (r: ClientRegistry)
        ensures
            r.wf(),
            r.clients@.len() == 0,
    {
        ClientRegistry { clients: Vec::new() }
    }

    /// Number of connected listeners.
    pub fn count(&self) -> (r: usize)
        ensures
            r == self.clients@.len(),
    {
        self.clients.len()
    }

    /// Whether `id` is registered.
    pub fn contains(&self, id: u128) -> (r: bool)
        ensures
            r == self.has(id),
    {
        let mut i: usize = 0;
        while i < self.clients.len()
            invariant
                i <= self.clients@.len(),
                forall|j: int| 0 <= j < i ==> self.clients@[j].id != id,
            decreases self.clients.len() - i,
        {
            if self.clients[i].id == id {
                return true;
            }
            i = i + 1;
        }
        false
    }

    /// Registers a listener that joined at `now_ms` and returns the envelope
    /// that opens its connection; `None`, with nothing changed, when the
    /// identity is already registered.
    pub fn connect(&mut self, id: u128, now_ms: u64) -> (r: Option<SyncEnvelope>)
        requires
            old(self).wf(),
        ensures
            final(self).wf(),
            old(self).has(id) ==> r.is_none() && final(self).clients@ == old(self).clients@,
            !old(self).has(id) ==> {
                &&& final(self).clients@ == old(self).clients@.push(
                    ClientSession { id, joined_ms: now_ms, feed: ClientFeed { delivered: 0, envelopes: 1 } },
                )
                &&& r == Some(
                    SyncEnvelope {
                        timestamp_ms: now_ms,
                        sequence: 0,
                        buffer_target_ms: BUFFER_TARGET_MS,
                        kind: EnvelopeKind::Start,
                    },
                )
            },
    {
        if self.contains(id) {
            return None;
        }
        let (feed, envelope) = ClientFeed::open(now_ms);
        self.clients.push(ClientSession { id, joined_ms: now_ms, feed });
        Some(envelope)
    }

    /// Unregisters `id`; says whether it was registered.
    pub fn disconnect(&mut self, id: u128) -> (r: bool)
        requires
            old(self).wf(),
        ensures
            final(self).wf(),
            r == old(self).has(id),
            !r ==> final(self).clients@ == old(self).clients@,
            r ==> exists|i: int|
                0 <= i < old(self).clients@.len() && old(self).clients@[i].id == id
                    && final(self).clients@ == old(self).clients@.remove(i),
            !final(self).has(id),
    {
        let mut i: usize = 0;
        while i < self.clients.len()
            invariant
                self.clients@ == old(self).clients@,
                self.wf(),
                i <= self.clients@.len(),
                forall|j: int| 0 <= j < i ==> self.clients@[j].id != id,
            decreases self.clients.len() - i,
        {
            if self.clients[i].id == id {
                let ghost before = self.clients@;
                self.clients.remove(i);
                proof {
                    assert forall|a: int, b: int|
                        0 <= a < b < self.clients@.len() implies self.clients@[a].id
                        != self.clients@[b].id by {
                        let a0 = if a < i { a } else { a + 1 };
                        let b0 = if b < i { b } else { b + 1 };
                        assert(self.clients@[a] == before[a0]);
                        assert(self.clients@[b] == before[b0]);
                    }
                    assert forall|k: int| 0 <= k < self.clients@.len() implies (
                    #[trigger] self.clients@[k]).feed.wf() by {
                        let k0 = if k < i { k } else { k + 1 };
                        assert(self.clients@[k] == before[k0]);
                    }
                    assert forall|k: int| 0 <= k < self.clients@.len() implies self.clients@[k].id
                        != id by {
                        let k0 = if k < i { k } else { k + 1 };
                        assert(self.clients@[k] == before[k0]);
                    }
                }
                return true;
            }
            i = i + 1;
        }
        false
    }

    /// The periodic envelope owed to the `k`-th listener right after a
    /// delivery: one when its payload count has just completed a period.
    pub fn envelope_due(&self, k: usize, now_ms: u64) -> (r: Option<SyncEnvelope>)
        requires
            k < self.clients@.len(),
        ensures
            r.is_some() <==> self.clients@[k as int].feed.delivered > 0
                && self.clients@[k as int].feed.delivered % ENVELOPE_PERIOD == 0,
            r.is_some() ==> r == Some(
                SyncEnvelope {
                    timestamp_ms: now_ms,
                    sequence: wire_sequence(self.clients@[k as int].feed.delivered),
                    buffer_target_ms: BUFFER_TARGET_MS,
                    kind: EnvelopeKind::Periodic,
                },
            ),
    {
        let d = self.clients[k].feed.delivered;
        if d > 0 && d % ENVELOPE_PERIOD == 0 {
            Some(
                SyncEnvelope {
                    timestamp_ms: now_ms,
                    sequence: (d % 0x1_0000_0000) as u32,
                    buffer_target_ms: BUFFER_TARGET_MS,
                    kind: EnvelopeKind::Periodic,
                },
            )
        } else {
            None
        }
    }

    /// Records one broadcast payload. `sent[i]` tells whether the send to the
    /// `i`-th listener succeeded: those that failed are evicted, every other
    /// listener has its count advanced, whatever happened to the rest.
    pub fn deliver(&mut self, sent: &Vec<bool>)
        requires
            old(self).wf(),
            sent@.len() == old(self).clients@.len(),
            forall|i: int|
                0 <= i < old(self).clients@.len() ==> (#[trigger] old(self).clients@[i]).feed.delivered
                    < u64::MAX,
        ensures
            final(self).wf(),
            final(self).clients@ == survivors(old(self).clients@, sent@),
    {
        let ghost start = self.clients@;
        let ghost mut idx: Seq<int> = seq![];
        let mut kept: Vec<ClientSession> = Vec::new();
        let mut i: usize = 0;
        while i < self.clients.len()
            invariant
                self.clients@ == start,
                sent@.len() == start.len(),
                i <= start.len(),
                forall|k: int| 0 <= k < start.len() ==> (#[trigger] start[k]).feed.delivered < u64::MAX,
                forall|k: int| 0 <= k < start.len() ==> (#[trigger] start[k]).feed.wf(),
                forall|a: int, b: int| 0 <= a < b < start.len() ==> start[a].id != start[b].id,
                kept@ == survivors(start.take(i as int), sent@.take(i as int)),
                forall|k: int| 0 <= k < kept@.len() ==> (#[trigger] kept@[k]).feed.wf(),
                idx.len() == kept@.len(),
                forall|k: int| 0 <= k < idx.len() ==> 0 <= #[trigger] idx[k] < i,
                forall|k: int| 0 <= k < idx.len() ==> (#[trigger] kept@[k]).id == start[idx[k]].id,
                forall|a: int, b: int| 0 <= a < b < idx.len() ==> idx[a] < idx[b],
            decreases start.len() - i,
        {
            proof {
                let t = start.take(i as int + 1);
                assert(t.drop_last() =~= start.take(i as int));
                assert(sent@.take(i as int + 1).take(i as int) =~= sent@.take(i as int));
                assert(t.last() == start[i as int]);
            }
            if sent[i] {
                let c = self.clients[i];
                let mut feed = c.feed;
                feed.count_payload();
                kept.push(ClientSession { id: c.id, joined_ms: c.joined_ms, feed });
                proof {
                    idx = idx.push(i as int);
                }
            }
            i = i + 1;
        }
        proof {
            assert(start.take(i as int) =~= start);
            assert(sent@.take(i as int) =~= sent@);
        }
        self.clients = kept;
        proof {
            assert forall|a: int, b: int|
                0 <= a < b < self.clients@.len() implies self.clients@[a].id
                != self.clients@[b].id by {
                assert(self.clients@[a].id == start[idx[a]].id);
                assert(self.clients@[b].id == start[idx[b]].id);
            }
        }
    }
}

/// One listener's failed send costs no other listener a payload: each
/// listener whose send succeeded stays, advanced by exactly one payload, and
/// exactly the listeners whose send succeeded stay.
pub proof fn lemma_fan_out_isolation(clients: Seq<ClientSession>, sent: Seq<bool>, i: int)
    requires
        sent.len() == clients.len(),
        0 <= i < clients.len(),
        sent[i],
    ensures
        survivors(clients, sent).contains(
            ClientSession { feed: clients[i].feed.advanced(), ..clients[i] },
        ),
        survivors(clients, sent).len() == count_sent(sent),
    decreases clients.len(),
{
    let n = clients.len();
    let rest = survivors(clients.drop_last(), sent.take(n - 1));
    assert(sent.take(n - 1) =~= sent.drop_last());
    lemma_survivor_count(clients, sent);
    if i == n - 1 {
        let c = ClientSession { feed: clients[i].feed.advanced(), ..clients[i] };
        assert(survivors(clients, sent) == rest.push(c));
        assert(survivors(clients, sent)[rest.len() as int] == c);
    } else {
        lemma_fan_out_isolation(clients.drop_last(), sent.take(n - 1), i);
        let c = ClientSession { feed: clients[i].feed.advanced(), ..clients[i] };
        let k = choose|k: int| 0 <= k < rest.len() && rest[k] == c;
        if sent[n - 1] {
            let cl = ClientSession { feed: clients.last().feed.advanced(), ..clients.last() };
            assert(survivors(clients, sent) == rest.push(cl));
            assert(survivors(clients, sent)[k] == c);
        }
    }
}

proof fn lemma_survivor_count(clients: Seq<ClientSession>, sent: Seq<bool>)
    requires
        sent.len() == clients.len(),
    ensures
        survivors(clients, sent).len() == count_sent(sent),
    decreases clients.len(),
{
    if clients.len() > 0 {
        let n = clients.len();
        assert(sent.take(n - 1) =~= sent.drop_last());
        lemma_survivor_count(clients.drop_last(), sent.take(n - 1));
    }
}

/// Relies on uuid's `Uuid::new_v4`: a random identity, of which nothing is
/// promised.
#[verifier::external_body]
fn random_client_id() -> (r: u128) {
    uuid::Uuid::new_v4().as_u128()
}

/// Relies on chrono's `From<SystemTime> for DateTime<Utc>` and
/// `timestamp_millis`: the system clock in milliseconds since the Unix
/// epoch, negative for a clock set before it. Nothing is promised of the
/// reading.
#[verifier::external_body]
fn utc_now_millis() -> (r: i64) {
    chrono::DateTime::<chrono::Utc>::from(std::time::SystemTime::now()).timestamp_millis()
}

/// A clock reading in milliseconds since the Unix epoch as an envelope
/// timestamp: a reading before the epoch counts as the epoch itself.
pub fn timestamp_from_reading(reading: i64) -> (r: u64)
    ensures
        reading < 0 ==> r == 0,
        reading >= 0 ==> r == reading,
{
    if reading < 0 {
        0
    } else {
        reading as u64
    }
}

/// The wall clock in milliseconds since the Unix epoch; a clock set before
/// the epoch reads as zero.
pub fn wall_clock_ms() -> (r: u64) {
    timestamp_from_reading(utc_now_millis())
}

/// Registers a new listener under a fresh random identity, joined now, and
/// returns its identity with the opening envelope; `None`, with nothing
/// changed, in the unlikely case that the drawn identity is taken, which
/// cannot happen while no listener is registered. Panics when the operating
/// system's random source fails.
pub fn join(registry: &mut ClientRegistry) -> (r: Option<(u128, SyncEnvelope)>)
    requires
        old(registry).wf(),
    ensures
        final(registry).wf(),
        old(registry).clients@.len() == 0 ==> r.is_some(),
        match r {
            Some((id, env)) => {
                &&& !old(registry).has(id)
                &&& final(registry).clients@ == old(registry).clients@.push(
                    ClientSession {
                        id,
                        joined_ms: env.timestamp_ms,
                        feed: ClientFeed { delivered: 0, envelopes: 1 },
                    },
                )
                &&& env.sequence == 0
                &&& env.kind == EnvelopeKind::Start
                &&& env.buffer_target_ms == BUFFER_TARGET_MS
            },
            None => final(registry).clients@ == old(registry).clients@,
        },
{
    let id = random_client_id();
    let now = wall_clock_ms();
    match registry.connect(id, now) {
        Some(env) => Some((id, env)),
        None => None,
    }
}

/// The high byte of a sample.
pub open spec fn high_byte(s: i16) -> u8 {
    (((s as u16) >> 8u16) & 0xffu16) as u8
}

/// The low byte of a sample.
pub open spec fn low_byte(s: i16) -> u8 {
    ((s as u16) & 0xffu16) as u8
}

/// `bytes` holds the samples of `pcm` in order, two bytes each, high byte
/// first when `big`, low byte first otherwise.
pub open spec fn holds_samples(bytes: Seq<u8>, pcm: Seq<i16>, big: bool) -> bool {
    &&& bytes.len() == 2 * pcm.len()
    &&& forall|i: int|
        0 <= i < pcm.len() ==> if big {
            bytes[2 * i] == high_byte(#[trigger] pcm[i]) && bytes[2 * i + 1] == low_byte(pcm[i])
        } else {
            bytes[2 * i] == low_byte(#[trigger] pcm[i]) && bytes[2 * i + 1] == high_byte(pcm[i])
        }
}

/// Relies on bytemuck's `cast_slice`: the samples' bytes as they lie in
/// memory, two per sample, in the machine's one byte order.
#[verifier::external_body]
fn sample_bytes(pcm: &[i16]) -> (r: Vec<u8>)
    ensures
        r@.len() == 2 * pcm@.len(),
        exists|big: bool| #[trigger] holds_samples(r@, pcm@, big),
{
    bytemuck::cast_slice::<i16, u8>(pcm).to_vec()
}

/// The payload that relays one decoded frame: the bytes of the first
/// `samples_per_channel` stereo sample pairs of `pcm`, in the machine's byte
/// order; `None` when the decoder reported more samples than the buffer holds.
pub fn stereo_payload(pcm: &[i16], samples_per_channel: usize) -> (r: Option<Vec<u8>>)
    ensures
        r.is_some() <==> 2 * samples_per_channel <= pcm@.len(),
        r.is_some() ==> r.unwrap()@.len() == 4 * samples_per_channel,
        r.is_some() ==> exists|big: bool|
            #[trigger] holds_samples(r.unwrap()@, pcm@.subrange(0, 2 * samples_per_channel), big),
{
    if samples_per_channel > pcm.len() / 2 {
        return None;
    }
    let n = samples_per_channel * 2;
    let mut head: Vec<i16> = Vec::new();
    let mut i: usize = 0;
    while i < n
        invariant
            i <= n,
            n <= pcm@.len(),
            head@ == pcm@.subrange(0, i as int),
        decreases n - i,
    {
        head.push(pcm[i]);
        i = i + 1;
        assert(head@ =~= pcm@.subrange(0, i as int));
    }
    Some(sample_bytes(head.as_slice()))
}

} // verus!
