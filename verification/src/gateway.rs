//! The gateway: which tunnel serves a hostname, which tickets are open, and what is answered
//! on a control connection.

use crate::ids::Uuid;
use crate::protocol::{
    TunnelEvent, BUFFER_BUDGET, BUFFER_PER_DIRECTION, MAX_GATEWAY_STREAMS, WIRE_VERSION,
};
use crate::text::same_text;
use crate::text_map::TextMap;
use vstd::prelude::*;

verus! {

/// How long a ticket may be claimed, in nanoseconds.
pub const TICKET_LIFETIME_NS: u64 = 10_000_000_000;

/// How long the peer is told that a ticket may be claimed, in milliseconds.
pub const TICKET_LIFETIME_MS: u64 = 10_000;

/// How long a claimed lease lasts without a heartbeat, in seconds.
pub const LEASE_SECONDS: u64 = 45;

/// The longest chunk of relayed bytes.
pub const RELAY_CHUNK: usize = 16_384;

/// How many browser streams a gateway carries: the coded bound, or what the buffer budget
/// leaves room for where that is less.
pub fn stream_capacity() -> (capacity: usize)
    ensures
        capacity == 2048,
        capacity <= MAX_GATEWAY_STREAMS,
        capacity * 2 * BUFFER_PER_DIRECTION <= BUFFER_BUDGET,
{
    let by_buffers: usize = BUFFER_BUDGET / (2 * BUFFER_PER_DIRECTION);
    if MAX_GATEWAY_STREAMS < by_buffers {
        MAX_GATEWAY_STREAMS
    } else {
        by_buffers
    }
}

/// Whether a gateway name is one to 64 bytes long.
pub fn valid_gateway_id(id: &str) -> (valid: bool)
    ensures
        valid == (1 <= vstd::utf8::encode_utf8(id@).len() <= 64),
{
    let size: usize = id.as_bytes().len();
    1 <= size && size <= 64
}

/// How many bytes of a pending message are asked room for.
pub fn wanted_capacity(pending: usize) -> (wanted: usize)
    ensures
        wanted <= pending && wanted <= RELAY_CHUNK,
        wanted == pending || wanted == RELAY_CHUNK,
{
    if pending < RELAY_CHUNK {
        pending
    } else {
        RELAY_CHUNK
    }
}

/// How many bytes of a pending message are sent at once: what there is room for, and never
/// more than a chunk.
pub fn next_chunk(capacity: usize, pending: usize) -> (count: usize)
    ensures
        count <= capacity && count <= pending && count <= RELAY_CHUNK,
        count == capacity || count == pending || count == RELAY_CHUNK,
{
    let room: usize = if capacity < RELAY_CHUNK {
        capacity
    } else {
        RELAY_CHUNK
    };
    if room < pending {
        room
    } else {
        pending
    }
}

/// The installation and the lease generation that serve a hostname.
#[derive(Clone, Copy, Debug, PartialEq, Eq, Structural)]
pub struct TunnelRoute {
    pub id: Uuid,
    pub generation: u64,
}

/// A single-use permission to carry one browser connection.
#[derive(Debug, PartialEq, Eq)]
pub struct Ticket {
    pub host: String,
    pub route: TunnelRoute,
    pub deadline_ns: u64,
}

/// The tunnels and the open tickets of a gateway.
pub struct GatewayTables {
    tunnels: TextMap<TunnelRoute>,
    tickets: TextMap<Ticket>,
}

/// Why a browser connection is not carried.
#[derive(Clone, Copy, Debug, PartialEq, Eq, Structural)]
pub enum BrowserRefusal {
    NoTunnel,
    StaleTunnel,
}

impl BrowserRefusal {
    /// A description for people.
    pub fn message(self) -> (message: &'static str)
        ensures
            message@ == match self {
                BrowserRefusal::NoTunnel => "no tunnel"@,
                BrowserRefusal::StaleTunnel => "stale tunnel"@,
            },
    {
        match self {
            BrowserRefusal::NoTunnel => "no tunnel",
            BrowserRefusal::StaleTunnel => "stale tunnel",
        }
    }
}

/// Whether a ticket was opened, and nothing else changed: it names the hostname and the tunnel,
/// and can be claimed for ten seconds.
pub open spec fn ticket_opened(
    before: GatewayTables,
    after: GatewayTables,
    ticket: Seq<char>,
    host: Seq<char>,
    route: TunnelRoute,
    now_ns: u64,
) -> bool {
    &&& after.tunnels() == before.tunnels()
    &&& after.tickets().dom() == before.tickets().dom().insert(ticket)
    &&& forall|other: Seq<char>|
        other != ticket && #[trigger] before.tickets().dom().contains(other)
            ==> after.tickets()[other] == before.tickets()[other]
    &&& after.tickets()[ticket].host@ == host
    &&& after.tickets()[ticket].route == route
    &&& after.tickets()[ticket].deadline_ns == now_ns + TICKET_LIFETIME_NS
}

/// Whether an event tells the peer of a ticket.
pub open spec fn announces(
    event: TunnelEvent,
    ticket: Seq<char>,
    connection_id: Uuid,
    host: Seq<char>,
    route: TunnelRoute,
    now_ms: u64,
) -> bool {
    match event {
        TunnelEvent::Open {
            version,
            ticket: told,
            connection_id: connection,
            hostname,
            generation,
            expires_at_ms,
        } => {
            &&& version == WIRE_VERSION
            &&& told@ == ticket
            &&& connection == connection_id
            &&& hostname@ == host
            &&& generation == route.generation
            &&& expires_at_ms == now_ms + TICKET_LIFETIME_MS
        },
        TunnelEvent::Heartbeat { .. } => false,
    }
}

/// Whether a ticket is the text form of a drawn identifier, and an event tells of it and of
/// another drawn one for the connection.
pub open spec fn drawn_for(
    ticket: Seq<char>,
    drawn: Uuid,
    event: TunnelEvent,
    connection_id: Uuid,
    host: Seq<char>,
    route: TunnelRoute,
    now_ms: u64,
) -> bool {
    &&& crate::ids::is_version_4(drawn.bits)
    &&& crate::ids::is_version_4(connection_id.bits)
    &&& ticket == drawn.spec_text()
    &&& announces(event, ticket, connection_id, host, route, now_ms)
}

impl GatewayTables {
    /// The tunnel that serves each hostname.
    pub closed spec fn tunnels(self) -> Map<Seq<char>, TunnelRoute> {
        self.tunnels@
    }

    /// The open tickets.
    pub closed spec fn tickets(self) -> Map<Seq<char>, Ticket> {
        self.tickets@
    }

    /// Whether a hostname is served under a generation.
    pub open spec fn serves(self, host: Seq<char>, generation: u64) -> bool {
        self.tunnels().dom().contains(host) && self.tunnels()[host].generation == generation
    }

    /// A gateway without tunnels and tickets.
    pub fn new() -> (tables: Self)
        ensures
            tables.tunnels() == Map::<Seq<char>, TunnelRoute>::empty(),
            tables.tickets() == Map::<Seq<char>, Ticket>::empty(),
    {
        GatewayTables { tunnels: TextMap::new(), tickets: TextMap::new() }
    }

    /// The tunnel that serves a hostname.
    pub fn route(&self, host: &str) -> (route: Option<TunnelRoute>)
        ensures
            route is Some == self.tunnels().dom().contains(host@),
            route matches Some(found) ==> found == self.tunnels()[host@],
    {
        match self.tunnels.get(host) {
            Some(found) => Some(*found),
            None => None,
        }
    }

    /// Lets a tunnel serve a hostname and tells whether another one did.
    pub(crate) fn connect(&mut self, host: String, route: TunnelRoute) -> (replaced: bool)
        ensures
            replaced == old(self).tunnels().dom().contains(host@),
            final(self).tunnels() == old(self).tunnels().insert(host@, route),
            final(self).tickets() == old(self).tickets(),
    {
        self.tunnels.insert(host, route).is_some()
    }

    /// Ends the service of a tunnel, unless a newer one has taken the hostname over.
    pub(crate) fn disconnect(&mut self, host: &str, generation: u64)
        ensures
            final(self).tunnels() == if old(self).serves(host@, generation) {
                old(self).tunnels().remove(host@)
            } else {
                old(self).tunnels()
            },
            final(self).tickets() == old(self).tickets(),
    {
        let current: bool = match self.tunnels.get(host) {
            Some(route) => route.generation == generation,
            None => false,
        };
        if current {
            let _ = self.tunnels.remove(host);
        }
    }

    /// Opens a ticket for a browser connection and tells the peer about it. The ticket names
    /// the hostname and the tunnel, and can be claimed for ten seconds.
    pub fn open_ticket(
        &mut self,
        ticket: String,
        connection_id: Uuid,
        host: String,
        route: TunnelRoute,
        now_ns: u64,
        now_ms: u64,
    ) -> (event: TunnelEvent)
        requires
            now_ns + TICKET_LIFETIME_NS <= u64::MAX,
            now_ms + TICKET_LIFETIME_MS <= u64::MAX,
        ensures
            ticket_opened(*old(self), *final(self), ticket@, host@, route, now_ns),
            announces(event, ticket@, connection_id, host@, route, now_ms),
    {
        let opened = Ticket {
            host: host.clone(),
            route,
            deadline_ns: now_ns + TICKET_LIFETIME_NS,
        };
        let told: String = ticket.clone();
        let _ = self.tickets.insert(ticket, opened);
        proof {
            assert(self.tickets().dom() =~= old(self).tickets().dom().insert(told@));
        }
        TunnelEvent::Open {
            version: WIRE_VERSION,
            ticket: told,
            connection_id,
            hostname: host,
            generation: route.generation,
            expires_at_ms: now_ms + TICKET_LIFETIME_MS,
        }
    }

    /// Begins to carry a browser connection for a hostname: the tunnel that serves it, if any.
    pub fn admit_browser(&self, host: &str) -> (outcome: Result<TunnelRoute, BrowserRefusal>)
        ensures
            outcome == if self.tunnels().dom().contains(host@) {
                Ok(self.tunnels()[host@])
            } else {
                Err(BrowserRefusal::NoTunnel)
            },
    {
        match self.route(host) {
            Some(route) => Ok(route),
            None => Err(BrowserRefusal::NoTunnel),
        }
    }

    /// Goes on with a browser connection after the lease of its tunnel was checked: a current
    /// one gets a fresh ticket, which is told to the peer, and a stale one nothing.
    pub fn offer_stream(
        &mut self,
        host: String,
        route: TunnelRoute,
        current: bool,
        now_ns: u64,
        now_ms: u64,
    ) -> (outcome: Result<(String, TunnelEvent), BrowserRefusal>)
        requires
            now_ns + TICKET_LIFETIME_NS <= u64::MAX,
            now_ms + TICKET_LIFETIME_MS <= u64::MAX,
        ensures
            !current ==> {
                &&& outcome == Err::<(String, TunnelEvent), BrowserRefusal>(
                    BrowserRefusal::StaleTunnel,
                )
                &&& final(self).tunnels() == old(self).tunnels()
                &&& final(self).tickets() == old(self).tickets()
            },
            current ==> outcome is Ok,
            outcome matches Ok(offer) ==> ticket_opened(
                *old(self),
                *final(self),
                offer.0@,
                host@,
                route,
                now_ns,
            ),
            outcome matches Ok(offer) ==> exists|drawn: Uuid, connection: Uuid|
                #[trigger] drawn_for(
                    offer.0@,
                    drawn,
                    offer.1,
                    connection,
                    host@,
                    route,
                    now_ms,
                ),
    {
        if !current {
            return Err(BrowserRefusal::StaleTunnel);
        }
        let drawn: Uuid = Uuid::new_v4();
        let connection: Uuid = Uuid::new_v4();
        let ticket: String = drawn.to_text();
        let event: TunnelEvent = self.open_ticket(
            ticket.clone(),
            connection,
            host,
            route,
            now_ns,
            now_ms,
        );
        let offer: (String, TunnelEvent) = (ticket, event);
        proof {
            assert(drawn_for(offer.0@, drawn, offer.1, connection, host@, route, now_ms));
        }
        Ok(offer)
    }

    /// Takes a ticket out: whoever comes later with the same ticket finds nothing.
    pub fn take_ticket(&mut self, ticket: &str) -> (taken: Option<Ticket>)
        ensures
            taken is Some == old(self).tickets().dom().contains(ticket@),
            taken matches Some(found) ==> found == old(self).tickets()[ticket@],
            final(self).tickets() == old(self).tickets().remove(ticket@),
            final(self).tunnels() == old(self).tunnels(),
    {
        self.tickets.remove(ticket)
    }
}

/// Whether a ticket was made for exactly this hostname, installation and generation.
pub fn ticket_owner_matches(
    active_host: &str,
    active_id: Uuid,
    active_generation: u64,
    ticket_host: &str,
    ticket_id: Uuid,
    ticket_generation: u64,
) -> (matches: bool)
    ensures
        matches == (active_host@ == ticket_host@ && active_id == ticket_id && active_generation
            == ticket_generation),
{
    same_text(active_host, ticket_host) && active_id == ticket_id && active_generation
        == ticket_generation
}

/// A ticket that was opened holds for ten seconds, for the hostname and the route that it was
/// opened for, and no other ticket nor any tunnel changes.
pub proof fn law_ticket_holds_for_ten_seconds(
    before: GatewayTables,
    after: GatewayTables,
    ticket: Seq<char>,
    host: Seq<char>,
    route: TunnelRoute,
    now_ns: u64,
)
    requires
        ticket_opened(before, after, ticket, host, route, now_ns),
    ensures
        after.tickets().dom().contains(ticket),
        after.tickets()[ticket].host@ == host,
        after.tickets()[ticket].route == route,
        after.tickets()[ticket].deadline_ns == now_ns + 10_000_000_000,
        forall|other: Seq<char>|
            other != ticket ==> (#[trigger] after.tickets().dom().contains(other)
                == before.tickets().dom().contains(other)) && (before.tickets().dom().contains(
                other,
            ) ==> after.tickets()[other] == before.tickets()[other]),
        after.tunnels() == before.tunnels(),
{
}

/// An announcement carries this version, the ticket, the connection, the hostname and the
/// generation that it is for, and holds for ten seconds.
pub proof fn law_announcement_says_what_it_is_for(
    event: TunnelEvent,
    told: Seq<char>,
    connection: Uuid,
    host: Seq<char>,
    route: TunnelRoute,
    now_ms: u64,
)
    requires
        announces(event, told, connection, host, route, now_ms),
    ensures
        event matches TunnelEvent::Open {
            version,
            ticket,
            connection_id,
            hostname,
            generation,
            expires_at_ms,
        } && version == 1 && ticket@ == told && connection_id == connection && hostname@ == host
            && generation == route.generation && expires_at_ms == now_ms + 10_000,
{
}

/// A hostname is served under a generation exactly where its tunnel has that generation.
pub proof fn law_served_generation_is_the_tunnels(
    tables: GatewayTables,
    host: Seq<char>,
    generation: u64,
    other: u64,
)
    ensures
        tables.serves(host, generation) <==> tables.tunnels().dom().contains(host)
            && tables.tunnels()[host].generation == generation,
        tables.serves(host, generation) && tables.serves(host, other) ==> generation == other,
{
}

/// A ticket of an offered stream is drawn at random, and so is its connection.
pub proof fn law_offered_ticket_is_drawn(
    ticket: Seq<char>,
    drawn: Uuid,
    event: TunnelEvent,
    connection_id: Uuid,
    host: Seq<char>,
    route: TunnelRoute,
    now_ms: u64,
)
    requires
        drawn_for(ticket, drawn, event, connection_id, host, route, now_ms),
    ensures
        ticket == drawn.spec_text(),
        crate::ids::is_version_4(drawn.bits),
        crate::ids::is_version_4(connection_id.bits),
        announces(event, ticket, connection_id, host, route, now_ms),
{
}

} // verus!
