//! One control connection of the gateway.
//!
//! The session decides; the program around it performs each action (a database lookup, a
//! response, a heartbeat) and hands its outcome back as the next event.

use crate::gateway::{GatewayTables, Ticket, TunnelRoute};
use crate::ids::Uuid;
use crate::numbers::parse_u16;
use crate::protocol::{validate_hostname, TunnelEvent, WIRE_VERSION};
use crate::text::{after_prefix, same_text};
use vstd::prelude::*;

verus! {

/// A request on a control connection: what the session reads of its head.
#[derive(Debug, PartialEq, Eq)]
pub struct ControlRequest {
    pub method: String,
    pub path: String,
    pub authority: Option<String>,
    pub version: Option<String>,
    pub installation: Option<String>,
    pub hostname: Option<String>,
    pub authorization: Option<String>,
    pub ticket: Option<String>,
}

/// A well-formed offer to serve a hostname, not yet checked against the database.
#[derive(Debug, PartialEq, Eq)]
pub struct TunnelOffer {
    pub id: Uuid,
    pub host: String,
    pub token: String,
}

/// The tunnel that a connection has established.
#[derive(Debug, PartialEq, Eq)]
pub struct ActiveTunnel {
    pub host: String,
    pub route: TunnelRoute,
}

/// What the session waits for.
#[derive(Debug, PartialEq, Eq)]
pub enum ControlPhase {
    /// The next request or heartbeat.
    Ready,
    /// Whether the lease was renewed.
    Renewing,
    /// That the heartbeat was sent.
    Beating,
    /// The hostname that the database holds for the offered installation.
    Resolving(TunnelOffer),
    /// Whether the offered bearer is good.
    Authenticating(TunnelOffer),
    /// The generation of the claimed lease.
    Claiming(TunnelOffer),
    /// Whether the lease that the claimed ticket was made under is current.
    Confirming(Ticket),
    /// Nothing: the connection is over.
    Closed,
}

/// What is to be done.
#[derive(Debug, PartialEq, Eq)]
pub enum ControlAction {
    /// Wait for the next request or heartbeat.
    Wait,
    /// Extend the lease in the database.
    RenewLease(TunnelRoute),
    /// Send a heartbeat to the peer.
    SendHeartbeat(TunnelEvent),
    /// Look up the hostname of an installation.
    LookUpHostname(Uuid),
    /// Check a tunnel bearer of an installation.
    CheckBearer { id: Uuid, token: String },
    /// Claim the lease of an installation.
    ClaimLease(Uuid),
    /// Answer 200 and keep the response stream for events; `replaced` tells whether another
    /// tunnel served the hostname.
    AcceptTunnel { host: String, route: TunnelRoute, replaced: bool },
    /// Ask whether a lease is still the current one.
    CheckLease(TunnelRoute),
    /// Answer 200 and hand both directions to the browser connection that holds the ticket.
    AcceptStream(Ticket),
    /// Answer 401.
    Unauthorized,
    /// Answer 410.
    Gone,
    /// Answer 404.
    NotFound,
    /// End the connection.
    Close,
}

/// Whether a request offers to serve a hostname.
pub open spec fn is_offer(request: ControlRequest) -> bool {
    request.method@ == "POST"@ && request.path@ == "/v1/tunnel"@
}

/// Whether a request claims a ticket.
pub open spec fn is_claim(request: ControlRequest) -> bool {
    !is_offer(request) && request.method@ == "CONNECT"@
}

/// The tickets that are left after a request: a ticket that is named in a claim is gone.
pub open spec fn tickets_left(tickets: Map<Seq<char>, Ticket>, request: ControlRequest) -> Map<
    Seq<char>,
    Ticket,
> {
    if is_claim(request) && request.ticket is Some {
        tickets.remove(request.ticket->0@)
    } else {
        tickets
    }
}

/// Whether what was read of a request makes a well-formed offer.
pub open spec fn offer_complete(
    version: Option<nat>,
    id: Option<Uuid>,
    hostname: Option<String>,
    authorization: Option<String>,
) -> bool {
    &&& version == Some(WIRE_VERSION as nat)
    &&& id is Some
    &&& hostname matches Some(host) && crate::protocol::valid_hostname(host@)
    &&& authorization matches Some(header) && crate::text::starts_with(header@, "Bearer "@)
}

/// The version that a request states.
pub open spec fn stated_version(request: ControlRequest) -> Option<nat> {
    match request.version {
        Some(text) => crate::numbers::decimal(text@, u16::MAX as nat),
        None => None,
    }
}

/// The installation that a request states.
pub open spec fn stated_installation(request: ControlRequest) -> Option<Uuid> {
    match request.installation {
        Some(text) => crate::ids::parse_outcome(crate::ids::parsed_uuid(text@)),
        None => None,
    }
}

/// Puts an offer together out of what was read of a request.
pub fn make_offer(
    version: Option<u16>,
    id: Option<Uuid>,
    hostname: Option<String>,
    authorization: Option<String>,
) -> (offer: Option<TunnelOffer>)
    ensures
        offer is Some == offer_complete(
            match version {
                Some(number) => Some(number as nat),
                None => None,
            },
            id,
            hostname,
            authorization,
        ),
        offer matches Some(made) ==> id == Some(made.id) && hostname == Some(made.host)
            && made.token@ == authorization->0@.skip("Bearer "@.len() as int),
{
    match (version, id, hostname, authorization) {
        (Some(version), Some(id), Some(host), Some(header)) => {
            if version != WIRE_VERSION || validate_hostname(host.as_str()).is_err() {
                return None;
            }
            match after_prefix(header.as_str(), "Bearer ") {
                Some(token) => Some(TunnelOffer { id, host, token }),
                None => None,
            }
        },
        _ => None,
    }
}

/// Reads the offer that a request makes.
pub fn read_offer(request: ControlRequest) -> (offer: Option<TunnelOffer>)
    ensures
        offer is Some == offer_complete(
            stated_version(request),
            stated_installation(request),
            request.hostname,
            request.authorization,
        ),
        offer matches Some(made) ==> stated_installation(request) == Some(made.id)
            && request.hostname == Some(made.host) && made.token@
            == request.authorization->0@.skip("Bearer "@.len() as int),
{
    let version: Option<u16> = match &request.version {
        Some(text) => parse_u16(text.as_str()),
        None => None,
    };
    let id: Option<Uuid> = match &request.installation {
        Some(text) => Uuid::parse_str(text.as_str()),
        None => None,
    };
    make_offer(version, id, request.hostname, request.authorization)
}

/// One control connection.
pub struct ControlSession {
    active: Option<ActiveTunnel>,
    phase: ControlPhase,
}

impl ControlSession {
    /// The tunnel that the connection has established.
    pub closed spec fn active(self) -> Option<ActiveTunnel> {
        self.active
    }

    /// What the session waits for.
    pub closed spec fn phase(self) -> ControlPhase {
        self.phase
    }

    /// Whether a ticket belongs to the tunnel of this connection.
    pub open spec fn owns(self, ticket: Ticket) -> bool {
        match self.active() {
            Some(tunnel) => tunnel.host@ == ticket.host@ && tunnel.route == ticket.route,
            None => false,
        }
    }

    /// Whether a claim names a ticket that is there and can be claimed here.
    pub open spec fn admits_claim(
        self,
        tickets: Map<Seq<char>, Ticket>,
        request: ControlRequest,
        now_ns: u64,
    ) -> bool {
        request.ticket is Some && tickets.dom().contains(request.ticket->0@) && self.claimable(
            tickets[request.ticket->0@],
            request.authority,
            now_ns,
        )
    }

    /// Whether a ticket can still be claimed on this connection for an authority.
    pub open spec fn claimable(
        self,
        ticket: Ticket,
        authority: Option<String>,
        now_ns: u64,
    ) -> bool {
        &&& ticket.deadline_ns > now_ns
        &&& self.owns(ticket)
        &&& authority matches Some(name) && name@ == ticket.host@
    }

    /// The tables after the connection has ended: its hostname is given up, unless a newer
    /// tunnel serves it.
    pub open spec fn ended(self, before: GatewayTables, after: GatewayTables) -> bool {
        &&& after.tickets() == before.tickets()
        &&& after.tunnels() == match self.active() {
            Some(tunnel) => if before.serves(tunnel.host@, tunnel.route.generation) {
                before.tunnels().remove(tunnel.host@)
            } else {
                before.tunnels()
            },
            None => before.tunnels(),
        }
    }

    /// A connection that has just been made.
    pub fn new() -> (session: Self)
        ensures
            session.active() is None,
            session.phase() is Ready,
    {
        ControlSession { active: None, phase: ControlPhase::Ready }
    }

    /// Ends the connection.
    fn close(&mut self, tables: &mut GatewayTables) -> (action: ControlAction)
        ensures
            action == ControlAction::Close,
            final(self).phase() is Closed,
            final(self).active() == old(self).active(),
            old(self).ended(*old(tables), *final(tables)),
    {
        self.phase = ControlPhase::Closed;
        match &self.active {
            Some(tunnel) => {
                tables.disconnect(tunnel.host.as_str(), tunnel.route.generation);
            },
            None => {},
        }
        ControlAction::Close
    }

    /// What follows when the peer has closed the connection.
    pub fn on_peer_closed(&mut self, tables: &mut GatewayTables) -> (action: ControlAction)
        requires
            old(self).phase() is Ready,
        ensures
            action == ControlAction::Close,
            final(self).phase() is Closed,
            final(self).active() == old(self).active(),
            old(self).ended(*old(tables), *final(tables)),
    {
        self.close(tables)
    }

    /// What a heartbeat is answered with.
    pub fn on_tick(&mut self) -> (action: ControlAction)
        requires
            old(self).phase() is Ready,
        ensures
            final(self).active() == old(self).active(),
            match old(self).active() {
                Some(tunnel) => action == ControlAction::RenewLease(tunnel.route)
                    && final(self).phase() is Renewing,
                None => action == ControlAction::Wait && final(self).phase() is Ready,
            },
    {
        match &self.active {
            Some(tunnel) => {
                let route: TunnelRoute = tunnel.route;
                self.phase = ControlPhase::Renewing;
                ControlAction::RenewLease(route)
            },
            None => ControlAction::Wait,
        }
    }

    /// What follows an attempt to renew the lease: a heartbeat, or the end where the lease has
    /// been fenced.
    pub fn on_renewed(&mut self, tables: &mut GatewayTables, renewed: bool) -> (action:
        ControlAction)
        requires
            old(self).phase() is Renewing,
            old(self).active() is Some,
        ensures
            final(self).active() == old(self).active(),
            if renewed {
                &&& action == ControlAction::SendHeartbeat(
                    TunnelEvent::Heartbeat {
                        version: WIRE_VERSION,
                        generation: old(self).active()->0.route.generation,
                    },
                )
                &&& final(self).phase() is Beating
                &&& *final(tables) == *old(tables)
            } else {
                &&& action == ControlAction::Close
                &&& final(self).phase() is Closed
                &&& old(self).ended(*old(tables), *final(tables))
            },
    {
        let generation: u64 = match &self.active {
            Some(tunnel) => tunnel.route.generation,
            None => 0,
        };
        if renewed {
            self.phase = ControlPhase::Beating;
            ControlAction::SendHeartbeat(
                TunnelEvent::Heartbeat { version: WIRE_VERSION, generation },
            )
        } else {
            self.close(tables)
        }
    }

    /// What follows a heartbeat: the connection goes on while its tunnel serves the hostname.
    pub fn on_heartbeat_sent(&mut self, tables: &mut GatewayTables) -> (action: ControlAction)
        requires
            old(self).phase() is Beating,
            old(self).active() is Some,
        ensures
            final(self).active() == old(self).active(),
            if old(tables).serves(
                old(self).active()->0.host@,
                old(self).active()->0.route.generation,
            ) {
                &&& action == ControlAction::Wait
                &&& final(self).phase() is Ready
                &&& *final(tables) == *old(tables)
            } else {
                &&& action == ControlAction::Close
                &&& final(self).phase() is Closed
                &&& old(self).ended(*old(tables), *final(tables))
            },
    {
        let current: bool = match &self.active {
            Some(tunnel) => match tables.route(tunnel.host.as_str()) {
                Some(route) => route.generation == tunnel.route.generation,
                None => false,
            },
            None => false,
        };
        if current {
            self.phase = ControlPhase::Ready;
            ControlAction::Wait
        } else {
            self.close(tables)
        }
    }

    /// What a request is answered with, or what is asked before it can be answered. A ticket
    /// that is named in a claim is gone afterwards, whatever becomes of the claim.
    pub fn on_request(
        &mut self,
        tables: &mut GatewayTables,
        request: ControlRequest,
        now_ns: u64,
    ) -> (action: ControlAction)
        requires
            old(self).phase() is Ready,
        ensures
            final(self).active() == old(self).active(),
            final(tables).tunnels() == old(tables).tunnels(),
            final(tables).tickets() == tickets_left(old(tables).tickets(), request),
            if is_offer(request) {
                if offer_complete(
                    stated_version(request),
                    stated_installation(request),
                    request.hostname,
                    request.authorization,
                ) {
                    &&& action == ControlAction::LookUpHostname(stated_installation(request)->0)
                    &&& final(self).phase() matches ControlPhase::Resolving(offer)
                    &&& offer.id == stated_installation(request)->0
                    &&& Some(offer.host) == request.hostname
                    &&& offer.token@ == request.authorization->0@.skip("Bearer "@.len() as int)
                } else {
                    action == ControlAction::Unauthorized && final(self).phase() is Ready
                }
            } else if is_claim(request) {
                if old(self).admits_claim(old(tables).tickets(), request, now_ns) {
                    let ticket = old(tables).tickets()[request.ticket->0@];
                    &&& action == ControlAction::CheckLease(ticket.route)
                    &&& final(self).phase() == ControlPhase::Confirming(ticket)
                } else {
                    action == ControlAction::Gone && final(self).phase() is Ready
                }
            } else {
                action == ControlAction::NotFound && final(self).phase() is Ready
            },
    {
        if same_text(request.method.as_str(), "POST") && same_text(
            request.path.as_str(),
            "/v1/tunnel",
        ) {
            return match read_offer(request) {
                Some(offer) => {
                    let id: Uuid = offer.id;
                    self.phase = ControlPhase::Resolving(offer);
                    ControlAction::LookUpHostname(id)
                },
                None => ControlAction::Unauthorized,
            };
        }
        if !same_text(request.method.as_str(), "CONNECT") {
            return ControlAction::NotFound;
        }
        let taken: Option<Ticket> = match &request.ticket {
            Some(name) => tables.take_ticket(name.as_str()),
            None => None,
        };
        let ticket: Ticket = match taken {
            Some(ticket) => ticket,
            None => {
                return ControlAction::Gone;
            },
        };
        let owned: bool = match &self.active {
            Some(tunnel) => crate::gateway::ticket_owner_matches(
                tunnel.host.as_str(),
                tunnel.route.id,
                tunnel.route.generation,
                ticket.host.as_str(),
                ticket.route.id,
                ticket.route.generation,
            ),
            None => false,
        };
        let addressed: bool = match &request.authority {
            Some(name) => same_text(name.as_str(), ticket.host.as_str()),
            None => false,
        };
        if ticket.deadline_ns > now_ns && owned && addressed {
            let route: TunnelRoute = ticket.route;
            self.phase = ControlPhase::Confirming(ticket);
            ControlAction::CheckLease(route)
        } else {
            ControlAction::Gone
        }
    }

    /// What follows the lookup of the offered installation: its bearer is checked only where
    /// the database holds exactly the offered hostname.
    pub fn on_hostname(&mut self, stored: Option<String>) -> (action: ControlAction)
        requires
            old(self).phase() is Resolving,
        ensures
            final(self).active() == old(self).active(),
            ({
                let offer = old(self).phase()->Resolving_0;
                if stored matches Some(name) && name@ == offer.host@ {
                    &&& action matches ControlAction::CheckBearer { id, token }
                    &&& id == offer.id
                    &&& token@ == offer.token@
                    &&& final(self).phase() == ControlPhase::Authenticating(offer)
                } else {
                    action == ControlAction::Unauthorized && final(self).phase() is Ready
                }
            }),
    {
        let mut phase: ControlPhase = ControlPhase::Ready;
        std::mem::swap(&mut phase, &mut self.phase);
        match (phase, stored) {
            (ControlPhase::Resolving(offer), Some(name)) => {
                if same_text(name.as_str(), offer.host.as_str()) {
                    let id: Uuid = offer.id;
                    let token: String = offer.token.clone();
                    self.phase = ControlPhase::Authenticating(offer);
                    ControlAction::CheckBearer { id, token }
                } else {
                    ControlAction::Unauthorized
                }
            },
            _ => ControlAction::Unauthorized,
        }
    }

    /// What follows the check of the bearer: only a good one leads to the lease.
    pub fn on_bearer(&mut self, good: bool) -> (action: ControlAction)
        requires
            old(self).phase() is Authenticating,
        ensures
            final(self).active() == old(self).active(),
            ({
                let offer = old(self).phase()->Authenticating_0;
                if good {
                    &&& action == ControlAction::ClaimLease(offer.id)
                    &&& final(self).phase() == ControlPhase::Claiming(offer)
                } else {
                    action == ControlAction::Unauthorized && final(self).phase() is Ready
                }
            }),
    {
        let mut phase: ControlPhase = ControlPhase::Ready;
        std::mem::swap(&mut phase, &mut self.phase);
        match phase {
            ControlPhase::Authenticating(offer) => {
                if good {
                    let id: Uuid = offer.id;
                    self.phase = ControlPhase::Claiming(offer);
                    ControlAction::ClaimLease(id)
                } else {
                    ControlAction::Unauthorized
                }
            },
            _ => ControlAction::Unauthorized,
        }
    }

    /// What follows the claim of the lease: the tunnel serves its hostname under the new
    /// generation, in place of any other.
    pub fn on_lease(&mut self, tables: &mut GatewayTables, generation: u64) -> (action:
        ControlAction)
        requires
            old(self).phase() is Claiming,
        ensures
            ({
                let offer = old(self).phase()->Claiming_0;
                let route = TunnelRoute { id: offer.id, generation };
                &&& action matches ControlAction::AcceptTunnel { host, route: given, replaced }
                &&& host@ == offer.host@
                &&& given == route
                &&& replaced == old(tables).tunnels().dom().contains(offer.host@)
                &&& final(self).active() matches Some(tunnel)
                &&& tunnel.host@ == offer.host@
                &&& tunnel.route == route
                &&& final(self).phase() is Ready
                &&& final(tables).tunnels() == old(tables).tunnels().insert(offer.host@, route)
                &&& final(tables).tickets() == old(tables).tickets()
            }),
    {
        let mut phase: ControlPhase = ControlPhase::Ready;
        std::mem::swap(&mut phase, &mut self.phase);
        match phase {
            ControlPhase::Claiming(offer) => {
                let route = TunnelRoute { id: offer.id, generation };
                let replaced: bool = tables.connect(offer.host.clone(), route);
                self.active = Some(ActiveTunnel { host: offer.host.clone(), route });
                ControlAction::AcceptTunnel { host: offer.host, route, replaced }
            },
            _ => ControlAction::Close,
        }
    }

    /// What follows the check of the lease behind a claimed ticket.
    pub fn on_lease_current(&mut self, current: bool) -> (action: ControlAction)
        requires
            old(self).phase() is Confirming,
        ensures
            final(self).active() == old(self).active(),
            final(self).phase() is Ready,
            action == if current {
                ControlAction::AcceptStream(old(self).phase()->Confirming_0)
            } else {
                ControlAction::Gone
            },
    {
        let mut phase: ControlPhase = ControlPhase::Ready;
        std::mem::swap(&mut phase, &mut self.phase);
        match phase {
            ControlPhase::Confirming(ticket) => {
                if current {
                    ControlAction::AcceptStream(ticket)
                } else {
                    ControlAction::Gone
                }
            },
            _ => ControlAction::Gone,
        }
    }
}

/// A tunnel that has been replaced cannot take the hostname away from its successor: when its
/// connection ends, every route stays as it is.
pub proof fn law_successor_keeps_hostname(
    session: ControlSession,
    before: GatewayTables,
    after: GatewayTables,
)
    requires
        session.active() is Some,
        !before.serves(
            session.active()->0.host@,
            session.active()->0.route.generation,
        ),
        session.ended(before, after),
    ensures
        after.tunnels() == before.tunnels(),
        after.tickets() == before.tickets(),
{
}

/// A ticket can be claimed only on the connection whose tunnel it was made for: the same
/// hostname, the same installation and the same generation, addressed by that hostname and in
/// time.
pub proof fn law_claim_needs_owner(
    session: ControlSession,
    ticket: Ticket,
    authority: Option<String>,
    now_ns: u64,
)
    requires
        session.claimable(ticket, authority, now_ns),
    ensures
        session.active() is Some,
        session.active()->0.host@ == ticket.host@,
        session.active()->0.route.id == ticket.route.id,
        session.active()->0.route.generation == ticket.route.generation,
        authority is Some,
        authority->0@ == ticket.host@,
        now_ns < ticket.deadline_ns,
{
}

/// A stream that was offered can be claimed: on the connection of the tunnel that it was offered
/// to, for ten seconds, under the hostname that it was offered for.
pub proof fn law_offered_stream_can_be_claimed(
    before: GatewayTables,
    after: GatewayTables,
    host: Seq<char>,
    route: TunnelRoute,
    now_ns: u64,
    session: ControlSession,
    request: ControlRequest,
    later_ns: u64,
)
    requires
        request.ticket is Some,
        crate::gateway::ticket_opened(before, after, request.ticket->0@, host, route, now_ns),
        request.authority is Some,
        request.authority->0@ == host,
        session.active() is Some,
        session.active()->0.host@ == host,
        session.active()->0.route == route,
        later_ns < now_ns + crate::gateway::TICKET_LIFETIME_NS,
    ensures
        session.admits_claim(after.tickets(), request, later_ns),
{
    assert(after.tickets().dom().contains(request.ticket->0@));
}

/// A ticket counts once: after a request has named it in a claim, no request on any connection
/// can claim it, whatever became of the first.
pub proof fn law_ticket_is_single_use(
    tickets: Map<Seq<char>, Ticket>,
    first: ControlRequest,
    session: ControlSession,
    again: ControlRequest,
    now_ns: u64,
)
    requires
        is_claim(first),
        first.ticket is Some,
        again.ticket is Some,
        again.ticket->0@ == first.ticket->0@,
    ensures
        !session.admits_claim(tickets_left(tickets, first), again, now_ns),
{
}

/// A request offers a tunnel where it posts to its path, and claims a stream where it connects;
/// a claim takes its ticket, whether it is let in or not, and nothing else takes one.
pub proof fn law_requests_are_told_apart(
    request: ControlRequest,
    tickets: Map<Seq<char>, Ticket>,
    other: Seq<char>,
)
    ensures
        is_offer(request) <==> request.method@ == "POST"@ && request.path@ == "/v1/tunnel"@,
        is_claim(request) <==> request.method@ == "CONNECT"@,
        !is_claim(request) || request.ticket is None ==> tickets_left(tickets, request) == tickets,
        is_claim(request) && request.ticket is Some ==> {
            let taken = request.ticket->0@;
            let left = tickets_left(tickets, request);
            &&& !left.dom().contains(taken)
            &&& other != taken ==> left.dom().contains(other) == tickets.dom().contains(other)
            &&& other != taken && tickets.dom().contains(other) ==> left[other] == tickets[other]
        },
{
    reveal_strlit("POST");
    reveal_strlit("CONNECT");
    assert("POST"@.len() == 4);
    assert("CONNECT"@.len() == 7);
}

/// An offer is complete where it is of this version and names an installation, a relay hostname
/// and a bearer.
pub proof fn law_offer_is_complete(
    version: Option<nat>,
    id: Option<Uuid>,
    hostname: Option<String>,
    authorization: Option<String>,
    secret: Seq<char>,
)
    ensures
        offer_complete(version, id, hostname, authorization) ==> {
            &&& version == Some(1nat)
            &&& id is Some
            &&& hostname is Some && crate::protocol::valid_hostname(hostname->0@)
            &&& authorization is Some && exists|found: Seq<char>|
                authorization->0@ == #[trigger] ("Bearer "@ + found)
        },
        version == Some(1nat) && id is Some && hostname is Some && crate::protocol::valid_hostname(
            hostname->0@,
        ) && authorization is Some && authorization->0@ == "Bearer "@ + secret ==> offer_complete(
            version,
            id,
            hostname,
            authorization,
        ),
{
    let word = "Bearer "@;
    assert((word + secret).subrange(0, word.len() as int) =~= word);
    if offer_complete(version, id, hostname, authorization) {
        let text = authorization->0@;
        assert(text =~= word + text.skip(word.len() as int)) by {
            assert forall|i: int| 0 <= i < word.len() implies text[i] == word[i] by {
                assert(text.subrange(0, word.len() as int)[i] == text[i]);
            }
        }
    }
}

/// A claim is let in exactly where its ticket is there and not over, was made for the hostname and
/// the route of the tunnel of this very connection, and is claimed under that hostname.
pub proof fn law_claim_is_of_the_own_tunnel(
    session: ControlSession,
    tickets: Map<Seq<char>, Ticket>,
    request: ControlRequest,
    now_ns: u64,
)
    ensures
        session.admits_claim(tickets, request, now_ns) <==> {
            let ticket = tickets[request.ticket->0@];
            &&& request.ticket is Some && tickets.dom().contains(request.ticket->0@)
            &&& now_ns < ticket.deadline_ns
            &&& session.active() is Some
            &&& session.active()->0.host@ == ticket.host@
            &&& session.active()->0.route == ticket.route
            &&& request.authority is Some && request.authority->0@ == ticket.host@
        },
{
}

/// A connection that ends takes its tunnel out of service where that is still the one that serves
/// its hostname, by generation, and touches no other hostname and no ticket.
pub proof fn law_end_takes_only_the_own_tunnel(
    session: ControlSession,
    before: GatewayTables,
    after: GatewayTables,
    host: Seq<char>,
)
    requires
        session.ended(before, after),
    ensures
        after.tickets() == before.tickets(),
        ({
            let own = session.active() is Some && session.active()->0.host@ == host
                && before.tunnels().dom().contains(host) && before.tunnels()[host].generation
                == session.active()->0.route.generation;
            &&& own ==> !after.tunnels().dom().contains(host)
            &&& !own ==> after.tunnels().dom().contains(host) == before.tunnels().dom().contains(
                host,
            )
            &&& !own && before.tunnels().dom().contains(host) ==> after.tunnels()[host]
                == before.tunnels()[host]
        }),
{
}

} // verus!
