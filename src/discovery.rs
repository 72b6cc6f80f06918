//! Neighbour discovery: the announcement a node multicasts, what the receiver
//! does with each datagram, and which address families run the two loops.

use vstd::prelude::*;
use crate::cla::ConvergencyLayerAgent;
use crate::peers::{cla_list_view, PeerModel, PeerRecord, PeerTable, PeerType};
use crate::text::{decimal, push_decimal};

verus! {

/// UDP port that discovery binds and announces to.
pub const DISCOVERY_PORT: u16 = 3003;

/// Size of the receive buffer; longer datagrams are cut and fail to decode.
pub const RECEIVE_BUFFER_LEN: usize = 1024;

/// A presence announcement: the sender's endpoint id and the transports it
/// offers, each with its listening port, in the order of its active agents.
#[derive(Debug, Clone, PartialEq, Eq, Hash)]
pub struct AnnouncementPkt {
    pub eid: String,
    pub cl: Vec<(String, u16)>,
}

/// The transports of an announcement as text and port.
pub open spec fn services_view(cl: Seq<(String, u16)>) -> Seq<(Seq<char>, u16)> {
    cl.map_values(|e: (String, u16)| (e.0@, e.1))
}

/// The transports of a peer record built from announced services: every
/// announced port becomes an explicit one.
pub open spec fn announced_options(sv: Seq<(Seq<char>, u16)>) -> Seq<(Seq<char>, Option<u16>)> {
    sv.map_values(|e: (Seq<char>, u16)| (e.0, Some(e.1)))
}

/// The record that an announcement with id `eid` and services `sv`, received from
/// address `source`, yields.
pub open spec fn announced_peer(eid: Seq<char>, sv: Seq<(Seq<char>, u16)>, source: Seq<char>) -> PeerModel {
    PeerModel { eid, addr: source, con_type: PeerType::Dynamic, cla_list: announced_options(sv) }
}

/// The peer table after applying one announcement.
pub open spec fn apply_announcement(
    table: Map<Seq<char>, PeerModel>,
    eid: Seq<char>,
    sv: Seq<(Seq<char>, u16)>,
    source: Seq<char>,
) -> Map<Seq<char>, PeerModel> {
    table.insert(eid, announced_peer(eid, sv, source))
}

/// What the routing layer is told.
#[derive(Debug, Clone, PartialEq, Eq, Hash)]
pub enum RoutingNotification {
    /// A peer with this endpoint id was heard from.
    EncounteredPeer(String),
}

/// The transports an agent list announces: each agent's name and port, in order.
pub open spec fn agent_services<A: ConvergencyLayerAgent>(agents: Seq<A>) -> Seq<(Seq<char>, u16)> {
    agents.map_values(|a: A| (a.spec_name(), a.spec_port()))
}

/// Builds the announcement of node `eid` offering the transports `agents`.
pub fn announcement<A: ConvergencyLayerAgent>(eid: &str, agents: &[A]) -> (r: AnnouncementPkt)
    ensures
        r.eid@ == eid@,
        services_view(r.cl@) == agent_services(agents@),
{
    let mut cl: Vec<(String, u16)> = Vec::new();
    let mut i: usize = 0;
    while i < agents.len()
        invariant
            0 <= i <= agents@.len(),
            services_view(cl@) =~= agent_services(agents@.subrange(0, i as int)),
        decreases agents@.len() - i,
    {
        let a = &agents[i];
        let name = String::from_str(a.name());
        let port = a.port();
        let ghost before = cl@;
        cl.push((name, port));
        proof {
            let pre = agents@.subrange(0, i as int);
            let post = agents@.subrange(0, i + 1);
            assert(post =~= pre.push(agents@[i as int]));
            assert(cl@ =~= before.push((name, port)));
            assert(services_view(cl@) =~= services_view(before).push((name@, port)));
            assert(agent_services(post) =~= agent_services(pre).push((a.spec_name(), a.spec_port())));
        }
        i = i + 1;
        assert(services_view(cl@) =~= agent_services(agents@.subrange(0, i as int)));
    }
    assert(agents@.subrange(0, i as int) =~= agents@);
    AnnouncementPkt { eid: String::from_str(eid), cl }
}

/// The record for a peer that announced `pkt` from address `source`.
pub fn peer_from_announcement(pkt: &AnnouncementPkt, source: &str) -> (r: PeerRecord)
    ensures
        r@ == announced_peer(pkt.eid@, services_view(pkt.cl@), source@),
{
    let mut cla_list: Vec<(String, Option<u16>)> = Vec::new();
    let mut i: usize = 0;
    while i < pkt.cl.len()
        invariant
            0 <= i <= pkt.cl@.len(),
            cla_list_view(cla_list@) =~= announced_options(
                services_view(pkt.cl@.subrange(0, i as int)),
            ),
        decreases pkt.cl@.len() - i,
    {
        let scheme = pkt.cl[i].0.clone();
        let port = pkt.cl[i].1;
        let ghost before = cla_list@;
        cla_list.push((scheme, Some(port)));
        proof {
            let pre = pkt.cl@.subrange(0, i as int);
            let post = pkt.cl@.subrange(0, i + 1);
            assert(post =~= pre.push(pkt.cl@[i as int]));
            assert(cla_list@ =~= before.push((scheme, Some(port))));
            assert(cla_list_view(cla_list@) =~= cla_list_view(before).push((scheme@, Some(port))));
            assert(services_view(post) =~= services_view(pre).push((scheme@, port)));
            assert(announced_options(services_view(post)) =~= announced_options(
                services_view(pre),
            ).push((scheme@, Some(port))));
        }
        i = i + 1;
        assert(cla_list_view(cla_list@) =~= announced_options(
            services_view(pkt.cl@.subrange(0, i as int)),
        ));
    }
    assert(pkt.cl@.subrange(0, i as int) =~= pkt.cl@);
    PeerRecord {
        eid: pkt.eid.clone(),
        addr: String::from_str(source),
        con_type: PeerType::Dynamic,
        cla_list,
    }
}

/// Handles one received datagram. `decoded` is the announcement it held, or
/// `None` when it did not decode; `source` is the address it came from. A decoded
/// announcement inserts or refreshes its peer and yields one notification; a
/// datagram that did not decode changes nothing and yields none.
pub fn receive(table: &mut PeerTable, decoded: Option<AnnouncementPkt>, source: &str) -> (r: Option<
    RoutingNotification,
>)
    requires
        old(table).wf(),
    ensures
        final(table).wf(),
        decoded.is_none() ==> r.is_none() && final(table).view() == old(table).view(),
        decoded.is_some() ==> ({
            let p = decoded.unwrap();
            &&& final(table).view() == apply_announcement(
                old(table).view(),
                p.eid@,
                services_view(p.cl@),
                source@,
            )
            &&& r.is_some()
            &&& r.unwrap() matches RoutingNotification::EncounteredPeer(e) && e@ == p.eid@
        }),
{
    match decoded {
        None => None,
        Some(pkt) => {
            let peer = peer_from_announcement(&pkt, source);
            table.insert_or_refresh(peer);
            Some(RoutingNotification::EncounteredPeer(pkt.eid))
        },
    }
}

/// An IP address family on which discovery can run.
#[derive(Debug, Clone, Copy, PartialEq, Eq, Hash)]
pub enum AddressFamily {
    V4,
    V6,
}

/// The families to start, IPv4 first, each at most once.
pub open spec fn families_spec(v4: bool, v6: bool) -> Seq<AddressFamily> {
    (if v4 { seq![AddressFamily::V4] } else { Seq::empty() }) + (if v6 {
        seq![AddressFamily::V6]
    } else {
        Seq::empty()
    })
}

/// The families on which a receiver and a broadcaster run, given which are enabled.
pub fn enabled_families(v4: bool, v6: bool) -> (r: Vec<AddressFamily>)
    ensures
        r@ == families_spec(v4, v6),
{
    let mut r: Vec<AddressFamily> = Vec::new();
    if v4 {
        r.push(AddressFamily::V4);
    }
    if v6 {
        r.push(AddressFamily::V6);
    }
    assert(r@ =~= families_spec(v4, v6));
    r
}

impl AddressFamily {
    /// Text of the multicast group of this family.
    pub open spec fn group_spec(self) -> Seq<char> {
        match self {
            AddressFamily::V4 => "224.0.0.26"@,
            AddressFamily::V6 => "FF02::300"@,
        }
    }

    /// Text of the local address the discovery socket binds, without port.
    pub open spec fn bind_host_spec(self) -> Seq<char> {
        match self {
            AddressFamily::V4 => "0.0.0.0"@,
            AddressFamily::V6 => "[::1]"@,
        }
    }

    /// The multicast group joined and announced to.
    pub fn multicast_group(&self) -> (r: &'static str)
        ensures
            r@ == self.group_spec(),
    {
        match self {
            AddressFamily::V4 => "224.0.0.26",
            AddressFamily::V6 => "FF02::300",
        }
    }

    /// Socket address (`host:port`) that the discovery socket binds.
    pub fn bind_address(&self) -> (r: String)
        ensures
            r@ == self.bind_host_spec() + seq![':'] + decimal(DISCOVERY_PORT as nat),
    {
        let mut r = match self {
            AddressFamily::V4 => String::from_str("0.0.0.0"),
            AddressFamily::V6 => String::from_str("[::1]"),
        };
        r.append(":");
        proof {
            reveal_strlit(":");
        }
        push_decimal(&mut r, DISCOVERY_PORT);
        assert(r@ =~= self.bind_host_spec() + seq![':'] + decimal(DISCOVERY_PORT as nat));
        r
    }

    /// Socket address that announcements are sent to: the group and the
    /// discovery port, with an IPv6 group in brackets.
    pub fn announce_address(&self) -> (r: String)
        ensures
            r@ == (match self {
                AddressFamily::V4 => self.group_spec(),
                AddressFamily::V6 => seq!['['] + self.group_spec() + seq![']'],
            }) + seq![':'] + decimal(DISCOVERY_PORT as nat),
    {
        proof {
            reveal_strlit("[");
            reveal_strlit("]");
            reveal_strlit(":");
        }
        let mut r = String::new();
        match self {
            AddressFamily::V4 => {
                r.append(self.multicast_group());
            },
            AddressFamily::V6 => {
                r.append("[");
                r.append(self.multicast_group());
                r.append("]");
            },
        }
        r.append(":");
        push_decimal(&mut r, DISCOVERY_PORT);
        assert(r@ =~= (match self {
            AddressFamily::V4 => self.group_spec(),
            AddressFamily::V6 => seq!['['] + self.group_spec() + seq![']'],
        }) + seq![':'] + decimal(DISCOVERY_PORT as nat));
        r
    }

    /// Whether the socket accepts this family only (set for IPv6).
    pub fn only_v6(&self) -> (r: bool)
        ensures
            r == (*self == AddressFamily::V6),
    {
        match self {
            AddressFamily::V4 => false,
            AddressFamily::V6 => true,
        }
    }
}

/// Two announcements with the same endpoint id leave the table as the later one
/// alone would: the record holds only the later service list, and no second
/// record for that id appears.
pub proof fn lemma_later_announcement_wins(
    table: Map<Seq<char>, PeerModel>,
    eid: Seq<char>,
    first: Seq<(Seq<char>, u16)>,
    second: Seq<(Seq<char>, u16)>,
    source: Seq<char>,
)
    ensures
        apply_announcement(apply_announcement(table, eid, first, source), eid, second, source)
            == apply_announcement(table, eid, second, source),
        apply_announcement(table, eid, second, source)[eid].cla_list == announced_options(second),
        apply_announcement(table, eid, second, source).dom() == table.dom().insert(eid),
{
    assert(apply_announcement(apply_announcement(table, eid, first, source), eid, second, source)
        =~= apply_announcement(table, eid, second, source));
}

/// Enabling a family starts its pair of loops exactly once, and a family that is
/// not enabled starts none.
pub proof fn lemma_enabled_families(v4: bool, v6: bool)
    ensures
        families_spec(v4, v6).contains(AddressFamily::V4) <==> v4,
        families_spec(v4, v6).contains(AddressFamily::V6) <==> v6,
        families_spec(v4, v6).len() == (if v4 { 1int } else { 0 }) + (if v6 { 1int } else { 0 }),
        families_spec(v4, v6).no_duplicates(),
{
    let f = families_spec(v4, v6);
    if v4 {
        assert(f[0] == AddressFamily::V4);
    }
    if v6 {
        assert(f[f.len() - 1] == AddressFamily::V6);
    }
}

} // verus!
