use dtn_discovery::cla::ClaAgent;
use dtn_discovery::discovery::{
    announcement, enabled_families, peer_from_announcement, receive, AddressFamily, AnnouncementPkt,
    RoutingNotification, DISCOVERY_PORT, RECEIVE_BUFFER_LEN,
};
use dtn_discovery::peers::{PeerRecord, PeerTable, PeerType};

fn pkt(eid: &str, cl: &[(&str, u16)]) -> AnnouncementPkt {
    AnnouncementPkt {
        eid: eid.to_string(),
        cl: cl.iter().map(|(s, p)| (s.to_string(), *p)).collect(),
    }
}

#[test]
fn announcement_lists_agents_in_order() {
    let agents = vec![ClaAgent::Mtcp { port: Some(16161) }, ClaAgent::Http { port: Some(8080) }];
    let p = announcement("dtn://node1/", &agents);
    assert_eq!(p, pkt("dtn://node1/", &[("mtcp", 16161), ("http", 8080)]));
}

#[test]
fn announcement_keeps_duplicates_and_unset_ports() {
    let agents = vec![ClaAgent::Dummy, ClaAgent::Mtcp { port: None }, ClaAgent::Dummy];
    let p = announcement("dtn://n/", &agents);
    assert_eq!(p.cl, vec![("dummy".to_string(), 0), ("mtcp".to_string(), 0), ("dummy".to_string(), 0)]);
}

#[test]
fn announcement_without_agents() {
    let agents: Vec<ClaAgent> = Vec::new();
    assert_eq!(announcement("dtn://n/", &agents), pkt("dtn://n/", &[]));
}

#[test]
fn peer_record_from_announcement() {
    let r = peer_from_announcement(&pkt("dtn://node2/", &[("mtcp", 16161), ("mtcp", 16161)]), "10.0.0.7");
    assert_eq!(
        r,
        PeerRecord {
            eid: "dtn://node2/".to_string(),
            addr: "10.0.0.7".to_string(),
            con_type: PeerType::Dynamic,
            cla_list: vec![("mtcp".to_string(), Some(16161)), ("mtcp".to_string(), Some(16161))],
        }
    );
}

#[test]
fn undecodable_datagram_changes_nothing() {
    let mut t = PeerTable::new();
    assert_eq!(receive(&mut t, None, "10.0.0.1"), None);
    assert_eq!(t.len(), 0);
    let n = receive(&mut t, Some(pkt("dtn://a/", &[("http", 80)])), "10.0.0.1");
    assert_eq!(n, Some(RoutingNotification::EncounteredPeer("dtn://a/".to_string())));
    assert_eq!(receive(&mut t, None, "10.0.0.1"), None);
    assert_eq!(t.len(), 1);
    assert_eq!(t.get("dtn://a/").unwrap().cla_list, vec![("http".to_string(), Some(80))]);
}

#[test]
fn receive_inserts_dynamic_peer_and_notifies() {
    let mut t = PeerTable::new();
    let n = receive(&mut t, Some(pkt("dtn://b/", &[("mtcp", 16161), ("http", 8080)])), "192.168.0.9");
    assert_eq!(n, Some(RoutingNotification::EncounteredPeer("dtn://b/".to_string())));
    let r = t.get("dtn://b/").unwrap();
    assert_eq!(r.addr, "192.168.0.9");
    assert_eq!(r.con_type, PeerType::Dynamic);
    assert_eq!(r.cla_list, vec![("mtcp".to_string(), Some(16161)), ("http".to_string(), Some(8080))]);
    assert!(t.get("dtn://c/").is_none());
}

#[test]
fn later_announcement_replaces_services() {
    let mut t = PeerTable::new();
    receive(&mut t, Some(pkt("dtn://c/", &[("mtcp", 16161)])), "10.1.1.1");
    receive(&mut t, Some(pkt("dtn://c/", &[("http", 8080)])), "10.1.1.1");
    assert_eq!(t.len(), 1);
    assert_eq!(t.get("dtn://c/").unwrap().cla_list, vec![("http".to_string(), Some(8080))]);
}

#[test]
fn distinct_peers_are_kept_apart() {
    let mut t = PeerTable::new();
    receive(&mut t, Some(pkt("dtn://d/", &[("mtcp", 1)])), "10.0.0.1");
    receive(&mut t, Some(pkt("dtn://e/", &[("mtcp", 2)])), "10.0.0.2");
    receive(&mut t, Some(pkt("dtn://d/", &[("mtcp", 3)])), "10.0.0.3");
    assert_eq!(t.len(), 2);
    assert_eq!(t.get("dtn://d/").unwrap().addr, "10.0.0.3");
    assert_eq!(t.get("dtn://e/").unwrap().cla_list, vec![("mtcp".to_string(), Some(2))]);
}

#[test]
fn one_notification_per_decoded_announcement() {
    let mut t = PeerTable::new();
    let datagrams = vec![
        Some(pkt("dtn://a/", &[])),
        None,
        Some(pkt("dtn://a/", &[("mtcp", 9)])),
        None,
        Some(pkt("dtn://b/", &[])),
    ];
    let mut count = 0;
    for d in datagrams {
        if receive(&mut t, d, "10.0.0.1").is_some() {
            count += 1;
        }
    }
    assert_eq!(count, 3);
}

#[test]
fn ipv4_only_starts_ipv4() {
    assert_eq!(enabled_families(true, false), vec![AddressFamily::V4]);
}

#[test]
fn ipv6_only_starts_ipv6() {
    assert_eq!(enabled_families(false, true), vec![AddressFamily::V6]);
}

#[test]
fn both_and_neither_family() {
    assert_eq!(enabled_families(true, true), vec![AddressFamily::V4, AddressFamily::V6]);
    assert_eq!(enabled_families(false, false), vec![]);
}

#[test]
fn family_addresses() {
    assert_eq!(AddressFamily::V4.multicast_group(), "224.0.0.26");
    assert_eq!(AddressFamily::V6.multicast_group(), "FF02::300");
    assert_eq!(AddressFamily::V4.bind_address(), "0.0.0.0:3003");
    assert_eq!(AddressFamily::V6.bind_address(), "[::1]:3003");
    assert_eq!(AddressFamily::V4.announce_address(), "224.0.0.26:3003");
    assert_eq!(AddressFamily::V6.announce_address(), "[FF02::300]:3003");
    assert!(!AddressFamily::V4.only_v6());
    assert!(AddressFamily::V6.only_v6());
    assert_eq!(DISCOVERY_PORT, 3003);
    assert_eq!(RECEIVE_BUFFER_LEN, 1024);
}
