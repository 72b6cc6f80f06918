use std::cell::RefCell;

use dtn_discovery::cla::{
    convergency_layer_agents, is_known_name, new, try_new, ClaAgent, ClaSender, ConvergencyLayerAgent,
};

#[test]
fn lists_known_agents() {
    assert_eq!(convergency_layer_agents(), vec!["dummy", "mtcp", "http"]);
}

#[test]
fn builds_dummy() {
    let a = new("dummy");
    assert_eq!(a, ClaAgent::Dummy);
    assert_eq!(a.name(), "dummy");
    assert_eq!(a.port(), 0);
}

#[test]
fn dummy_ignores_port() {
    assert_eq!(new("dummy:4000"), ClaAgent::Dummy);
}

#[test]
fn builds_mtcp_with_port() {
    let a = new("mtcp:16161");
    assert_eq!(a, ClaAgent::Mtcp { port: Some(16161) });
    assert_eq!(a.name(), "mtcp");
    assert_eq!(a.port(), 16161);
}

#[test]
fn builds_mtcp_without_port() {
    let a = new("mtcp");
    assert_eq!(a, ClaAgent::Mtcp { port: None });
    assert_eq!(a.port(), 0);
}

#[test]
fn builds_http_with_port() {
    let a = new("http:8080");
    assert_eq!(a, ClaAgent::Http { port: Some(8080) });
    assert_eq!(a.name(), "http");
}

#[test]
fn bad_port_means_no_port() {
    assert_eq!(new("http:abc"), ClaAgent::Http { port: None });
    assert_eq!(new("mtcp:70000"), ClaAgent::Mtcp { port: None });
    assert_eq!(new("mtcp:-1"), ClaAgent::Mtcp { port: None });
    assert_eq!(new("mtcp:"), ClaAgent::Mtcp { port: None });
    assert_eq!(new("mtcp: 80"), ClaAgent::Mtcp { port: None });
}

#[test]
fn port_edge_values() {
    assert_eq!(new("mtcp:65535"), ClaAgent::Mtcp { port: Some(65535) });
    assert_eq!(new("mtcp:65536"), ClaAgent::Mtcp { port: None });
    assert_eq!(new("mtcp:0"), ClaAgent::Mtcp { port: Some(0) });
    assert_eq!(new("mtcp:+80"), ClaAgent::Mtcp { port: Some(80) });
    assert_eq!(new("mtcp:007"), ClaAgent::Mtcp { port: Some(7) });
}

#[test]
fn only_second_field_is_the_port() {
    assert_eq!(new("mtcp:80:90"), ClaAgent::Mtcp { port: Some(80) });
}

#[test]
fn unknown_name_is_refused() {
    assert_eq!(try_new("tcp"), None);
    assert_eq!(try_new("tcp:16161"), None);
    assert_eq!(try_new(""), None);
    assert_eq!(try_new(":80"), None);
    assert_eq!(try_new("dummyx"), None);
}

#[test]
fn names_are_case_sensitive() {
    assert_eq!(try_new("MTCP"), None);
    assert_eq!(try_new("Http:80"), None);
    assert!(!is_known_name("Dummy"));
    assert!(is_known_name("dummy"));
}

#[test]
fn try_new_matches_new() {
    for s in ["dummy", "mtcp", "mtcp:16161", "http:3000"] {
        let a = try_new(s).unwrap();
        assert_eq!(a, new(s));
        assert_eq!(a.name(), s.split(':').next().unwrap());
    }
}

fn sender(remote: &str, port: Option<u16>, agent: &str) -> ClaSender {
    ClaSender { remote: remote.to_string(), port, agent: agent.to_string() }
}

#[test]
fn destination_without_port() {
    assert_eq!(sender("10.0.0.5", None, "mtcp").destination(), "10.0.0.5");
}

#[test]
fn destination_with_port() {
    assert_eq!(sender("10.0.0.5", Some(16161), "mtcp").destination(), "10.0.0.5:16161");
    assert_eq!(sender("10.0.0.5", Some(0), "mtcp").destination(), "10.0.0.5:0");
    assert_eq!(sender("10.0.0.5", Some(65535), "mtcp").destination(), "10.0.0.5:65535");
    assert_eq!(sender("10.0.0.5", Some(7), "mtcp").destination(), "10.0.0.5:7");
}

#[test]
fn submission_resolves_agent_and_destination() {
    let s = sender("192.168.1.2", Some(8080), "http").submission().unwrap();
    assert_eq!(s.agent, ClaAgent::Http { port: None });
    assert_eq!(s.dest, "192.168.1.2:8080");
    let s = sender("192.168.1.2", None, "mtcp:16162").submission().unwrap();
    assert_eq!(s.agent, ClaAgent::Mtcp { port: Some(16162) });
    assert_eq!(s.dest, "192.168.1.2");
}

#[test]
fn submission_refuses_unknown_agent() {
    assert_eq!(sender("10.0.0.5", None, "udp").submission(), None);
}

#[test]
fn transfer_submits_to_resolved_agent_and_destination() {
    let seen: RefCell<Vec<(ClaAgent, String, usize)>> = RefCell::new(Vec::new());
    let ready = vec![vec![1u8, 2, 3], vec![4u8]];
    let ok = sender("10.0.0.5", Some(16161), "mtcp").transfer(&ready, |a, d, b| {
        seen.borrow_mut().push((*a, d.to_string(), b.len()));
        true
    });
    assert!(ok);
    let failed = sender("10.0.0.5", None, "http:8080").transfer(&ready, |a, d, b| {
        seen.borrow_mut().push((*a, d.to_string(), b.len()));
        false
    });
    assert!(!failed);
    assert_eq!(
        seen.into_inner(),
        vec![
            (ClaAgent::Mtcp { port: None }, "10.0.0.5:16161".to_string(), 2),
            (ClaAgent::Http { port: Some(8080) }, "10.0.0.5".to_string(), 2),
        ]
    );
}
