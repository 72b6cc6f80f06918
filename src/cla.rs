//! Convergence-layer agents: the registry that builds them from a selector
//! string (`name` or `name:port`) and the outbound descriptor that picks the agent
//! and the destination for a transfer.

use vstd::prelude::*;
use crate::text::{
    all_digits, decimal, find_char, find_from, lemma_decimal_digits, lemma_find_from_at,
    lemma_parse_decimal, parse_port, parse_u16, push_decimal, same_text,
};

verus! {

/// Names of the transports the registry can build, in the order they are listed.
pub open spec fn known_agent_names() -> Seq<Seq<char>> {
    seq![seq!['d', 'u', 'm', 'm', 'y'], seq!['m', 't', 'c', 'p'], seq!['h', 't', 't', 'p']]
}

/// Whether `name` is exactly one of the known transport names.
pub open spec fn is_known_agent(name: Seq<char>) -> bool {
    known_agent_names().contains(name)
}

/// The name part of a selector: everything before the first `:`.
pub open spec fn selector_name(s: Seq<char>) -> Seq<char> {
    s.subrange(0, find_from(s, ':', 0))
}

/// The port part of a selector: the text between the first and the second `:`,
/// read as a 16-bit number; absent when there is no `:` or it does not parse.
pub open spec fn selector_port(s: Seq<char>) -> Option<u16> {
    let e = find_from(s, ':', 0);
    if e < s.len() {
        parse_u16(s.subrange(e + 1, find_from(s, ':', e + 1)))
    } else {
        None
    }
}

/// A convergence-layer agent as the registry builds it.
#[derive(Debug, Clone, Copy, PartialEq, Eq, Hash)]
pub enum ClaAgent {
    /// The no-op test transport; it never listens.
    Dummy,
    /// Minimal TCP transport, with the listening port given in the selector, if any.
    Mtcp { port: Option<u16> },
    /// HTTP transport, with the listening port given in the selector, if any.
    Http { port: Option<u16> },
}

/// The agent that the selector with name `name` and port `port` stands for.
pub open spec fn agent_for(name: Seq<char>, port: Option<u16>) -> ClaAgent
    recommends
        is_known_agent(name),
{
    if name == known_agent_names()[0] {
        ClaAgent::Dummy
    } else if name == known_agent_names()[1] {
        ClaAgent::Mtcp { port }
    } else {
        ClaAgent::Http { port }
    }
}

/// The capability every convergence-layer agent offers: its name and listening port.
pub trait ConvergencyLayerAgent {
    /// The transport's name, as it appears in selectors.
    spec fn spec_name(&self) -> Seq<char>;

    /// The listening port; 0 when none was given.
    spec fn spec_port(&self) -> u16;

    fn name(&self) -> (r: &'static str)
        ensures
            r@ == self.spec_name(),
    ;

    fn port(&self) -> (r: u16)
        ensures
            r == self.spec_port(),
    ;
}

impl ConvergencyLayerAgent for ClaAgent {
    open spec fn spec_name(&self) -> Seq<char> {
        match self {
            ClaAgent::Dummy => known_agent_names()[0],
            ClaAgent::Mtcp { .. } => known_agent_names()[1],
            ClaAgent::Http { .. } => known_agent_names()[2],
        }
    }

    open spec fn spec_port(&self) -> u16 {
        match self {
            ClaAgent::Dummy => 0,
            ClaAgent::Mtcp { port } | ClaAgent::Http { port } => match port {
                Some(p) => *p,
                None => 0,
            },
        }
    }

    fn name(&self) -> (r: &'static str) {
        proof {
            reveal_strlit("dummy");
            reveal_strlit("mtcp");
            reveal_strlit("http");
        }
        match self {
            ClaAgent::Dummy => "dummy",
            ClaAgent::Mtcp { .. } => "mtcp",
            ClaAgent::Http { .. } => "http",
        }
    }

    fn port(&self) -> (r: u16) {
        match self {
            ClaAgent::Dummy => 0,
            ClaAgent::Mtcp { port } | ClaAgent::Http { port } => match port {
                Some(p) => *p,
                None => 0,
            },
        }
    }
}

/// The names of the transports the registry knows, without building any agent.
pub fn convergency_layer_agents() -> (r: Vec<&'static str>)
    ensures
        r@.map_values(|s: &str| s@) == known_agent_names(),
{
    proof {
        reveal_strlit("dummy");
        reveal_strlit("mtcp");
        reveal_strlit("http");
    }
    assert(known_agent_names()[0] =~= "dummy"@);
    assert(known_agent_names()[1] =~= "mtcp"@);
    assert(known_agent_names()[2] =~= "http"@);
    let r = vec!["dummy", "mtcp", "http"];
    assert(r@.map_values(|s: &str| s@) =~= known_agent_names());
    r
}

/// Splits a selector into its name and the text of its port field, if any.
fn split_selector(cla_str: &str) -> (r: (&str, Option<&str>))
    ensures
        r.0@ == selector_name(cla_str@),
        find_from(cla_str@, ':', 0) < cla_str@.len() <==> r.1.is_some(),
        r.1.is_some() ==> ({
            let e = find_from(cla_str@, ':', 0);
            r.1.unwrap()@ == cla_str@.subrange(e + 1, find_from(cla_str@, ':', e + 1))
        }),
{
    let n = cla_str.unicode_len();
    let e = find_char(cla_str, ':', 0);
    let name = cla_str.substring_char(0, e);
    if e < n {
        let f = find_char(cla_str, ':', e + 1);
        (name, Some(cla_str.substring_char(e + 1, f)))
    } else {
        (name, None)
    }
}

/// Parses the port field of a selector.
fn selector_port_of(cla_str: &str) -> (r: Option<u16>)
    ensures
        r == selector_port(cla_str@),
{
    match split_selector(cla_str).1 {
        Some(p) => parse_port(p),
        None => None,
    }
}

/// Whether `name` is one of the known transport names.
pub fn is_known_name(name: &str) -> (r: bool)
    ensures
        r == is_known_agent(name@),
{
    proof {
        reveal_strlit("dummy");
        reveal_strlit("mtcp");
        reveal_strlit("http");
        assert(known_agent_names()[0] =~= "dummy"@);
        assert(known_agent_names()[1] =~= "mtcp"@);
        assert(known_agent_names()[2] =~= "http"@);
    }
    let r = same_text(name, "dummy") || same_text(name, "mtcp") || same_text(name, "http");
    proof {
        if known_agent_names().contains(name@) {
            let i = choose|i: int| 0 <= i < 3 && known_agent_names()[i] == name@;
        }
    }
    r
}

/// Builds the agent that `cla_str` selects (`"dummy"`, `"mtcp"`, `"mtcp:16161"`).
/// The name must be one of the known transports; it is matched exactly.
pub fn new(cla_str: &str) -> (r: ClaAgent)
    requires
        is_known_agent(selector_name(cla_str@)),
    ensures
        r == agent_for(selector_name(cla_str@), selector_port(cla_str@)),
        r.spec_name() == selector_name(cla_str@),
{
    let name = split_selector(cla_str).0;
    let port = selector_port_of(cla_str);
    proof {
        reveal_strlit("dummy");
        reveal_strlit("mtcp");
        assert(known_agent_names()[0] =~= "dummy"@);
        assert(known_agent_names()[1] =~= "mtcp"@);
        let i = choose|i: int| 0 <= i < 3 && known_agent_names()[i] == name@;
    }
    if same_text(name, "dummy") {
        ClaAgent::Dummy
    } else if same_text(name, "mtcp") {
        ClaAgent::Mtcp { port }
    } else {
        ClaAgent::Http { port }
    }
}

/// Builds the agent that `cla_str` selects, or gives `None` when its name is not
/// one of the known transports: an unknown name never falls back to a default.
pub fn try_new(cla_str: &str) -> (r: Option<ClaAgent>)
    ensures
        r.is_none() <==> !is_known_agent(selector_name(cla_str@)),
        r.is_some() ==> r.unwrap() == agent_for(selector_name(cla_str@), selector_port(cla_str@)),
        r.is_some() ==> r.unwrap().spec_name() == selector_name(cla_str@),
{
    if is_known_name(split_selector(cla_str).0) {
        Some(new(cla_str))
    } else {
        None
    }
}

/// The destination address for a transfer: the remote address alone when no
/// port is set, else `remote:port`.
pub open spec fn destination_of(remote: Seq<char>, port: Option<u16>) -> Seq<char> {
    match port {
        None => remote,
        Some(p) => remote + seq![':'] + decimal(p as nat),
    }
}

/// "Send to this remote address through this transport": built fresh for each
/// send decision and never stored.
#[derive(Debug, PartialEq, Eq, Hash, Clone)]
pub struct ClaSender {
    /// The remote node's address in text form.
    pub remote: String,
    /// The remote port, if the transport needs one.
    pub port: Option<u16>,
    /// Selector of the transport to use.
    pub agent: String,
}

/// What a transfer submits: the agent to send through and the destination address.
#[derive(Debug, PartialEq, Eq, Hash, Clone)]
pub struct Submission {
    pub agent: ClaAgent,
    pub dest: String,
}

impl ClaSender {
    /// The destination address of this descriptor.
    pub fn destination(&self) -> (r: String)
        ensures
            r@ == destination_of(self.remote@, self.port),
    {
        let mut dest = self.remote.clone();
        match self.port {
            Some(p) => {
                dest.append(":");
                proof {
                    reveal_strlit(":");
                }
                push_decimal(&mut dest, p);
                assert(dest@ =~= self.remote@ + seq![':'] + decimal(p as nat));
            },
            None => {},
        }
        dest
    }

    /// Resolves the agent through the registry, afresh on each call, and the
    /// destination of a transfer; `None` when the transport name is unknown.
    pub fn submission(&self) -> (r: Option<Submission>)
        ensures
            r.is_none() <==> !is_known_agent(selector_name(self.agent@)),
            r.is_some() ==> r.unwrap().agent == agent_for(
                selector_name(self.agent@),
                selector_port(self.agent@),
            ),
            r.is_some() ==> r.unwrap().dest@ == destination_of(self.remote@, self.port),
    {
        match try_new(self.agent.as_str()) {
            Some(agent) => Some(Submission { agent, dest: self.destination() }),
            None => None,
        }
    }

    /// Submits `ready` through the agent that this descriptor names, resolved
    /// afresh, at its destination, and returns what `submit` (the agent's
    /// submission capability) reported, unchanged and without retry.
    pub fn transfer<F>(&self, ready: &[Vec<u8>], submit: F) -> (r: bool) where
        F: Fn(&ClaAgent, &str, &[Vec<u8>]) -> bool,

        requires
            is_known_agent(selector_name(self.agent@)),
            forall|a: &ClaAgent, d: &str| #[trigger] submit.requires((a, d, ready)),
        ensures
            exists|a: &ClaAgent, d: &str|
                *a == agent_for(selector_name(self.agent@), selector_port(self.agent@)) && d@
                    == destination_of(self.remote@, self.port) && #[trigger] submit.ensures(
                    (a, d, ready),
                    r,
                ),
    {
        let agent = new(self.agent.as_str());
        let dest = self.destination();
        let d = dest.as_str();
        let r = submit(&agent, d, ready);
        assert(submit.ensures((&agent, d, ready), r));
        r
    }
}

/// The selector `name`, or `name:port` when a port is given.
pub open spec fn selector_text(name: Seq<char>, port: Option<u16>) -> Seq<char> {
    match port {
        None => name,
        Some(p) => name + seq![':'] + decimal(p as nat),
    }
}

/// Every selector made of a known transport name, with or without a port, is
/// accepted by the registry, and the agent built from it reports that name and
/// carries that port.
pub proof fn lemma_known_selector_builds_named_agent(name: Seq<char>, port: Option<u16>)
    requires
        is_known_agent(name),
    ensures
        selector_name(selector_text(name, port)) == name,
        selector_port(selector_text(name, port)) == port,
        is_known_agent(selector_name(selector_text(name, port))),
        agent_for(name, port).spec_name() == name,
        agent_for(name, port) != ClaAgent::Dummy ==> agent_for(name, port).spec_port() == match port {
            Some(p) => p,
            None => 0u16,
        },
{
    let s = selector_text(name, port);
    let i = choose|i: int| 0 <= i < known_agent_names().len() && known_agent_names()[i] == name;
    assert(forall|j: int| 0 <= j < name.len() ==> name[j] != ':') by {
        assert(i == 0 || i == 1 || i == 2);
    }
    assert(known_agent_names()[0] != known_agent_names()[1]);
    assert(known_agent_names()[0] != known_agent_names()[2]);
    assert(known_agent_names()[1] != known_agent_names()[2]);
    match port {
        None => {
            lemma_find_from_at(s, ':', 0, s.len() as int);
            assert(s.subrange(0, s.len() as int) =~= s);
        },
        Some(p) => {
            let e = name.len() as int;
            let d = decimal(p as nat);
            assert forall|j: int| 0 <= j < e implies s[j] != ':' by {
                assert(s[j] == name[j]);
            }
            lemma_find_from_at(s, ':', 0, e);
            assert(s.subrange(0, e) =~= name);
            lemma_decimal_digits(p as nat);
            assert forall|j: int| e + 1 <= j < s.len() implies s[j] != ':' by {
                assert(s[j] == d[j - e - 1]);
                assert(all_digits(d));
            }
            lemma_find_from_at(s, ':', e + 1, s.len() as int);
            assert(s.subrange(e + 1, s.len() as int) =~= d);
            lemma_parse_decimal(p);
        },
    }
}

} // verus!
