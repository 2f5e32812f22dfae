//! Agents on the local network: what is advertised for this agent, and the
//! record of agents seen, kept up to date from mDNS events.
use vstd::prelude::*;
use vstd::string::*;
use crate::text::{concat2, concat3, str_eq, strip_suffixes, trim_end_matches};

verus! {

/// The mDNS service type under which agents advertise.
pub open spec fn service_type_spec() -> Seq<char> {
    "_0ai._tcp.local."@
}

/// The mDNS service type under which agents advertise.
pub fn service_type() -> (r: &'static str)
    ensures
        r@ == service_type_spec(),
{
    "_0ai._tcp.local."
}

/// An agent seen on the network.
#[derive(Debug, Clone, PartialEq, Eq)]
pub struct DiscoveredAgent {
    pub name: String,
    pub host: String,
    pub ip: String,
    pub port: u16,
    pub model: Option<String>,
    pub identity: Option<String>,
}

/// The agent a resolved service stands for: named by its `agent` property
/// (else the service's full name), reached at its first address (else its
/// host name).
pub fn agent_from_service(
    fullname: &str,
    hostname: &str,
    port: u16,
    first_address: Option<String>,
    agent_property: Option<String>,
    model_property: Option<String>,
) -> (r: DiscoveredAgent)
    ensures
        r.name@ == match agent_property {
            Some(a) => a@,
            None => fullname@,
        },
        r.host@ == hostname@,
        r.ip@ == match first_address {
            Some(a) => a@,
            None => hostname@,
        },
        r.port == port,
        r.model == model_property,
        r.identity is None,
{
    let ip = match first_address {
        Some(a) => a,
        None => String::from_str(hostname),
    };
    let name = match agent_property {
        Some(a) => a,
        None => String::from_str(fullname),
    };
    DiscoveredAgent { name, host: String::from_str(hostname), ip, port, model: model_property, identity: None }
}

/// The agents seen, each under the full name of its service; each full name
/// appears once.
#[derive(Debug, Clone)]
pub struct DiscoveredAgents {
    pub entries: Vec<(String, DiscoveredAgent)>,
}

/// The entry for a service's full name, if any.
pub open spec fn lookup(entries: Seq<(String, DiscoveredAgent)>, fullname: Seq<char>) -> Option<DiscoveredAgent> {
    if exists|i: int| 0 <= i < entries.len() && entries[i].0@ == fullname {
        Some(entries[choose|i: int| 0 <= i < entries.len() && entries[i].0@ == fullname].1)
    } else {
        None
    }
}

/// The position of the entry for a full name, if any.
pub open spec fn key_position(entries: Seq<(String, DiscoveredAgent)>, fullname: Seq<char>) -> Option<int> {
    if exists|i: int| 0 <= i < entries.len() && entries[i].0@ == fullname {
        Some(choose|i: int| 0 <= i < entries.len() && entries[i].0@ == fullname)
    } else {
        None
    }
}

/// The entries once `agent` is recorded under `fullname`: its entry replaced
/// in place, or added at the end.
pub open spec fn upserted(entries: Seq<(String, DiscoveredAgent)>, fullname: String, agent: DiscoveredAgent) -> Seq<(String, DiscoveredAgent)> {
    match key_position(entries, fullname@) {
        Some(i) => entries.update(i, (fullname, agent)),
        None => entries.push((fullname, agent)),
    }
}

/// The entries without the one recorded under `fullname`.
pub open spec fn without(entries: Seq<(String, DiscoveredAgent)>, fullname: Seq<char>) -> Seq<(String, DiscoveredAgent)> {
    match key_position(entries, fullname) {
        Some(i) => entries.remove(i),
        None => entries,
    }
}

/// Each full name appears once.
pub open spec fn keys_unique(entries: Seq<(String, DiscoveredAgent)>) -> bool {
    forall|i: int, j: int| 0 <= i < j < entries.len() ==> entries[i].0@ != entries[j].0@
}

impl DiscoveredAgents {
    /// The invariant: each full name appears once.
    pub open spec fn wf(&self) -> bool {
        keys_unique(self.entries@)
    }

    /// No agents seen.
    pub fn new() -> (r: Self)
        ensures
            r.wf(),
            r.entries@.len() == 0,
    {
        DiscoveredAgents { entries: Vec::new() }
    }

    fn find(&self, fullname: &str) -> (r: Option<usize>)
        ensures
            r matches Some(i) ==> i < self.entries@.len() && self.entries@[i as int].0@ == fullname@,
            r is None ==> forall|i: int| 0 <= i < self.entries@.len() ==> self.entries@[i].0@ != fullname@,
    {
        let mut i: usize = 0;
        while i < self.entries.len()
            invariant
                i <= self.entries@.len(),
                forall|k: int| 0 <= k < i ==> self.entries@[k].0@ != fullname@,
            decreases self.entries.len() - i,
        {
            if str_eq(self.entries[i].0.as_str(), fullname) {
                return Some(i);
            }
            i = i + 1;
        }
        None
    }

    /// A service was resolved: its agent is recorded under its full name,
    /// replacing what was recorded there.
    pub fn resolved(&mut self, fullname: String, agent: DiscoveredAgent)
        requires
            old(self).wf(),
        ensures
            final(self).wf(),
            final(self).entries@ == upserted(old(self).entries@, fullname, agent),
            lookup(final(self).entries@, fullname@) == Some(agent),
            forall|n: Seq<char>| n != fullname@ ==> lookup(final(self).entries@, n) == lookup(old(self).entries@, n),
    {
        let ghost before = self.entries@;
        let ghost key = fullname@;
        match self.find(fullname.as_str()) {
            Some(i) => {
                proof {
                    let c = choose|k: int| 0 <= k < before.len() && before[k].0@ == key;
                    assert(before[i as int].0@ == key);
                    if c < i {
                        assert(before[c].0@ != before[i as int].0@);
                    } else if c > i {
                        assert(before[i as int].0@ != before[c].0@);
                    }
                }
                self.entries.set(i, (fullname, agent));
                proof {
                    let after = self.entries@;
                    assert forall|a: int, b: int| 0 <= a < b < after.len() implies after[a].0@ != after[b].0@ by {
                        if a == i {
                            assert(before[a].0@ != before[b].0@);
                        } else if b == i {
                            assert(before[a].0@ != before[b].0@);
                        }
                    }
                    let w = choose|k: int| 0 <= k < after.len() && after[k].0@ == key;
                    assert(after[i as int].0@ == key);
                    if w != i {
                        if w < i {
                            assert(after[w].0@ != after[i as int].0@);
                        } else {
                            assert(after[i as int].0@ != after[w].0@);
                        }
                    }
                    assert forall|n: Seq<char>| n != key implies lookup(after, n) == lookup(before, n) by {
                        if exists|k: int| 0 <= k < before.len() && before[k].0@ == n {
                            let k = choose|k: int| 0 <= k < before.len() && before[k].0@ == n;
                            assert(after[k].0@ == n);
                            let k2 = choose|k: int| 0 <= k < after.len() && after[k].0@ == n;
                            if k2 != k {
                                if k2 < k {
                                    assert(after[k2].0@ != after[k].0@);
                                } else {
                                    assert(after[k].0@ != after[k2].0@);
                                }
                            }
                        }
                        if exists|k: int| 0 <= k < after.len() && after[k].0@ == n {
                            let k = choose|k: int| 0 <= k < after.len() && after[k].0@ == n;
                            assert(before[k].0@ == n);
                        }
                    }
                }
            },
            None => {
                self.entries.push((fullname, agent));
                proof {
                    let after = self.entries@;
                    let last = (after.len() - 1) as int;
                    assert(after[last].0@ == key);
                    let w = choose|k: int| 0 <= k < after.len() && after[k].0@ == key;
                    assert(w == last);
                    assert forall|n: Seq<char>| n != key implies lookup(after, n) == lookup(before, n) by {
                        if exists|k: int| 0 <= k < before.len() && before[k].0@ == n {
                            let k = choose|k: int| 0 <= k < before.len() && before[k].0@ == n;
                            assert(after[k].0@ == n);
                            let k2 = choose|k: int| 0 <= k < after.len() && after[k].0@ == n;
                            if k2 != k && k2 < before.len() {
                                if k2 < k {
                                    assert(before[k2].0@ != before[k].0@);
                                } else {
                                    assert(before[k].0@ != before[k2].0@);
                                }
                            }
                        }
                        if exists|k: int| 0 <= k < after.len() && after[k].0@ == n {
                            let k = choose|k: int| 0 <= k < after.len() && after[k].0@ == n;
                            assert(k < before.len());
                            assert(before[k].0@ == n);
                        }
                    }
                }
            },
        }
    }

    /// A service went away: whatever was recorded under its full name is
    /// forgotten.
    pub fn removed(&mut self, fullname: &str)
        requires
            old(self).wf(),
        ensures
            final(self).wf(),
            final(self).entries@ == without(old(self).entries@, fullname@),
            lookup(final(self).entries@, fullname@) is None,
            forall|n: Seq<char>| n != fullname@ ==> lookup(final(self).entries@, n) == lookup(old(self).entries@, n),
    {
        let ghost before = self.entries@;
        let ghost key = fullname@;
        match self.find(fullname) {
            Some(i) => {
                proof {
                    let c = choose|k: int| 0 <= k < before.len() && before[k].0@ == key;
                    assert(before[i as int].0@ == key);
                    if c < i {
                        assert(before[c].0@ != before[i as int].0@);
                    } else if c > i {
                        assert(before[i as int].0@ != before[c].0@);
                    }
                }
                self.entries.remove(i);
                proof {
                    let after = self.entries@;
                    assert forall|a: int, b: int| 0 <= a < b < after.len() implies after[a].0@ != after[b].0@ by {
                        if a < i && b < i {
                        } else if a < i {
                            assert(before[a].0@ != before[b + 1].0@);
                        } else {
                            assert(before[a + 1].0@ != before[b + 1].0@);
                        }
                    }
                    assert forall|k: int| 0 <= k < after.len() implies after[k].0@ != key by {
                        if k < i {
                            assert(before[k].0@ != before[i as int].0@);
                        } else {
                            assert(before[i as int].0@ != before[k + 1].0@);
                        }
                    }
                    assert forall|n: Seq<char>| n != key implies lookup(after, n) == lookup(before, n) by {
                        if exists|k: int| 0 <= k < before.len() && before[k].0@ == n {
                            let k = choose|k: int| 0 <= k < before.len() && before[k].0@ == n;
                            let k1 = if k < i { k } else { k - 1 };
                            assert(k != i);
                            assert(after[k1].0@ == n);
                            let k2 = choose|k: int| 0 <= k < after.len() && after[k].0@ == n;
                            if k2 != k1 {
                                if k2 < k1 {
                                    assert(after[k2].0@ != after[k1].0@);
                                } else {
                                    assert(after[k1].0@ != after[k2].0@);
                                }
                            }
                        }
                        if exists|k: int| 0 <= k < after.len() && after[k].0@ == n {
                            let k = choose|k: int| 0 <= k < after.len() && after[k].0@ == n;
                            if k < i {
                                assert(before[k].0@ == n);
                            } else {
                                assert(before[k + 1].0@ == n);
                            }
                        }
                    }
                }
            },
            None => {},
        }
    }

    /// The agents seen, in the order first seen.
    pub fn agents(&self) -> (r: Vec<DiscoveredAgent>)
        ensures
            r@ == self.entries@.map_values(|e: (String, DiscoveredAgent)| e.1),
    {
        let mut r: Vec<DiscoveredAgent> = Vec::new();
        let mut i: usize = 0;
        while i < self.entries.len()
            invariant
                i <= self.entries@.len(),
                r@ == self.entries@.take(i as int).map_values(|e: (String, DiscoveredAgent)| e.1),
            decreases self.entries.len() - i,
        {
            let a = self.entries[i].1.duplicate();
            r.push(a);
            proof {
                assert(self.entries@.take(i + 1) =~= self.entries@.take(i as int).push(self.entries@[i as int]));
                assert(r@ =~= self.entries@.take(i + 1).map_values(|e: (String, DiscoveredAgent)| e.1));
            }
            i = i + 1;
        }
        assert(self.entries@.take(i as int) =~= self.entries@);
        r
    }
}

impl DiscoveredAgent {
    /// A copy of the agent.
    pub fn duplicate(&self) -> (r: DiscoveredAgent)
        ensures
            r == *self,
    {
        DiscoveredAgent {
            name: self.name.clone(),
            host: self.host.clone(),
            ip: self.ip.clone(),
            port: self.port,
            model: match &self.model {
                Some(m) => Some(m.clone()),
                None => None,
            },
            identity: match &self.identity {
                Some(m) => Some(m.clone()),
                None => None,
            },
        }
    }
}

/// What is registered to advertise this agent.
#[derive(Debug, Clone, PartialEq, Eq)]
pub struct ServiceAdvert {
    pub service_type: String,
    /// The instance name: the agent's name.
    pub instance: String,
    /// `{agent}.{service type}`.
    pub full_name: String,
    /// `{hostname}.local.`
    pub host_name: String,
    pub port: u16,
    /// `agent`, then `model` when one is active, then `version` (`0.1.0`).
    pub properties: Vec<(String, String)>,
}

/// The properties advertised, as characters.
pub open spec fn advert_properties(agent_name: Seq<char>, model: Option<Seq<char>>) -> Seq<(Seq<char>, Seq<char>)> {
    match model {
        Some(m) => seq![("agent"@, agent_name), ("model"@, m), ("version"@, "0.1.0"@)],
        None => seq![("agent"@, agent_name), ("version"@, "0.1.0"@)],
    }
}

/// The full service name of an agent: `{agent}.{service type}`.
pub open spec fn full_service_name(agent_name: Seq<char>) -> Seq<char> {
    agent_name + "."@ + service_type_spec()
}

/// The instance name unregistered for an advertised full name: the name
/// without trailing copies of the service type, then without trailing dots.
pub open spec fn unregister_name_spec(full_name: Seq<char>) -> Seq<char> {
    strip_suffixes(strip_suffixes(full_name, service_type_spec()), "."@)
}

/// What to register so that this agent is advertised on `port`, with its
/// model when one is active; `hostname` is this machine's host name.
pub fn advertisement(agent_name: &str, port: u16, model: Option<&str>, hostname: &str) -> (r: ServiceAdvert)
    ensures
        r.service_type@ == service_type_spec(),
        r.instance@ == agent_name@,
        r.full_name@ == full_service_name(agent_name@),
        r.host_name@ == hostname@ + ".local."@,
        r.port == port,
        r.properties@.map_values(|p: (String, String)| (p.0@, p.1@)) == advert_properties(
            agent_name@,
            match model {
                Some(m) => Some(m@),
                None => None,
            },
        ),
{
    let mut properties: Vec<(String, String)> = Vec::new();
    properties.push((String::from_str("agent"), String::from_str(agent_name)));
    match model {
        Some(m) => {
            properties.push((String::from_str("model"), String::from_str(m)));
        },
        None => {},
    }
    properties.push((String::from_str("version"), String::from_str("0.1.0")));
    let r = ServiceAdvert {
        service_type: String::from_str(service_type()),
        instance: String::from_str(agent_name),
        full_name: concat3(agent_name, ".", service_type()),
        host_name: concat2(hostname, ".local."),
        port,
        properties,
    };
    assert(r.properties@.map_values(|p: (String, String)| (p.0@, p.1@)) =~= advert_properties(
        agent_name@,
        match model {
            Some(m) => Some(m@),
            None => None,
        },
    ));
    r
}

/// The instance name to unregister for an advertised full name.
pub fn unregister_name(full_name: &str) -> (r: String)
    ensures
        r@ == unregister_name_spec(full_name@),
{
    let without_type = trim_end_matches(full_name, service_type());
    trim_end_matches(without_type.as_str(), ".")
}

/// What the program knows of mDNS: the agents seen, and whether this agent
/// is advertised and under which full name.
#[derive(Debug, Clone)]
pub struct MdnsDiscovery {
    pub discovered: DiscoveredAgents,
    pub advertising: bool,
    pub instance_name: Option<String>,
}

impl MdnsDiscovery {
    /// The invariant of the agents seen.
    pub open spec fn wf(&self) -> bool {
        self.discovered.wf()
    }

    /// No agents seen, not advertised.
    pub fn new() -> (r: Self)
        ensures
            r.wf(),
            r.discovered.entries@.len() == 0,
            !r.advertising,
            r.instance_name is None,
    {
        MdnsDiscovery { discovered: DiscoveredAgents::new(), advertising: false, instance_name: None }
    }

    /// Whether this agent is advertised.
    pub fn is_advertising(&self) -> (r: bool)
        ensures
            r == self.advertising,
    {
        self.advertising
    }

    /// The advertisement was registered under `full_name`.
    pub fn advertising_started(&mut self, full_name: String)
        ensures
            final(self).advertising,
            final(self).instance_name == Some(full_name),
            final(self).discovered == old(self).discovered,
    {
        self.advertising = true;
        self.instance_name = Some(full_name);
    }

    /// The instance name to unregister when stopping, if one was registered.
    pub fn to_unregister(&self) -> (r: Option<String>)
        ensures
            match self.instance_name {
                Some(f) => r matches Some(n) && n@ == unregister_name_spec(f@),
                None => r is None,
            },
    {
        match &self.instance_name {
            Some(f) => Some(unregister_name(f.as_str())),
            None => None,
        }
    }

    /// Advertising stopped (the instance, if any, was unregistered).
    pub fn stop_advertising(&mut self)
        ensures
            !final(self).advertising,
            final(self).instance_name is None,
            final(self).discovered == old(self).discovered,
    {
        self.advertising = false;
        self.instance_name = None;
    }

    /// The agents seen, in the order first seen.
    pub fn discovered_agents(&self) -> (r: Vec<DiscoveredAgent>)
        ensures
            r@ == self.discovered.entries@.map_values(|e: (String, DiscoveredAgent)| e.1),
    {
        self.discovered.agents()
    }
}

/// Stopping unregisters what starting registered: for an agent name that
/// does not end with `.` (nor with the service type and a dot), the instance
/// name taken from the advertised full name is the agent's name.
pub proof fn lemma_unregister_names_the_agent(agent: Seq<char>)
    requires
        agent.len() == 0 || agent.last() != '.',
        !service_type_spec().is_suffix_of(agent + "."@),
    ensures
        unregister_name_spec(full_service_name(agent)) == agent,
{
    reveal_strlit("_0ai._tcp.local.");
    reveal_strlit(".");
    let st = service_type_spec();
    let dot = "."@;
    assert(st.len() == 16);
    assert(dot.len() == 1);
    let full = agent + dot + st;
    assert(st.is_suffix_of(full)) by {
        assert(full.subrange(full.len() - st.len(), full.len() as int) =~= st);
    }
    assert(full.take(full.len() - st.len()) =~= agent + dot);
    assert(strip_suffixes(full, st) == strip_suffixes(agent + dot, st));
    assert(strip_suffixes(agent + dot, st) == agent + dot);
    assert(dot.is_suffix_of(agent + dot)) by {
        assert((agent + dot).subrange(agent.len() as int, agent.len() + 1int) =~= dot);
    }
    assert((agent + dot).take(agent.len() as int) =~= agent);
    assert(strip_suffixes(agent + dot, dot) == strip_suffixes(agent, dot));
    if dot.is_suffix_of(agent) {
        assert(agent[agent.len() - 1] == agent.subrange(agent.len() - 1, agent.len() as int)[0]);
    }
    assert(strip_suffixes(agent, dot) == agent);
}

} // verus!
