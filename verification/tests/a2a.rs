use serde_json::Value;
use zeroai::a2a::discovery::{advertisement, agent_from_service, service_type, unregister_name, DiscoveredAgents, MdnsDiscovery};
use zeroai::a2a::server::{info_url, message_url, post_reply, relay_outcome, tool_call_message, A2aResponse, AgentCard};

#[test]
fn agent_card_versions_and_model_updates() {
    let mut card = AgentCard::new("desk", Some("phi4".into()), None);
    assert_eq!(card.version, "0.1.0");
    assert_eq!(card.name, "desk");
    card.update_model(Some("grok-4".into()));
    assert_eq!(card.model.as_deref(), Some("grok-4"));
}

#[test]
fn urls_and_relayed_calls() {
    assert_eq!(message_url("10.0.0.2", 8080), "http://10.0.0.2:8080/a2a/message");
    assert_eq!(info_url("host", 1), "http://host:1/a2a/info");
    let m = tool_call_message("s1", "run", Value::Bool(true));
    assert_eq!(m.message_type, "tool_call");
    assert_eq!(m.tool_name.as_deref(), Some("run"));
    assert_eq!(m.tool_input, Some(Value::Bool(true)));
    assert!(m.content.is_none());
    assert_eq!(relay_outcome(A2aResponse { content: "queued".into(), error: None }), Ok("queued".to_string()));
    assert_eq!(
        relay_outcome(A2aResponse { content: String::new(), error: Some("closed".into()) }),
        Err("Remote error: closed".to_string())
    );
    assert_eq!(post_reply(None), A2aResponse { content: "queued".into(), error: None });
    assert_eq!(post_reply(Some("full".into())), A2aResponse { content: String::new(), error: Some("full".into()) });
}

#[test]
fn discovered_agents_follow_events() {
    let mut d = DiscoveredAgents::new();
    let a = agent_from_service("desk._0ai._tcp.local.", "desk.local.", 4000, None, Some("desk".into()), None);
    assert_eq!(a.ip, "desk.local.");
    assert_eq!(a.name, "desk");
    d.resolved("desk._0ai._tcp.local.".into(), a.clone());
    let b = agent_from_service("lap._0ai._tcp.local.", "lap.local.", 4001, Some("10.0.0.9".into()), None, Some("phi4".into()));
    assert_eq!(b.name, "lap._0ai._tcp.local.");
    d.resolved("lap._0ai._tcp.local.".into(), b.clone());
    assert_eq!(d.agents(), vec![a.clone(), b.clone()]);
    let mut a2 = a.clone();
    a2.port = 5000;
    d.resolved("desk._0ai._tcp.local.".into(), a2.clone());
    assert_eq!(d.agents(), vec![a2, b.clone()]);
    d.removed("desk._0ai._tcp.local.");
    assert_eq!(d.agents(), vec![b]);
    d.removed("nobody");
    assert_eq!(d.agents().len(), 1);
}

#[test]
fn advertising_registers_and_unregisters_the_agent() {
    let ad = advertisement("desk", 4000, Some("phi4"), "box");
    assert_eq!(ad.service_type, service_type());
    assert_eq!(ad.full_name, "desk._0ai._tcp.local.");
    assert_eq!(ad.host_name, "box.local.");
    assert_eq!(
        ad.properties,
        vec![("agent".to_string(), "desk".to_string()), ("model".to_string(), "phi4".to_string()), ("version".to_string(), "0.1.0".to_string())]
    );
    assert_eq!(advertisement("desk", 1, None, "box").properties.len(), 2);
    assert_eq!(unregister_name(&ad.full_name), "desk");
    let mut adv = MdnsDiscovery::new();
    assert!(!adv.is_advertising());
    assert_eq!(adv.to_unregister(), None);
    adv.advertising_started(ad.full_name.clone());
    assert!(adv.is_advertising());
    assert_eq!(adv.to_unregister(), Some("desk".to_string()));
    adv.stop_advertising();
    assert!(!adv.is_advertising());
    assert!(adv.discovered_agents().is_empty());
}
