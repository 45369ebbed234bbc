use a2a_client::binding::{
    default_preference, extract_interfaces, negotiate, select_binding, select_forced, AgentCard,
    AgentInterface, SelectedBinding,
};
use a2a_client::error::ClientError;
use a2a_client::types::Binding;

fn iface(url: &str, binding: &str) -> AgentInterface {
    AgentInterface { url: url.to_string(), protocol_binding: binding.to_string(), tenant: String::new() }
}

#[test]
fn test_select_binding_prefers_jsonrpc() {
    let interfaces = vec![
        ("https://example.com/v1".to_string(), Binding::Rest),
        ("https://example.com/".to_string(), Binding::JsonRpc),
    ];
    let result = select_binding(&interfaces, &[Binding::JsonRpc, Binding::Rest]);
    assert_eq!(
        result,
        Some(SelectedBinding::JsonRpc {
            url: "https://example.com/".to_string()
        })
    );
}

#[test]
fn test_select_binding_respects_preference() {
    let interfaces = vec![
        ("https://example.com/v1".to_string(), Binding::Rest),
        ("https://example.com/".to_string(), Binding::JsonRpc),
    ];
    let result = select_binding(&interfaces, &[Binding::Rest, Binding::JsonRpc]);
    assert_eq!(
        result,
        Some(SelectedBinding::Rest {
            url: "https://example.com/v1".to_string()
        })
    );
}

#[test]
fn test_select_binding_no_match() {
    let interfaces: Vec<(String, Binding)> = vec![];
    let result = select_binding(&interfaces, &[Binding::JsonRpc]);
    assert_eq!(result, None);
}

#[test]
fn test_extract_interfaces_from_agent_card() {
    let card = AgentCard {
        supported_interfaces: vec![
            iface("https://example.com/", "JSONRPC"),
            iface("https://example.com/v1", "HTTP+JSON"),
        ],
        url: None,
        preferred_transport: None,
        additional_interfaces: vec![],
    };

    let interfaces = extract_interfaces(&card);
    assert_eq!(interfaces.len(), 2);
    assert!(
        interfaces
            .iter()
            .any(|(url, b)| url == "https://example.com/" && *b == Binding::JsonRpc)
    );
    assert!(
        interfaces
            .iter()
            .any(|(url, b)| url == "https://example.com/v1" && *b == Binding::Rest)
    );
}

#[test]
fn extract_drops_grpc_and_unknown_entries() {
    let card = AgentCard {
        supported_interfaces: vec![
            iface("grpc://a", "GRPC"),
            iface("https://b", "HTTP+JSON"),
            iface("https://c", "SOAP"),
            iface("https://d", "JSONRPC"),
        ],
        url: Some("https://legacy".to_string()),
        preferred_transport: Some("HTTP+JSON".to_string()),
        additional_interfaces: vec![iface("https://e", "JSONRPC")],
    };
    let interfaces = extract_interfaces(&card);
    assert_eq!(
        interfaces,
        vec![("https://b".to_string(), Binding::Rest), ("https://d".to_string(), Binding::JsonRpc)]
    );
}

#[test]
fn extract_falls_back_to_legacy_fields() {
    let card = AgentCard {
        supported_interfaces: vec![],
        url: Some("https://main".to_string()),
        preferred_transport: Some("HTTP+JSON".to_string()),
        additional_interfaces: vec![iface("https://x", "JSONRPC"), iface("grpc://y", "GRPC")],
    };
    let interfaces = extract_interfaces(&card);
    assert_eq!(
        interfaces,
        vec![("https://main".to_string(), Binding::Rest), ("https://x".to_string(), Binding::JsonRpc)]
    );
}

#[test]
fn extract_legacy_transport_defaults_to_jsonrpc() {
    let absent = AgentCard {
        supported_interfaces: vec![],
        url: Some("https://main".to_string()),
        preferred_transport: None,
        additional_interfaces: vec![],
    };
    assert_eq!(extract_interfaces(&absent), vec![("https://main".to_string(), Binding::JsonRpc)]);
    let grpc = AgentCard {
        supported_interfaces: vec![],
        url: Some("https://main".to_string()),
        preferred_transport: Some("GRPC".to_string()),
        additional_interfaces: vec![],
    };
    assert_eq!(extract_interfaces(&grpc), vec![("https://main".to_string(), Binding::JsonRpc)]);
    let empty = AgentCard {
        supported_interfaces: vec![],
        url: None,
        preferred_transport: None,
        additional_interfaces: vec![],
    };
    assert!(extract_interfaces(&empty).is_empty());
}

#[test]
fn select_keeps_first_of_duplicate_kinds() {
    let interfaces = vec![
        ("https://r1".to_string(), Binding::Rest),
        ("https://j1".to_string(), Binding::JsonRpc),
        ("https://j2".to_string(), Binding::JsonRpc),
    ];
    assert_eq!(
        select_binding(&interfaces, &[Binding::JsonRpc]),
        Some(SelectedBinding::JsonRpc { url: "https://j1".to_string() })
    );
}

#[test]
fn select_skips_absent_preferred_kind() {
    let interfaces = vec![("https://r1".to_string(), Binding::Rest)];
    let selected = select_binding(&interfaces, &[Binding::JsonRpc, Binding::Rest]).unwrap();
    assert_eq!(selected.binding(), Binding::Rest);
    assert_eq!(selected.url(), "https://r1");
}

#[test]
fn select_none_when_preference_excludes_all_kinds() {
    let interfaces = vec![("https://r1".to_string(), Binding::Rest)];
    assert_eq!(select_binding(&interfaces, &[Binding::JsonRpc]), None);
    assert_eq!(select_binding(&interfaces, &[]), None);
}

#[test]
fn scenario_rest_listed_first_jsonrpc_preferred() {
    let interfaces = vec![
        ("urlA".to_string(), Binding::Rest),
        ("urlB".to_string(), Binding::JsonRpc),
    ];
    assert_eq!(
        select_binding(&interfaces, &default_preference()),
        Some(SelectedBinding::JsonRpc { url: "urlB".to_string() })
    );
}

#[test]
fn scenario_empty_interfaces_fail_negotiation() {
    let interfaces: Vec<(String, Binding)> = vec![];
    assert_eq!(select_binding(&interfaces, &[Binding::JsonRpc, Binding::Rest]), None);
    assert_eq!(select_binding(&interfaces, &[Binding::Rest]), None);
    match negotiate(&interfaces, None, None) {
        Err(ClientError::NoCompatibleBinding { available }) => assert!(available.is_empty()),
        other => panic!("unexpected: {:?}", other),
    }
}

#[test]
fn forced_absent_kind_lists_present_kinds() {
    let interfaces = vec![
        ("https://r1".to_string(), Binding::Rest),
        ("https://r2".to_string(), Binding::Rest),
    ];
    match select_forced(&interfaces, Binding::JsonRpc) {
        Err(ClientError::NoCompatibleBinding { available }) => {
            assert_eq!(available, vec![Binding::Rest, Binding::Rest])
        }
        other => panic!("unexpected: {:?}", other),
    }
}

#[test]
fn forced_present_kind_ignores_preference() {
    let interfaces = vec![
        ("https://j".to_string(), Binding::JsonRpc),
        ("https://r".to_string(), Binding::Rest),
    ];
    let chosen = negotiate(&interfaces, Some(&[Binding::JsonRpc]), Some(Binding::Rest)).unwrap();
    assert_eq!(chosen, SelectedBinding::Rest { url: "https://r".to_string() });
}

#[test]
fn negotiate_uses_custom_preference() {
    let interfaces = vec![
        ("https://j".to_string(), Binding::JsonRpc),
        ("https://r".to_string(), Binding::Rest),
    ];
    let chosen = negotiate(&interfaces, Some(&[Binding::Rest]), None).unwrap();
    assert_eq!(chosen, SelectedBinding::Rest { url: "https://r".to_string() });
    let default = negotiate(&interfaces, None, None).unwrap();
    assert_eq!(default, SelectedBinding::JsonRpc { url: "https://j".to_string() });
}
