use forward_proxy::authority::parse_tunnel_target;
use forward_proxy::config::{Opts, DEFAULT_PORT};
use forward_proxy::dispatch::{classify_request, InboundRequest, Method, Outcome, STATUS_OK};
use forward_proxy::relay::{relay_continue, RelayChannel};
use forward_proxy::rewrite::{apply_rules, default_rules};
use forward_proxy::tunnel::{tunnel_step, TunnelAction, TunnelEvent, TunnelState};
use forward_proxy::uri::{extract_host, host_addr, UriParts};

fn absolute_uri(scheme: &str, authority: &str, path: &str, query: Option<&str>) -> UriParts {
    UriParts {
        scheme: Some(scheme.to_string()),
        authority: Some(authority.to_string()),
        path: path.to_string(),
        query: query.map(|q| q.to_string()),
    }
}

fn connect_uri(authority: &str) -> UriParts {
    UriParts {
        scheme: None,
        authority: Some(authority.to_string()),
        path: String::new(),
        query: None,
    }
}

#[test]
fn marker_host_is_rewritten() {
    // GET http://api.formswift.com/forms?x=1 becomes
    // GET https://api.formswift.com:443/forms?x=1&with_ecs=true
    let rules = default_rules();
    let req = InboundRequest {
        method: Method::Other,
        uri: absolute_uri("http", "api.formswift.com", "/forms", Some("x=1")),
    };
    match classify_request(&rules, &req) {
        Outcome::Forward(u) => {
            assert_eq!(u.scheme.as_deref(), Some("https"));
            assert_eq!(u.authority.as_deref(), Some("api.formswift.com:443"));
            assert_eq!(u.path, "/forms");
            assert_eq!(u.query.as_deref(), Some("x=1&with_ecs=true"));
        }
        _ => panic!("expected a forward outcome"),
    }
}

#[test]
fn marker_host_without_query_gets_marker_alone() {
    let rules = default_rules();
    let req = InboundRequest {
        method: Method::Other,
        uri: absolute_uri("http", "api.formswift.com", "/forms", None),
    };
    match classify_request(&rules, &req) {
        Outcome::Forward(u) => {
            assert_eq!(u.query.as_deref(), Some("with_ecs=true"));
            assert_eq!(u.path, "/forms");
        }
        _ => panic!("expected a forward outcome"),
    }
}

#[test]
fn unmatched_host_passes_through_unchanged() {
    let rules = default_rules();
    let req = InboundRequest {
        method: Method::Other,
        uri: absolute_uri("http", "example.com", "/foo", Some("a=1")),
    };
    match classify_request(&rules, &req) {
        Outcome::Forward(u) => {
            assert_eq!(u.scheme.as_deref(), Some("http"));
            assert_eq!(u.authority.as_deref(), Some("example.com"));
            assert_eq!(u.path, "/foo");
            assert_eq!(u.query.as_deref(), Some("a=1"));
        }
        _ => panic!("expected a forward outcome"),
    }
}

#[test]
fn missing_authority_passes_through_unchanged() {
    let rules = default_rules();
    let uri = UriParts {
        scheme: None,
        authority: None,
        path: "/local".to_string(),
        query: None,
    };
    let req = InboundRequest { method: Method::Other, uri };
    match classify_request(&rules, &req) {
        Outcome::Forward(u) => {
            assert!(u.scheme.is_none());
            assert!(u.authority.is_none());
            assert_eq!(u.path, "/local");
            assert!(u.query.is_none());
        }
        _ => panic!("expected a forward outcome"),
    }
}

#[test]
fn port_suffixed_marker_host_is_rewritten() {
    let rules = default_rules();
    let req = InboundRequest {
        method: Method::Other,
        uri: absolute_uri("http", "api.formswift.com:8080", "/forms", None),
    };
    match classify_request(&rules, &req) {
        Outcome::Forward(u) => {
            assert_eq!(u.authority.as_deref(), Some("api.formswift.com:443"));
            assert_eq!(u.scheme.as_deref(), Some("https"));
        }
        _ => panic!("expected a forward outcome"),
    }
}

#[test]
fn rewrite_applies_directly_too() {
    let rules = default_rules();
    let uri = absolute_uri("http", "api.formswift.com", "/p", Some("k=v"));
    let out = apply_rules(&rules, &uri);
    assert_eq!(out.query.as_deref(), Some("k=v&with_ecs=true"));
}

#[test]
fn connect_with_valid_authority_opens_tunnel() {
    // CONNECT example.com:443 resolves to host example.com, port 443.
    let rules = default_rules();
    let req = InboundRequest {
        method: Method::Connect,
        uri: connect_uri("example.com:443"),
    };
    match classify_request(&rules, &req) {
        Outcome::OpenTunnel(t) => {
            assert_eq!(t.host, "example.com");
            assert_eq!(t.port, 443);
            // the client is then answered with the empty success status
            assert_eq!(STATUS_OK, 200);
        }
        _ => panic!("expected a tunnel outcome"),
    }
}

#[test]
fn connect_with_unparsable_authority_is_rejected() {
    // CONNECT :::bad answers 400 and attempts no outbound connection.
    let rules = default_rules();
    let req = InboundRequest {
        method: Method::Connect,
        uri: connect_uri(":::bad"),
    };
    match classify_request(&rules, &req) {
        Outcome::Reject(rej) => {
            assert_eq!(rej.status, 400);
            assert_eq!(rej.message, "CONNECT must be to a socket address");
        }
        _ => panic!("expected a rejection"),
    }
}

#[test]
fn connect_without_authority_is_rejected() {
    let rules = default_rules();
    let req = InboundRequest {
        method: Method::Connect,
        uri: UriParts {
            scheme: None,
            authority: None,
            path: "/relative".to_string(),
            query: None,
        },
    };
    match classify_request(&rules, &req) {
        Outcome::Reject(rej) => assert_eq!(rej.status, 400),
        _ => panic!("expected a rejection"),
    }
}

#[test]
fn bare_hostname_without_port_is_rejected() {
    let rules = default_rules();
    let req = InboundRequest {
        method: Method::Connect,
        uri: connect_uri("example.com"),
    };
    match classify_request(&rules, &req) {
        Outcome::Reject(rej) => assert_eq!(rej.status, 400),
        _ => panic!("expected a rejection"),
    }
}

#[test]
fn authority_parsing_edge_cases() {
    assert!(parse_tunnel_target("example.com").is_none());
    assert!(parse_tunnel_target(":443").is_none());
    assert!(parse_tunnel_target("example.com:").is_none());
    assert!(parse_tunnel_target("example.com:port").is_none());
    assert!(parse_tunnel_target("example.com:65536").is_none());
    assert!(parse_tunnel_target("example.com:123456").is_none());
    assert!(parse_tunnel_target("").is_none());

    let t = parse_tunnel_target("example.com:65535").unwrap();
    assert_eq!(t.host, "example.com");
    assert_eq!(t.port, 65535);

    let t = parse_tunnel_target("example.com:0").unwrap();
    assert_eq!(t.port, 0);

    let t = parse_tunnel_target("[::1]:443").unwrap();
    assert_eq!(t.host, "[::1]");
    assert_eq!(t.port, 443);
}

#[test]
fn host_extraction_strips_only_digit_ports() {
    assert_eq!(extract_host("example.com:8080"), "example.com");
    assert_eq!(extract_host("example.com"), "example.com");
    assert_eq!(extract_host("example.com:abc"), "example.com:abc");
    assert_eq!(extract_host("[::1]:443"), "[::1]");
}

#[test]
fn host_addr_copies_the_authority() {
    let uri = connect_uri("example.com:443");
    assert_eq!(host_addr(&uri).as_deref(), Some("example.com:443"));
    let bare = UriParts {
        scheme: None,
        authority: None,
        path: String::new(),
        query: None,
    };
    assert!(host_addr(&bare).is_none());
}

#[test]
fn tunnel_drive_notifies_before_relay() {
    // A successful CONNECT drive: the success answer is emitted exactly
    // once, strictly before the relay starts.
    let mut state = TunnelState::Received;
    let events = [
        TunnelEvent::ParseOk,
        TunnelEvent::ConnectAttempted,
        TunnelEvent::ConnectSucceeded,
        TunnelEvent::SuccessDelivered,
        TunnelEvent::UpgradeComplete,
    ];
    let mut successes = 0;
    let mut relay_started = false;
    for e in events {
        let (next, action) = tunnel_step(state, e).expect("event accepted");
        if action == TunnelAction::SendSuccess {
            assert!(!relay_started);
            successes += 1;
        }
        if action == TunnelAction::StartRelay {
            assert_eq!(successes, 1);
            relay_started = true;
        }
        state = next;
    }
    assert_eq!(state, TunnelState::Upgraded);
    assert_eq!(successes, 1);
    assert!(relay_started);
}

#[test]
fn tunnel_drive_parse_failure_rejects() {
    let (state, action) = tunnel_step(TunnelState::Received, TunnelEvent::ParseFailed).unwrap();
    assert_eq!(state, TunnelState::Rejected);
    assert_eq!(action, TunnelAction::SendError);
    // Rejected is terminal: no event moves out of it.
    assert!(tunnel_step(TunnelState::Rejected, TunnelEvent::ParseOk).is_none());
    assert!(tunnel_step(TunnelState::Rejected, TunnelEvent::ConnectSucceeded).is_none());
    assert!(tunnel_step(TunnelState::Rejected, TunnelEvent::UpgradeComplete).is_none());
}

#[test]
fn tunnel_drive_connect_failure_sends_no_success() {
    let mut state = TunnelState::Received;
    let mut actions = Vec::new();
    for e in [
        TunnelEvent::ParseOk,
        TunnelEvent::ConnectAttempted,
        TunnelEvent::ConnectFailed,
    ] {
        let (next, action) = tunnel_step(state, e).expect("event accepted");
        actions.push(action);
        state = next;
    }
    assert_eq!(state, TunnelState::Rejected);
    assert!(!actions.contains(&TunnelAction::SendSuccess));
    assert!(!actions.contains(&TunnelAction::StartRelay));
    assert!(actions.contains(&TunnelAction::SendError));
}

#[test]
fn tunnel_rejects_events_out_of_order() {
    // Delivering a success before the upstream connect succeeded is a
    // protocol violation the machine refuses.
    assert!(tunnel_step(TunnelState::Received, TunnelEvent::SuccessDelivered).is_none());
    assert!(tunnel_step(TunnelState::TargetParsed, TunnelEvent::SuccessDelivered).is_none());
    assert!(tunnel_step(TunnelState::UpstreamConnecting, TunnelEvent::SuccessDelivered).is_none());
    assert!(tunnel_step(TunnelState::Upgraded, TunnelEvent::UpgradeComplete).is_none());
}

#[test]
fn relay_passes_bytes_through_in_order() {
    // Chunks written by the client appear on the upstream side
    // unmodified and in order.
    let mut client_to_upstream = RelayChannel::new();
    let first = vec![1u8, 2, 3];
    let second = vec![4u8, 5];
    let out1 = client_to_upstream.forward_chunk(&first);
    let out2 = client_to_upstream.forward_chunk(&second);
    assert_eq!(out1, first);
    assert_eq!(out2, second);
    assert_eq!(client_to_upstream.transferred, 5);
    assert!(!client_to_upstream.closed);
}

#[test]
fn relay_counts_each_direction() {
    let mut client_to_upstream = RelayChannel::new();
    let mut upstream_to_client = RelayChannel::new();
    client_to_upstream.forward_chunk(&vec![9u8; 7]);
    upstream_to_client.forward_chunk(&vec![8u8; 11]);
    assert_eq!(client_to_upstream.transferred, 7);
    assert_eq!(upstream_to_client.transferred, 11);
}

#[test]
fn relay_stops_when_either_direction_closes() {
    let mut client_to_upstream = RelayChannel::new();
    let mut upstream_to_client = RelayChannel::new();
    assert!(relay_continue(&client_to_upstream, &upstream_to_client));
    upstream_to_client.close();
    assert!(!relay_continue(&client_to_upstream, &upstream_to_client));
    client_to_upstream.close();
    assert!(!relay_continue(&client_to_upstream, &upstream_to_client));
    assert_eq!(upstream_to_client.transferred, 0);
}

#[test]
fn empty_chunk_relays_as_empty() {
    let mut channel = RelayChannel::new();
    let out = channel.forward_chunk(&Vec::new());
    assert!(out.is_empty());
    assert_eq!(channel.transferred, 0);
}

#[test]
fn connect_then_relay_round_trip() {
    // Full CONNECT flow: classification resolves the target, the drive
    // reaches the relay only after the success answer, and bytes then
    // cross unmodified in both directions.
    let rules = default_rules();
    let req = InboundRequest {
        method: Method::Connect,
        uri: connect_uri("example.com:443"),
    };
    let target = match classify_request(&rules, &req) {
        Outcome::OpenTunnel(t) => t,
        _ => panic!("expected a tunnel outcome"),
    };
    assert_eq!(target.host, "example.com");
    assert_eq!(target.port, 443);

    let mut state = TunnelState::Received;
    for e in [
        TunnelEvent::ParseOk,
        TunnelEvent::ConnectAttempted,
        TunnelEvent::ConnectSucceeded,
        TunnelEvent::SuccessDelivered,
        TunnelEvent::UpgradeComplete,
    ] {
        let (next, _) = tunnel_step(state, e).expect("event accepted");
        state = next;
    }
    assert_eq!(state, TunnelState::Upgraded);

    let mut client_to_upstream = RelayChannel::new();
    let mut upstream_to_client = RelayChannel::new();
    let request_bytes = vec![22u8, 3, 1, 0, 5];
    let reply_bytes = vec![22u8, 3, 3, 0, 2];
    assert_eq!(client_to_upstream.forward_chunk(&request_bytes), request_bytes);
    assert_eq!(upstream_to_client.forward_chunk(&reply_bytes), reply_bytes);
    assert_eq!(client_to_upstream.transferred, 5);
    assert_eq!(upstream_to_client.transferred, 5);
}

#[test]
fn default_options_use_the_default_port() {
    let opts = Opts::default();
    assert_eq!(opts.port, DEFAULT_PORT);
    assert_eq!(opts.port, 7777);
    let opts = Opts::new(8080);
    assert_eq!(opts.port, 8080);
}
