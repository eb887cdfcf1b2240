use yellowstone_grpc::grpc::{
    authorize, disabled, subscribe_raw_reply, ClientCommand, ClientRegistry, Code, CommandOutcome,
    CompressionEncoding, ConfigGrpc, GrpcService, ServerOption,
};
use yellowstone_grpc::message::{Message, SlotStatus};
use yellowstone_grpc::monitor::{
    is_node_healthy, run_forced_disconnection_monitor, HealthReply, HealthStep,
};
use yellowstone_grpc::preprocessed::Subscriber;
use yellowstone_grpc::simulation::Simulation;
use yellowstone_grpc::timestamp::Timestamp;
use yellowstone_grpc::user_service::{UserServiceAccessor, UserServiceInterface, AUTH_HEADER};

#[test]
fn token_must_be_the_same() {
    assert!(authorize(None, None).is_ok());
    assert!(authorize(None, Some(b"anything")).is_ok());
    assert!(authorize(Some("sécret"), Some("sécret".as_bytes())).is_ok());
    for token in [None, Some(b"".as_slice()), Some(b"secre"), Some(b"secrets")] {
        let status = authorize(Some("secret"), token).unwrap_err();
        assert_eq!(status.code, Code::Unauthenticated);
        assert_eq!(status.message, "No valid auth token");
    }
}

#[test]
fn refusals_have_their_words() {
    assert_eq!(disabled().code, Code::Unimplemented);
    assert_eq!(disabled().message, "method disabled");
    assert!(subscribe_raw_reply(true).is_ok());
    let status = subscribe_raw_reply(false).unwrap_err();
    assert_eq!(status.code, Code::Internal);
    assert_eq!(status.message, "failed to register raw client");
}

fn bare() -> ConfigGrpc {
    ConfigGrpc {
        tls: false,
        server_http2_adaptive_window: None,
        server_http2_keepalive_interval_ms: None,
        server_http2_keepalive_timeout_ms: None,
        server_initial_connection_window_size: None,
        server_initial_stream_window_size: None,
        max_decoding_message_size: 4096,
        compression_accept: Vec::new(),
        compression_send: Vec::new(),
        x_token: None,
    }
}

#[test]
fn server_is_set_up_with_what_is_given() {
    let setup = GrpcService::create(&bare());
    assert!(setup.transport_options.is_empty());
    assert_eq!(setup.x_token, None);
    assert_eq!(
        setup.service_options,
        vec![ServerOption::MaxDecodingMessageSize(4096)]
    );
    let setup = GrpcService::create(&ConfigGrpc {
        tls: true,
        server_http2_adaptive_window: Some(false),
        server_http2_keepalive_interval_ms: Some(1),
        server_http2_keepalive_timeout_ms: Some(2),
        server_initial_connection_window_size: Some(3),
        server_initial_stream_window_size: Some(4),
        max_decoding_message_size: 5,
        compression_accept: vec![CompressionEncoding::Gzip, CompressionEncoding::Zstd],
        compression_send: vec![CompressionEncoding::Zstd],
        x_token: Some("secret".to_string()),
    });
    assert_eq!(setup.x_token.as_deref(), Some("secret"));
    assert_eq!(
        setup.transport_options,
        vec![
            ServerOption::Tls,
            ServerOption::Http2AdaptiveWindow(false),
            ServerOption::Http2KeepaliveInterval(1),
            ServerOption::Http2KeepaliveTimeout(2),
            ServerOption::InitialConnectionWindowSize(3),
            ServerOption::InitialStreamWindowSize(4),
        ]
    );
    assert_eq!(
        setup.service_options,
        vec![
            ServerOption::MaxDecodingMessageSize(5),
            ServerOption::AcceptCompressed(CompressionEncoding::Gzip),
            ServerOption::AcceptCompressed(CompressionEncoding::Zstd),
            ServerOption::SendCompressed(CompressionEncoding::Zstd),
        ]
    );
}

#[test]
fn clients_are_numbered_from_zero() {
    let mut service = GrpcService::create(&bare()).service;
    assert_eq!(service.subscribe_raw(), 0);
    assert_eq!(service.subscribe_raw(), 1);
    assert_eq!(service.subscribe_raw(), 2);
}

#[test]
fn broadcast_drops_the_disconnected() {
    let mut registry: ClientRegistry<&'static str> = ClientRegistry::new();
    for (client_id, sender) in [(1, "a"), (2, "b"), (3, "c")] {
        match registry.on_command(ClientCommand::Subscribe { client_id, sender }) {
            CommandOutcome::Subscribed {
                client_id: id,
                total,
            } => {
                assert_eq!(id, client_id);
                assert_eq!(total, client_id as usize);
            }
            _ => panic!("expected a subscription"),
        }
    }
    let (message, _) = Simulation::new().next_at(Timestamp::default());
    match registry.on_command(ClientCommand::Broadcast { message }) {
        CommandOutcome::Send {
            mut client_ids, ..
        } => {
            client_ids.sort();
            assert_eq!(client_ids, vec![1, 2, 3]);
            for id in client_ids {
                let sent = registry.sender(id) != Some(&"b");
                assert_eq!(registry.on_sent(id, sent), !sent);
            }
        }
        _ => panic!("expected a broadcast"),
    }
    assert!(registry.sender(2).is_none());
    assert_eq!(registry.sender(3), Some(&"c"));
    match registry.on_command(ClientCommand::Unsubscribe { client_id: 1 }) {
        CommandOutcome::Unsubscribed { remaining, .. } => assert_eq!(remaining, 1),
        _ => panic!("expected an end"),
    }
    assert_eq!(registry.client_ids(), vec![3]);
}

#[test]
fn health_decides_on_disconnecting() {
    assert_eq!(
        is_node_healthy(HealthReply::Healthy),
        HealthStep::Known(true)
    );
    assert_eq!(
        is_node_healthy(HealthReply::NodeUnhealthy),
        HealthStep::Known(false)
    );
    assert_eq!(
        is_node_healthy(HealthReply::Failed),
        HealthStep::RetryAfter(5)
    );
    assert!(!run_forced_disconnection_monitor(true));
    assert!(run_forced_disconnection_monitor(false));
}

#[test]
fn simulated_slots_count_up() {
    let mut simulation = Simulation::new();
    let mut logged = Vec::new();
    for slot in 1000..3000 {
        assert!(simulation.has_next());
        let (message, log) = simulation.simulate_messages();
        match message {
            Message::Slot(news) => {
                assert_eq!(news.slot, slot);
                assert_eq!(news.parent, Some(slot - 1));
                assert_eq!(news.status, SlotStatus::Processed);
                assert_eq!(news.dead_error, None);
            }
            _ => panic!("expected a slot"),
        }
        if log {
            logged.push(slot + 1);
        }
    }
    assert_eq!(logged, vec![2000, 3000]);
}

#[test]
fn subscriber_asks_once_and_then_pings() {
    let mut subscriber = Subscriber::new();
    let first = subscriber.first_request();
    assert_eq!(first.ping, None);
    assert_eq!(first.transactions.len(), 1);
    let filter = first.transactions.get("").unwrap();
    assert_eq!(filter.vote, Some(false));
    assert_eq!(filter.failed, None);
    assert!(filter.account_include.is_empty());
    assert!(filter.account_exclude.is_empty());
    assert!(filter.account_required.is_empty());
    for id in 1..=3 {
        assert!(subscriber.can_ping());
        let request = subscriber.next_ping();
        assert_eq!(request.ping.unwrap().id, id);
        assert_eq!(request.transactions.len(), 0);
    }
}

#[test]
fn user_service_knows_no_key() {
    let accessor = UserServiceAccessor::new("http://localhost".to_string(), "token".to_string());
    assert_eq!(accessor.get_api_key("key".to_string()), Ok(String::new()));
    assert_eq!(AUTH_HEADER, "x-api-key");
}
