use failsafe::blob_store::MockBlobTransfer;
use failsafe::blobs::{
    blob_hash, collection_hash, collection_status, export_components, import_progress,
    imported_files, BlobHash,
};
use failsafe::codec::{
    accept_inbound, decode, encode, feature_frame_length, lan_packet_frame, lan_packet_length,
    FeatureMessage, MAX_MESSAGE_SIZE,
};
use failsafe::error::{BlobError, ShellError, TransportError};
use failsafe::ids::{DeviceId, FeatureId};
use failsafe::network::MockNetwork;
use failsafe::peers::{secret_key_from_bytes, ReverseLookup};
use failsafe::pool::ConnectionPool;
use failsafe::router::{publish_result, select_recipients, PublishError};
use failsafe::shell_host::{
    check_shell_request, default_shell, open_failed_response, relay_step, shell_args,
    terminal_type, ControlResponse, RelayAction, RelayEvent, ShellFeatureSpec,
};

fn message(from: DeviceId, to: DeviceId, payload: &[u8]) -> FeatureMessage {
    FeatureMessage {
        from,
        to,
        feature: FeatureId::from_static("clipboard"),
        payload: payload.to_vec(),
    }
}

fn same(a: &FeatureMessage, b: &FeatureMessage) -> bool {
    a.from == b.from && a.to == b.to && a.feature.as_str() == b.feature.as_str() && a.payload == b.payload
}

#[test]
fn roundtrips_feature_message() {
    let from = DeviceId::new();
    let to = DeviceId::new();
    let serialized = format!(
        "{{\"from\":\"{}\",\"to\":\"{}\",\"feature\":\"clipboard\",\"payload\":\"hello\"}}",
        from.to_text(),
        to.to_text()
    );
    let frame = encode(serialized.as_bytes()).unwrap();
    assert_eq!(&frame[..4], &(serialized.len() as u32).to_be_bytes());
    let decoded = decode(&frame).unwrap();
    assert_eq!(decoded, serialized.as_bytes());
}

#[test]
fn frame_faults() {
    match decode(&[0, 0, 1]) {
        Err(TransportError::Codec(m)) => assert_eq!(m, "frame too short"),
        other => panic!("unexpected {other:?}"),
    }
    match decode(&[0, 0, 0, 5, 1, 2]) {
        Err(TransportError::Codec(m)) => assert_eq!(m, "incomplete frame"),
        other => panic!("unexpected {other:?}"),
    }
    match decode(&[2, 0, 0, 0]) {
        Err(TransportError::Codec(m)) => assert_eq!(m, "message exceeds maximum size of 16777216 bytes"),
        other => panic!("unexpected {other:?}"),
    }
    let big = vec![0u8; MAX_MESSAGE_SIZE + 1];
    assert!(encode(&big).is_err());
    assert_eq!(decode(&[0, 0, 0, 2, 7, 8, 9]).unwrap(), vec![7, 8]);
    assert_eq!(feature_frame_length([0, 0, 1, 0]), Some(256));
    assert_eq!(feature_frame_length([1, 0, 0, 1]), None);
}

#[test]
fn inbound_messages_are_checked() {
    let local = DeviceId::new();
    let peer = DeviceId::new();
    let claimed = DeviceId::new();
    let kept = accept_inbound(message(claimed, local, b"hi"), peer, local).unwrap();
    assert_eq!(kept.from, peer);
    assert!(accept_inbound(message(peer, claimed, b"hi"), peer, local).is_none());
}

#[test]
fn lan_packets() {
    assert_eq!(lan_packet_frame(&[9, 9]).unwrap(), vec![0, 0, 0, 2, 9, 9]);
    match lan_packet_frame(&[]) {
        Err(TransportError::Codec(m)) => assert_eq!(m, "invalid lan packet size: 0"),
        other => panic!("unexpected {other:?}"),
    }
    assert_eq!(lan_packet_length([0, 0, 0, 2]).unwrap(), 2);
    match lan_packet_length([0, 1, 0, 0]) {
        Err(TransportError::Codec(m)) => assert_eq!(m, "invalid lan packet length: 65536"),
        other => panic!("unexpected {other:?}"),
    }
}

#[test]
fn paired_transports_exchange_messages() {
    let mut network = MockNetwork::new();
    let a = network.connect();
    let b = network.connect();
    let sent = message(a, b, b"hello");
    network.send(sent.clone()).unwrap();
    let received = network.try_recv(b).unwrap().unwrap();
    assert!(same(&received, &sent));
}

#[test]
fn network_supports_multiple_peers() {
    let mut network = MockNetwork::new();
    let a = network.connect();
    let b = network.connect();
    let c = network.connect();
    let sent = message(a, c, b"hello");
    network.send(sent.clone()).unwrap();
    assert!(network.try_recv(b).unwrap().is_none());
    assert!(same(&network.try_recv(c).unwrap().unwrap(), &sent));
}

#[test]
fn send_to_unknown_peer_fails() {
    let mut network = MockNetwork::new();
    let a = network.connect();
    let _b = network.connect();
    let err = network.send(message(a, DeviceId::new(), b"hello")).unwrap_err();
    assert!(matches!(err, TransportError::PeerNotFound(_)));
}

#[test]
fn messages_arrive_in_order() {
    let mut network = MockNetwork::new();
    let a = network.connect();
    let b = network.connect();
    network.send(message(a, b, b"one")).unwrap();
    network.send(message(a, b, b"two")).unwrap();
    assert_eq!(network.try_recv(b).unwrap().unwrap().payload, b"one");
    assert_eq!(network.try_recv(b).unwrap().unwrap().payload, b"two");
    assert!(network.try_recv(b).unwrap().is_none());
    assert!(matches!(network.try_recv(DeviceId::new()), Err(TransportError::Disconnected)));
    let peers = network.connected_peers(a);
    assert_eq!(peers, vec![b]);
}

#[test]
fn publishes_to_configured_connected_peer() {
    let mut network = MockNetwork::new();
    let local = network.connect();
    let peer = network.connect();
    let connected = network.connected_peers(local);
    let recipients = select_recipients(&vec![peer], &connected);
    assert_eq!(recipients, vec![peer]);
    let mut failures = Vec::new();
    for to in recipients {
        if let Err(e) = network.send(message(local, to, b"hello")) {
            failures.push((to, e));
        }
    }
    assert!(publish_result(&failures).is_ok());
    let received = network.try_recv(peer).unwrap().unwrap();
    assert_eq!(received.feature.as_str(), "clipboard");
    assert_eq!(received.payload, b"hello");
}

#[test]
fn skips_peers_with_feature_disabled() {
    let mut network = MockNetwork::new();
    let local = network.connect();
    let peer = network.connect();
    let connected = network.connected_peers(local);
    let recipients = select_recipients(&vec![], &connected);
    assert!(recipients.is_empty());
    assert!(network.try_recv(peer).unwrap().is_none());
}

#[test]
fn publish_failures_are_reported() {
    let a = DeviceId(0x1234_5678_1234_5678_1234_5678_1234_5678);
    let b = DeviceId(1);
    let offline = DeviceId(2);
    assert_eq!(select_recipients(&vec![a, offline, b], &vec![b, a]), vec![a, b]);
    let failures = vec![(a, TransportError::Disconnected), (b, TransportError::Codec("x".to_owned()))];
    match publish_result(&failures) {
        Err(PublishError::Failed(m)) => assert_eq!(
            m,
            "12345678-1234-5678-1234-567812345678: transport disconnected; 00000000-0000-0000-0000-000000000001: transport codec error: x"
        ),
        other => panic!("unexpected {other:?}"),
    }
    assert_eq!(
        TransportError::PeerNotFound(b).message(),
        "peer `00000000-0000-0000-0000-000000000001` not found"
    );
}

#[test]
fn blob_hashes() {
    let h = blob_hash(b"payload");
    assert_eq!(h.as_str(), blake3::hash(b"payload").to_hex().as_str());
    let files = vec![("a.txt".to_owned(), b"one".to_vec()), ("b.txt".to_owned(), b"two".to_vec())];
    let manifest = format!(
        "a.txt:{}|b.txt:{}",
        blake3::hash(b"one").to_hex(),
        blake3::hash(b"two").to_hex()
    );
    assert_eq!(collection_hash(&files).as_str(), blake3::hash(manifest.as_bytes()).to_hex().as_str());
    let from: BlobHash = String::from("abc").into();
    assert_eq!(from.as_str(), "abc");
}

#[test]
fn export_components_refuse_escaping_names() {
    assert_eq!(export_components("dir/file.txt").unwrap(), vec!["dir", "file.txt"]);
    assert_eq!(export_components("file").unwrap(), vec!["file"]);
    for (name, part) in [("../etc/passwd", ".."), ("a//b", ""), ("./x", "."), ("a/", ""), ("", "")] {
        match export_components(name) {
            Err(BlobError::Store(m)) => assert_eq!(m, format!("invalid path component: {part}")),
            other => panic!("unexpected {other:?} for {name}"),
        }
    }
}

#[test]
fn import_many_files_with_limited_concurrency() {
    let mut files = Vec::new();
    for index in 0..64 {
        files.push((format!("file-{index}.txt"), b"payload".to_vec()));
    }
    let mut transfer = MockBlobTransfer::new();
    let (_, imported, progress) = transfer.import_files(files, 64 * 7).expect("import many files");
    assert_eq!(imported.len(), 64);
    assert_eq!(progress.len(), 64);
    assert_eq!(progress[63].bytes_done, 64 * 7);
}

#[test]
fn import_progress_saturates() {
    let files = vec![("a".to_owned(), vec![0u8; 3]), ("b".to_owned(), vec![0u8; 4])];
    let progress = import_progress(&files, 7);
    assert_eq!(progress[0].bytes_done, 3);
    assert_eq!(progress[1].bytes_done, 7);
    assert_eq!(progress[1].current_file.as_deref(), Some("b"));
    let imported = imported_files(&files);
    assert_eq!(imported[1].name, "b");
    assert_eq!(imported[1].size, 4);
    assert_eq!(collection_status(false, false, 9), (0, 9, false));
    assert_eq!(collection_status(true, false, 9), (9, 9, true));
}

#[test]
fn mock_blob_store_roundtrips() {
    let mut store = MockBlobTransfer::new();
    let peer = DeviceId::new();
    let hash = store.store_bytes(b"hello".to_vec()).unwrap();
    assert_eq!(store.fetch_bytes(peer, &hash).unwrap(), b"hello");
    let missing = BlobHash("nope".to_owned());
    assert!(matches!(store.fetch_bytes(peer, &missing), Err(BlobError::NotFound(m)) if m == "nope"));

    let files = vec![("dir/a.txt".to_owned(), b"one".to_vec())];
    let root = store.store_files(files).unwrap();
    assert_eq!(store.collection_status(&root, 3), (3, 3, true));
    let progress = store.download_collection(peer, &root, 3).unwrap();
    assert_eq!((progress.bytes_done, progress.bytes_total), (3, 3));
    let fetched = store.fetch_collection_files(peer, &root).unwrap();
    assert_eq!(fetched, vec![("dir/a.txt".to_owned(), b"one".to_vec())]);
    assert_eq!(store.collection_files(&root).unwrap().len(), 1);
    assert!(store.download_collection(peer, &missing, 3).is_err());
    assert_eq!(store.collection_status(&missing, 3), (0, 3, false));
}

#[test]
fn reverse_lookup_resolves_endpoints() {
    let a = DeviceId(1);
    let b = DeviceId(2);
    let lookup = ReverseLookup::from_pairs(&vec![(a, "ep-a".to_owned()), (b, "ep-b".to_owned()), (b, "ep-a".to_owned())]);
    assert_eq!(lookup.resolve("ep-a").unwrap(), b);
    assert_eq!(lookup.resolve("ep-b").unwrap(), b);
    match lookup.resolve("ep-z") {
        Err(TransportError::Codec(m)) => assert_eq!(m, "unknown remote endpoint ep-z; waiting for server peer sync"),
        other => panic!("unexpected {other:?}"),
    }
    assert_eq!(secret_key_from_bytes("k", &vec![7u8; 32]).unwrap(), [7u8; 32]);
    match secret_key_from_bytes("/tmp/a.key", &vec![1, 2]) {
        Err(TransportError::Codec(m)) => assert_eq!(m, "secret key at /tmp/a.key must be 32 bytes"),
        other => panic!("unexpected {other:?}"),
    }
}

#[test]
fn shell_requests_are_checked() {
    let target = DeviceId(5);
    let shell = vec![ShellFeatureSpec::feature_id()];
    assert_eq!(ShellFeatureSpec::id(), "shell");
    assert_eq!(ShellFeatureSpec::label(), "Shell");
    match check_shell_request(&vec![], true, &vec![target], target) {
        Some(ControlResponse::Error { message: m }) => assert!(m.starts_with("shell is not enabled on this device")),
        other => panic!("unexpected {other:?}"),
    }
    match check_shell_request(&shell, false, &vec![target], target) {
        Some(ControlResponse::Error { message: m }) => assert_eq!(
            m,
            "shell is not enabled on device 00000000-0000-0000-0000-000000000005; enable it on both devices"
        ),
        other => panic!("unexpected {other:?}"),
    }
    match check_shell_request(&shell, true, &vec![], target) {
        Some(ControlResponse::Error { message: m }) => assert_eq!(
            m,
            "device 00000000-0000-0000-0000-000000000005 is offline or unreachable"
        ),
        other => panic!("unexpected {other:?}"),
    }
    assert!(check_shell_request(&shell, true, &vec![target], target).is_none());
    match open_failed_response(&TransportError::Disconnected) {
        ControlResponse::Error { message: m } => assert_eq!(m, "failed to open shell: transport disconnected"),
        other => panic!("unexpected {other:?}"),
    }
}

#[test]
fn shell_host_startup() {
    assert_eq!(shell_args("/bin/bash"), vec!["-i"]);
    assert_eq!(shell_args("/usr/bin/zsh"), vec!["-i"]);
    assert!(shell_args("/bin/sh").is_empty());
    assert_eq!(default_shell(None), "/bin/sh");
    assert_eq!(default_shell(Some("/bin/fish".to_owned())), "/bin/fish");
    assert_eq!(terminal_type(None), "xterm-256color");
    assert_eq!(ShellError::Pty("x".to_owned()).message(), "failed to open pty: x");
}

#[test]
fn relay_exits_when_pty_eof_even_if_input_channel_open() {
    let (open, action) = relay_step(true, RelayEvent::PtyClosed);
    assert!(open);
    assert!(matches!(action, RelayAction::Finish));
    let (open, action) = relay_step(true, RelayEvent::Input(vec![1, 2]));
    assert!(open);
    assert!(matches!(action, RelayAction::Write(d) if d == vec![1, 2]));
    let (open, action) = relay_step(true, RelayEvent::InputClosed);
    assert!(!open);
    assert!(matches!(action, RelayAction::Wait));
    assert!(matches!(relay_step(open, RelayEvent::PtyClosed).1, RelayAction::Finish));
}

#[test]
fn connection_pool_keeps_one_connection_per_device() {
    let a = DeviceId(1);
    let b = DeviceId(2);
    let mut pool: ConnectionPool<&str> = ConnectionPool::new();
    assert!(pool.get(a).is_none());
    pool.insert(a, "first");
    pool.insert(b, "other");
    pool.insert(a, "second");
    assert_eq!(pool.get(a), Some(&"second"));
    let mut peers = pool.connected_peers();
    peers.sort_by_key(|d| d.0);
    assert_eq!(peers, vec![a, b]);
    pool.remove(a);
    assert!(pool.get(a).is_none());
    assert_eq!(pool.connected_peers(), vec![b]);
    pool.remove(a);
    assert_eq!(pool.get(b), Some(&"other"));
}

#[test]
fn fresh_ids_are_version_four_uuids() {
    for _ in 0..16 {
        let d = DeviceId::new();
        assert_eq!(d.0 & 0xF000_C000_0000_0000_0000, 0x4000_8000_0000_0000_0000);
        let a = failsafe::ids::AccountId::new();
        assert_eq!(a.0 & 0xF000_C000_0000_0000_0000, 0x4000_8000_0000_0000_0000);
        assert_eq!(d.to_text().chars().nth(14), Some('4'));
    }
}
