use takumi_proxy::codec::MinecraftCodec;
use takumi_proxy::handshake::HandshakeHandler;
use takumi_proxy::ident::derive_offline_uuid;
use takumi_proxy::login::{LoginDecision, LoginSession, LoginStage, parse_login_start};
use takumi_proxy::packet::{Packet, State};
use takumi_proxy::packets;
use takumi_proxy::registry::{ConnectedPlayer, PlayerRegistry};
use takumi_proxy::status::{handle_status_ping, handle_status_request};
use takumi_proxy::varint::{read_varlong, write_varint, write_varlong};
use takumi_proxy::wire::{read_byte_array, write_string};
use takumi_proxy::{BackendServer, ProtocolError, TakumiConfig};

fn player(name: &str) -> ConnectedPlayer {
    let (tx, _rx) = tokio::sync::mpsc::channel(4);
    ConnectedPlayer::new(
        derive_offline_uuid(name),
        name.to_string(),
        "127.0.0.1:49000".to_string(),
        tx,
    )
}

fn login_start_packet(name: &str) -> Packet {
    let mut d = Vec::new();
    write_string(&mut d, name);
    Packet::new(packets::SB_LOGIN_START, d)
}

#[test]
fn directory_add_remove_get_count() {
    let mut reg = PlayerRegistry::new();
    assert_eq!(reg.count(), 0);
    reg.add(player("Alpha"));
    reg.add(player("Beta"));
    reg.add(player("Gamma"));
    assert_eq!(reg.count(), 3);

    let beta = derive_offline_uuid("Beta");
    let removed = reg.remove(&beta).expect("Beta was present");
    assert_eq!(removed.username, "Beta");
    assert_eq!(reg.count(), 2);
    assert!(reg.get(&beta).is_none());
    assert!(reg.get(&derive_offline_uuid("Alpha")).is_some());
    assert!(reg.remove(&beta).is_none());
}

#[test]
fn directory_readd_replaces_entry() {
    let mut reg = PlayerRegistry::new();
    reg.add(player("Alpha"));
    // same identifier, different connection details
    let (tx, _rx) = tokio::sync::mpsc::channel(4);
    let again = ConnectedPlayer::new(
        derive_offline_uuid("Alpha"),
        "Alpha".to_string(),
        "10.0.0.9:5000".to_string(),
        tx,
    );
    reg.add(again);
    assert_eq!(reg.count(), 1, "re-adding must replace, not duplicate");
    let got = reg.get(&derive_offline_uuid("Alpha")).unwrap();
    assert_eq!(got.remote_addr, "10.0.0.9:5000");
}

#[test]
fn identity_is_a_pure_function_of_the_name() {
    let a = derive_offline_uuid("Steve");
    let b = derive_offline_uuid("Steve");
    assert_eq!(a, b);
    assert_ne!(a, derive_offline_uuid("Alex"));

    // the derivation matches the name-based (v5) identifier over the DNS
    // namespace for the prefixed name
    let expected = uuid::Uuid::new_v5(
        &uuid::Uuid::NAMESPACE_DNS,
        format!("OnlinePlayer:{}", "Steve").as_bytes(),
    );
    let bits = expected.as_u128();
    assert_eq!(a.hi, (bits >> 64) as u64);
    assert_eq!(a.lo, bits as u64);
}

#[test]
fn status_response_reports_live_count() {
    let mut reg = PlayerRegistry::new();
    reg.add(player("Steve"));
    reg.add(player("Alex"));
    let request = Packet::new(packets::SB_STATUS_REQUEST, Vec::new());
    let response = handle_status_request(&request, 20, "say \"hi\"", &reg)
        .unwrap()
        .expect("a status request gets a response");
    assert_eq!(response.id, packets::CB_STATUS_RESPONSE);

    let (doc, end) = read_byte_array(&response.data, 0).unwrap();
    assert_eq!(end, response.data.len());
    let v: serde_json::Value = serde_json::from_slice(&doc).expect("the document is valid JSON");
    assert_eq!(v["players"]["online"], serde_json::Value::from(2u64));
    assert_eq!(v["players"]["max"], serde_json::Value::from(20u64));
    assert_eq!(v["version"]["protocol"], serde_json::Value::from(774u64));
    assert_eq!(v["description"]["text"].as_str().unwrap(), "say \"hi\"");
    assert_eq!(v["enforcesSecureChat"], serde_json::Value::from(false));
    let names: Vec<&str> = v["players"]["list"]
        .as_array()
        .unwrap()
        .iter()
        .map(|e| e["name"].as_str().unwrap())
        .collect();
    assert_eq!(names, vec!["Steve", "Alex"]);
    let first_id = v["players"]["list"][0]["id"].as_str().unwrap().to_string();
    assert_eq!(
        first_id.as_bytes().to_vec(),
        derive_offline_uuid("Steve").hyphenated()
    );
}

#[test]
fn status_ignores_unexpected_first_packet() {
    let reg = PlayerRegistry::new();
    let p = Packet::new(9, Vec::new());
    assert!(handle_status_request(&p, 10, "motd", &reg).unwrap().is_none());
}

#[test]
fn ping_payload_is_echoed() {
    let mut d = Vec::new();
    write_varlong(&mut d, 123456789123);
    let pong = handle_status_ping(&Packet::new(packets::SB_STATUS_PING, d))
        .unwrap()
        .expect("a ping gets a pong");
    assert_eq!(pong.id, packets::CB_STATUS_PONG);
    assert_eq!(read_varlong(&pong.data, 0), Ok((123456789123, pong.data.len())));

    // any other id ends the exchange quietly
    let other = Packet::new(7, Vec::new());
    assert!(handle_status_ping(&other).unwrap().is_none());
}

#[test]
fn end_to_end_status_exchange() {
    // client side: handshake(next_state=1) and a status request, framed
    let client = MinecraftCodec::new();
    let mut hs = Vec::new();
    write_varint(&mut hs, 774);
    write_string(&mut hs, "proxy.local");
    hs.push(0x63);
    hs.push(0xdd);
    write_varint(&mut hs, 1);
    let mut wire = Vec::new();
    client.encode(Packet::new(0, hs), &mut wire).unwrap();
    client
        .encode(Packet::new(packets::SB_STATUS_REQUEST, Vec::new()), &mut wire)
        .unwrap();

    // server side: decode the handshake, resolve it, serve the request
    let server = MinecraftCodec::new();
    let mut reg = PlayerRegistry::new();
    reg.add(player("Steve"));
    let first = server.decode(&mut wire).unwrap().unwrap();
    let state = HandshakeHandler::handle(&first).unwrap();
    assert_eq!(state, State::Status);
    let second = server.decode(&mut wire).unwrap().unwrap();
    let response = handle_status_request(&second, 32, "welcome", &reg)
        .unwrap()
        .unwrap();
    let mut back = Vec::new();
    server.encode(response, &mut back).unwrap();

    // client side again: the response decodes and reports one player online
    let got = client.decode(&mut back).unwrap().unwrap();
    assert_eq!(got.id, packets::CB_STATUS_RESPONSE);
    let (doc, _) = read_byte_array(&got.data, 0).unwrap();
    let v: serde_json::Value = serde_json::from_slice(&doc).unwrap();
    assert_eq!(v["players"]["online"], serde_json::Value::from(1u64));
}

#[test]
fn login_below_capacity_succeeds_then_requires_ack() {
    let mut session = LoginSession::new();
    assert_eq!(session.stage(), LoginStage::AwaitStart);
    let decision = session
        .on_start(&login_start_packet("Steve"), 3, 10)
        .unwrap();
    let (success, uuid) = match decision {
        LoginDecision::Accept(p, u) => (p, u),
        LoginDecision::Reject(_) => panic!("below capacity must not reject"),
    };
    assert_eq!(success.id, packets::CB_LOGIN_SUCCESS);
    assert_eq!(uuid, derive_offline_uuid("Steve"));
    assert_eq!(session.stage(), LoginStage::AwaitAck);

    let ack = Packet::new(packets::SB_LOGIN_ACK, Vec::new());
    session.on_ack(&ack).unwrap();
    assert_eq!(session.stage(), LoginStage::Complete);
}

#[test]
fn login_at_capacity_disconnects_without_success() {
    let mut session = LoginSession::new();
    let decision = session
        .on_start(&login_start_packet("Steve"), 10, 10)
        .unwrap();
    let reject = match decision {
        LoginDecision::Reject(p) => p,
        LoginDecision::Accept(..) => panic!("at capacity must reject"),
    };
    assert_eq!(reject.id, packets::CB_LOGIN_DISCONNECT);
    let (doc, _) = read_byte_array(&reject.data, 0).unwrap();
    assert_eq!(doc, b"{\"text\":\"Server is full\"}".to_vec());
    assert_eq!(session.stage(), LoginStage::Rejected);
}

#[test]
fn login_non_ack_after_success_is_fatal() {
    let mut session = LoginSession::new();
    session
        .on_start(&login_start_packet("Steve"), 0, 10)
        .unwrap();
    let wrong = Packet::new(packets::SB_LOGIN_START, Vec::new());
    assert_eq!(
        session.on_ack(&wrong),
        Err(ProtocolError::UnexpectedPacket { expected: 3, actual: 0 })
    );
    assert_eq!(session.stage(), LoginStage::AwaitAck);
}

#[test]
fn login_start_parses_optional_uuid_hint() {
    // bare username
    let q = parse_login_start(&login_start_packet("Alex")).unwrap();
    assert_eq!(q.username, "Alex");
    assert!(q.uuid_hint.is_none());

    // username, flag set, 16 identifier bytes
    let mut d = Vec::new();
    write_string(&mut d, "Alex");
    d.push(1);
    let hint = derive_offline_uuid("Alex");
    takumi_proxy::ident::write_uuid(&mut d, &hint);
    let q = parse_login_start(&Packet::new(packets::SB_LOGIN_START, d)).unwrap();
    assert_eq!(q.uuid_hint, Some(hint));

    // flag set but too few bytes: the hint is absent, not an error
    let mut d = Vec::new();
    write_string(&mut d, "Alex");
    d.push(1);
    d.push(9);
    let q = parse_login_start(&Packet::new(packets::SB_LOGIN_START, d)).unwrap();
    assert!(q.uuid_hint.is_none());
}

#[test]
fn login_start_with_wrong_id_is_fatal() {
    let p = Packet::new(packets::SB_LOGIN_ENCRYPTION_RESPONSE, Vec::new());
    assert!(matches!(
        parse_login_start(&p),
        Err(ProtocolError::UnexpectedPacket { expected: 0, actual: 1 })
    ));
}

#[test]
fn builder_payloads() {
    let p = packets::build_set_compression(256);
    assert_eq!(p.id, packets::CB_LOGIN_SET_COMPRESSION);
    assert_eq!(p.data, vec![0x80, 0x02]);

    let u = derive_offline_uuid("Steve");
    let p = packets::build_login_success(&u, "Steve");
    let mut expected = Vec::new();
    takumi_proxy::ident::write_uuid(&mut expected, &u);
    write_string(&mut expected, "Steve");
    write_varint(&mut expected, 0);
    assert_eq!(p.data, expected);

    let p = packets::build_encryption_request("srv", &vec![1, 2], &vec![3]);
    assert_eq!(p.id, packets::CB_LOGIN_ENCRYPTION_REQUEST);
    assert_eq!(p.data, vec![3, 0x73, 0x72, 0x76, 2, 1, 2, 1, 3]);

    let p = packets::build_login_plugin_request(7, "ch", &vec![0xaa]);
    assert_eq!(p.id, packets::CB_LOGIN_PLUGIN_REQUEST);
    assert_eq!(p.data, vec![7, 2, 0x63, 0x68, 0xaa]);

    let p = packets::build_play_disconnect("bye");
    assert_eq!(p.id, packets::CB_PLAY_DISCONNECT);
    let (doc, _) = read_byte_array(&p.data, 0).unwrap();
    assert_eq!(doc, b"{\"text\":\"bye\"}".to_vec());
}

#[test]
fn config_defaults() {
    let c = TakumiConfig::default();
    assert_eq!(c.proxy.bind, "0.0.0.0");
    assert_eq!(c.proxy.port, 25565);
    assert_eq!(c.proxy.max_players, 100);
    assert_eq!(c.proxy.motd, "A Minecraft Server");
}

#[test]
fn backend_descriptor_fields() {
    let b = BackendServer::new("lobby".to_string(), "127.0.0.1:25570".to_string());
    assert_eq!(b.name, "lobby");
    assert_eq!(b.address, "127.0.0.1:25570");
}

#[test]
fn directory_list_snapshots_in_order() {
    let mut reg = PlayerRegistry::new();
    reg.add(player("Alpha"));
    reg.add(player("Beta"));
    let snapshot = reg.list();
    let names: Vec<&str> = snapshot.iter().map(|p| p.username.as_str()).collect();
    assert_eq!(names, vec!["Alpha", "Beta"]);
}
