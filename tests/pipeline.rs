use mud_server_session::funnel::Funnel;
use mud_server_session::request::{Request, RequestType};
use mud_server_session::request_cache::RequestCache;
use mud_server_session::session::{Session, SessionEvent, SessionPhase};
use mud_server_session::verb_hash::{build_verb_table, derive_verb_hash, verb_key_bytes};
use mud_server_session::configuration::{ConfigError, ConfigRecord, Configuration};
use uuid::Uuid;

fn message(id: &Uuid, hash: u128, payload: &str) -> Vec<u8> {
    let text = format!("{}\n{}\n{}", id.hyphenated(), Uuid::from_u128(hash).hyphenated(), payload);
    text.into_bytes()
}

fn request(id: u128, payload: &[u8]) -> Request {
    Request { id, req_type: RequestType::Look, contents: payload.to_vec() }
}

#[test]
fn verb_key_joins_verb_and_secret() {
    assert_eq!(verb_key_bytes(RequestType::Say, b"tok"), b"say_tok".to_vec());
    assert_eq!(verb_key_bytes(RequestType::Attack, b""), b"attack_".to_vec());
}

#[test]
fn verb_hash_is_uuid_v5_of_key() {
    let expected = Uuid::new_v5(&Uuid::NAMESPACE_OID, b"say_tok").as_u128();
    assert_eq!(derive_verb_hash(RequestType::Say, b"tok"), expected);
    assert_ne!(derive_verb_hash(RequestType::Say, b"tok"), 0);
}

#[test]
fn verb_hash_is_deterministic() {
    for t in RequestType::all() {
        assert_eq!(derive_verb_hash(t, b"secret"), derive_verb_hash(t, b"secret"));
    }
    assert_eq!(build_verb_table(b"secret"), build_verb_table(b"secret"));
}

#[test]
fn different_secrets_give_disjoint_tables() {
    let a = build_verb_table(b"tok");
    let b = build_verb_table(b"other");
    for h in a.keys() {
        assert!(!b.contains_key(h));
    }
}

#[test]
fn verb_table_covers_every_verb() {
    let table = build_verb_table(b"tok");
    assert_eq!(table.len(), 4);
    for t in RequestType::all() {
        assert_eq!(table.get(&derive_verb_hash(t, b"tok")), Some(&t));
    }
}

#[test]
fn session_builds_same_table() {
    let conf = Configuration {
        data_location: "data/data.json".to_string(),
        network_port: 10722,
        debug_mode: false,
        max_request_cache_count: 10,
        request_validation_token: "tok".to_string(),
    };
    let s = Session::new(&conf);
    assert_eq!(s.phase, SessionPhase::Starting);
    assert!(!s.quit);
    assert_eq!(s.create_request_type_hashes("tok"), build_verb_table(b"tok"));
}

#[test]
fn well_formed_message_is_admitted() {
    let table = build_verb_table(b"tok");
    let id = Uuid::new_v4();
    let m = message(&id, derive_verb_hash(RequestType::Say, b"tok"), "hi");
    let r = Request::new(&m, &table).unwrap();
    assert_eq!(r.id, id.as_u128());
    assert_eq!(r.req_type, RequestType::Say);
    assert_eq!(r.contents, b"hi".to_vec());
}

#[test]
fn payload_may_hold_field_end() {
    let table = build_verb_table(b"tok");
    let id = Uuid::new_v4();
    let m = message(&id, derive_verb_hash(RequestType::Move, b"tok"), "north\nthen east");
    let r = Request::new(&m, &table).unwrap();
    assert_eq!(r.req_type, RequestType::Move);
    assert_eq!(r.contents, b"north\nthen east".to_vec());
}

#[test]
fn unknown_hash_is_rejected() {
    let table = build_verb_table(b"tok");
    let id = Uuid::new_v4();
    let m = message(&id, derive_verb_hash(RequestType::Say, b"wrong"), "hi");
    assert!(Request::new(&m, &table).is_none());
}

#[test]
fn malformed_messages_are_rejected() {
    let table = build_verb_table(b"tok");
    let h = Uuid::from_u128(derive_verb_hash(RequestType::Say, b"tok")).hyphenated().to_string();
    assert!(Request::new(b"", &table).is_none());
    assert!(Request::new(b"no fields at all", &table).is_none());
    assert!(Request::new(format!("not-a-uuid\n{}\nhi", h).as_bytes(), &table).is_none());
    assert!(Request::new(format!("{}\nhi", h).as_bytes(), &table).is_none());
}

#[test]
fn bad_connections_do_not_affect_good_ones() {
    let table = build_verb_table(b"tok");
    let say = derive_verb_hash(RequestType::Say, b"tok");
    let mut messages = Vec::new();
    for i in 0..5u32 {
        messages.push(message(&Uuid::new_v4(), say, "hi"));
        messages.push(format!("garbage {}", i).into_bytes());
        messages.push(message(&Uuid::new_v4(), derive_verb_hash(RequestType::Say, b"x"), "hi"));
    }
    let admitted: Vec<Request> = messages.iter().filter_map(|m| Request::new(m, &table)).collect();
    assert_eq!(admitted.len(), 5);
}

#[test]
fn duplicate_id_is_dropped() {
    let mut cache = RequestCache::new(false, 10);
    cache.add(request(7, b"first"));
    cache.add(request(7, b"second"));
    assert_eq!(cache.len(), 1);
    assert!(cache.contains(7));
    assert_eq!(cache.requests[&7].contents, b"first".to_vec());
}

#[test]
fn full_cache_is_cleared_before_insert() {
    let mut cache = RequestCache::new(false, 3);
    for id in 0..3u128 {
        cache.add(request(id, b"x"));
    }
    assert_eq!(cache.len(), 3);
    cache.add(request(99, b"y"));
    assert_eq!(cache.len(), 1);
    assert!(cache.contains(99));
    assert!(!cache.contains(0));
}

#[test]
fn cache_below_capacity_keeps_entries() {
    let mut cache = RequestCache::new(false, 3);
    cache.add(request(1, b"x"));
    cache.add(request(2, b"x"));
    cache.add(request(3, b"x"));
    assert_eq!(cache.len(), 3);
}

#[test]
fn zero_capacity_holds_newest_only() {
    let mut cache = RequestCache::new(true, 0);
    cache.add(request(1, b"x"));
    cache.add(request(2, b"x"));
    assert_eq!(cache.len(), 1);
    assert!(cache.contains(2));
    assert!(cache.show_debug());
}

#[test]
fn funnel_waits_for_window() {
    let mut f = Funnel::new(false, 10, 60, 1000);
    f.on_request(request(1, b"x"));
    assert!(f.on_tick(1059).is_none());
    assert!(f.on_tick(500).is_none());
    let b = f.on_tick(1060).unwrap();
    assert_eq!(b.seq, 0);
    assert_eq!(b.requests.len(), 1);
    assert!(f.on_tick(1100).is_none());
}

#[test]
fn batches_are_numbered_in_order() {
    let mut f = Funnel::new(false, 10, 60, 0);
    let mut seqs = Vec::new();
    for w in 1..=4u64 {
        f.on_request(request(w as u128, b"marker"));
        let b = f.on_tick(w * 60).unwrap();
        assert_eq!(b.requests.len(), 1);
        assert!(b.requests.contains_key(&(w as u128)));
        seqs.push(b.seq);
    }
    assert_eq!(seqs, vec![0, 1, 2, 3]);
    assert_eq!(f.next_seq(), 4);
}

#[test]
fn funnel_stops_after_send_failure() {
    let mut f = Funnel::new(false, 10, 0, 0);
    f.on_send_failed();
    assert!(f.is_halted());
    f.on_request(request(1, b"x"));
    assert!(f.on_tick(10).is_none());
}

#[test]
fn end_to_end_three_says() {
    let table = build_verb_table(b"tok");
    let say = derive_verb_hash(RequestType::Say, b"tok");
    let mut f = Funnel::new(false, 10, 60, 0);
    let ids = [Uuid::new_v4(), Uuid::new_v4(), Uuid::new_v4()];
    for id in ids.iter() {
        let m = message(id, say, "hi");
        if let Some(r) = Request::new(&m, &table) {
            f.on_request(r);
        }
    }
    let b = f.on_tick(60).unwrap();
    assert_eq!(b.seq, 0);
    assert_eq!(b.requests.len(), 3);
    for id in ids.iter() {
        let r = &b.requests[&id.as_u128()];
        assert_eq!(r.req_type, RequestType::Say);
        assert_eq!(r.contents, b"hi".to_vec());
    }
    assert!(f.on_tick(61).is_none());
}

#[test]
fn session_phases() {
    let p = SessionPhase::Starting;
    let p = p.next(SessionEvent::ListenerReady);
    assert_eq!(p, SessionPhase::Listening);
    assert!(p.takes_batches());
    let p = p.next(SessionEvent::BatchReceived);
    assert_eq!(p, SessionPhase::Running);
    let p = p.next(SessionEvent::QuitRequested);
    assert_eq!(p, SessionPhase::Draining);
    assert!(!p.takes_batches());
    assert_eq!(p.next(SessionEvent::BatchReceived), SessionPhase::Draining);
    let p = p.next(SessionEvent::Drained);
    assert_eq!(p, SessionPhase::Stopped);
    assert_eq!(p.next(SessionEvent::ListenerReady), SessionPhase::Stopped);
    assert_eq!(SessionPhase::Starting.next(SessionEvent::BindFailed), SessionPhase::Stopped);
    assert_eq!(SessionPhase::Running.next(SessionEvent::FunnelLost), SessionPhase::Stopped);
}

fn record(port: i64, cap: i64) -> ConfigRecord {
    ConfigRecord {
        data_location: "testdatalocation".to_string(),
        network_port: port,
        debug_mode: true,
        max_request_cache_count: cap,
        request_validation_token: "tok".to_string(),
    }
}

#[test]
fn config_load_checks_ranges() {
    assert_eq!(Configuration::load(record(-1, 10)).err(), Some(ConfigError::PortOutOfRange));
    assert_eq!(Configuration::load(record(65536, 10)).err(), Some(ConfigError::PortOutOfRange));
    assert_eq!(Configuration::load(record(10722, -1)).err(), Some(ConfigError::CapacityOutOfRange));
    assert_eq!(Configuration::load(record(10722, 4294967296)).err(), Some(ConfigError::CapacityOutOfRange));
    let c = Configuration::load(record(65535, 4294967295)).ok().unwrap();
    assert_eq!(c.network_port, 65535);
    assert_eq!(c.max_request_cache_count, 4294967295);
}

#[test]
fn config_save_then_load() {
    let c = Configuration::load(record(10722, 10)).ok().unwrap();
    let r = Configuration::save_config(&c);
    assert_eq!(r.network_port, 10722);
    let d = Configuration::load(r).ok().unwrap();
    assert_eq!(d.data_location, "testdatalocation");
    assert_eq!(d.network_port, 10722);
    assert!(d.debug_mode);
    assert_eq!(d.max_request_cache_count, 10);
    assert_eq!(d.request_validation_token, "tok");
}
