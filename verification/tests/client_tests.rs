use twitchalerts::client::{Client, Streamer};
use twitchalerts::config::Config;

fn full_config() -> Config {
    Config {
        streamers: vec!["alice".to_string(), "bob".to_string()],
        delay: Some(200),
        token: Some("SECRET-REDACTED".to_string()),
        user_id: Some("client-id".to_string()),
    }
}

#[test]
fn default_config_is_blank_with_default_delay() {
    let c = Config::default();
    assert!(c.streamers.is_empty());
    assert_eq!(c.delay, Some(80));
    assert_eq!(c.token.as_deref(), Some(""));
    assert_eq!(c.user_id.as_deref(), Some(""));
}

#[test]
fn construction_succeeds_on_a_full_config() {
    let client = Client::new(full_config()).unwrap();
    assert_eq!(client.client_id, "client-id");
    assert_eq!(client.token, "SECRET-REDACTED");
    assert_eq!(client.delay_millis, 200);
    let listed = client.store.list_alertable();
    assert_eq!(listed.len(), 2);
    assert_eq!(listed[0].identifier, "alice");
    assert_eq!(listed[1].identifier, "bob");
    assert!(listed.iter().all(|e| e.alerts_enabled && e.last_live_started_at == 0));
}

#[test]
fn construction_clamps_delay_to_the_pacing_floor() {
    let mut cfg = full_config();
    cfg.delay = Some(10);
    let client = Client::new(cfg).unwrap();
    assert_eq!(client.delay_millis, 80);

    let mut cfg = full_config();
    cfg.delay = Some(80);
    assert_eq!(Client::new(cfg).unwrap().delay_millis, 80);
}

#[test]
fn construction_fails_without_user_id() {
    let mut cfg = full_config();
    cfg.user_id = None;
    let err = match Client::new(cfg) {
        Err(e) => e,
        Ok(_) => panic!("expected construction to fail"),
    };
    assert_eq!(err.code, 13);
    assert_eq!(err.description, "Missing User ID in Config File!");
}

#[test]
fn construction_fails_without_token() {
    let mut cfg = full_config();
    cfg.token = None;
    let err = match Client::new(cfg) {
        Err(e) => e,
        Ok(_) => panic!("expected construction to fail"),
    };
    assert_eq!(err.code, 14);
    assert_eq!(err.description, "Missing User Token in Config File!");
}

#[test]
fn construction_fails_without_delay() {
    let mut cfg = full_config();
    cfg.delay = None;
    let err = match Client::new(cfg) {
        Err(e) => e,
        Ok(_) => panic!("expected construction to fail"),
    };
    assert_eq!(err.code, 15);
    assert_eq!(err.description, "Missing Delay in Config File!");
}

#[test]
fn missing_user_id_outranks_missing_token() {
    let mut cfg = full_config();
    cfg.user_id = None;
    cfg.token = None;
    cfg.delay = None;
    match Client::new(cfg) {
        Err(e) => assert_eq!(e.code, 13),
        Ok(_) => panic!("expected construction to fail"),
    }
}

#[test]
fn streamer_clone_keeps_the_name() {
    let s = Streamer { name: "alice".to_string() };
    let t = s.clone();
    assert_eq!(s, t);
    assert_eq!(t.name, "alice");
}
