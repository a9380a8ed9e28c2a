use tgstore::auth::is_authorized;
use tgstore::bot::RoundRobinBot;
use tgstore::file_utils::{upload_outcome, SendOutcome};

#[test]
fn rotation_cycles_through_all_credentials() {
    let tokens = vec!["a".to_string(), "b".to_string(), "c".to_string()];
    let mut pool = RoundRobinBot::new(tokens);
    let mut seen = Vec::new();
    for _ in 0..7 {
        seen.push(pool.acquire_index());
    }
    assert_eq!(seen, vec![0, 1, 2, 0, 1, 2, 0]);
}

#[test]
fn rotation_single_credential_always_selects_it() {
    let mut pool = RoundRobinBot::new(vec!["only".to_string()]);
    for _ in 0..5 {
        assert_eq!(pool.acquire_index(), 0);
    }
}

#[test]
fn get_bot_rotates_real_clients() {
    let tokens = vec!["1111:first".to_string(), "2222:second".to_string()];
    let mut pool = RoundRobinBot::new(tokens);
    let api_url = "https://api.example.org/".to_string();
    let first = pool.get_bot(&api_url).expect("client should build");
    let second = pool.get_bot(&api_url).expect("client should build");
    let third = pool.get_bot(&api_url).expect("client should build");
    assert_eq!(first.token(), "1111:first");
    assert_eq!(second.token(), "2222:second");
    assert_eq!(third.token(), "1111:first");
}

#[test]
fn get_bot_refuses_invalid_endpoint() {
    let mut pool = RoundRobinBot::new(vec!["t".to_string()]);
    let api_url = "not a url".to_string();
    assert!(pool.get_bot(&api_url).is_none());
}

#[test]
fn authorized_only_with_exact_key() {
    let key = "expected-api-key".to_string();
    assert!(is_authorized(Some(&key.clone()), &key));
    assert!(!is_authorized(Some(&"wrong".to_string()), &key));
    assert!(!is_authorized(None, &key));
}

#[test]
fn upload_success_carries_backend_address() {
    let r = upload_outcome(SendOutcome::Sent { chat_id: -100123, message_id: 4577 });
    let u = r.expect("success expected");
    assert_eq!(u.backend, "bot");
    assert_eq!(u.data.chat_id, -100123);
    assert_eq!(u.data.message_id, 4577);
}

#[test]
fn upload_rejection_passes_message_verbatim() {
    let r = upload_outcome(SendOutcome::Rejected {
        message: "Bad Request: file is too big".to_string(),
    });
    assert_eq!(r.unwrap_err(), "Bad Request: file is too big");
}
