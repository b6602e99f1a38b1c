use server_init::failure::Failure;
use server_init::identity::HostIdentity;
use server_init::registration::{Action, Registration};
use server_init::token::TokenStore;

const CLUSTER: &str = "{\n  cluster = {\n  };\n}\n";
const KEY: &str = "ssh-ed25519 AAAAC3NzaC1lZDI1NTE5AAAAIJb root@node1";

fn request(token: &str, hostkey: Option<&str>, hardware: &str, os: &str) -> Vec<(String, String)> {
    let mut fields = vec![
        ("ip".to_string(), "10.0.0.7".to_string()),
        ("otp".to_string(), token.to_string()),
        ("hardware_configuration".to_string(), hardware.to_string()),
        ("configuration".to_string(), os.to_string()),
    ];
    if let Some(key) = hostkey {
        fields.push(("hostkey".to_string(), key.to_string()));
    }
    fields
}

fn store_with(code: &str, uses: u32) -> TokenStore {
    let mut store = TokenStore::new();
    store.issue(code.to_string(), uses, 0, 3_600_000).unwrap();
    store
}

/// Runs a request against a repository that holds `cluster` and accepts
/// every push; gives the status and the cluster text that the repository
/// holds afterwards, with the paths that were written.
fn serve(
    store: &mut TokenStore,
    fields: Vec<(String, String)>,
    auth: bool,
    cluster: &str,
) -> (u16, String, Vec<String>) {
    let mut state = Registration::receive(fields);
    assert_eq!(state.next_action(), Action::Authenticate);
    state = state.authenticate_at(store, auth, 1_000);
    state = state.parse();
    if state.next_action() == Action::OpenRepository {
        state = state.merge(Ok(cluster.to_string()));
    }
    let mut text = cluster.to_string();
    let mut written = Vec::new();
    if let Some(change) = state.change() {
        text = change.cluster.serialize();
        written = vec![change.hardware.path.clone(), change.os.path.clone()];
        state = state.commit(Ok(()));
    }
    assert_eq!(state.next_action(), Action::Respond);
    let status = state.status_code();
    let done = state.respond();
    assert_eq!(done.next_action(), Action::Done);
    assert_eq!(done.status_code(), status);
    (status, text, written)
}

#[test]
fn single_use_token_registers_once() {
    let mut store = store_with("abc123", 1);
    let fields = request("abc123", Some(KEY), "{ hw = 1; }", "{ os = 1; }");
    let (status, text, written) = serve(&mut store, fields, true, CLUSTER);
    assert_eq!(status, 200);
    let id = HostIdentity::derive(KEY).unwrap();
    assert_eq!(
        written,
        vec![
            format!("hosts/{}/hardware.conf", id.as_str()),
            format!("hosts/{}/os.conf", id.as_str())
        ]
    );
    assert!(text.contains(id.as_str()));
    let other = request("abc123", Some("ssh-ed25519 OTHER"), "{ }", "{ }");
    let (again, unchanged, none) = serve(&mut store, other, true, &text);
    assert_eq!(again, 401);
    assert_eq!(unchanged, text);
    assert!(none.is_empty());
}

#[test]
fn missing_hostkey_is_malformed_and_writes_nothing() {
    let mut store = store_with("abc123", 1);
    let fields = request("abc123", None, "{ }", "{ }");
    let (status, text, written) = serve(&mut store, fields, true, CLUSTER);
    assert_eq!(status, 400);
    assert_eq!(text, CLUSTER);
    assert!(written.is_empty());
    assert!(store.validate_at("abc123", 1_000));
}

#[test]
fn same_credential_twice_is_a_conflict() {
    let mut store = store_with("multi", 2);
    let first = request("multi", Some(KEY), "{ }", "{ }");
    let (status, text, _) = serve(&mut store, first, true, CLUSTER);
    assert_eq!(status, 200);
    let second = request("multi", Some(KEY), "{ changed = 1; }", "{ }");
    let (again, after, written) = serve(&mut store, second, true, &text);
    assert_eq!(again, 409);
    assert_eq!(after, text);
    assert!(written.is_empty());
    let id = HostIdentity::derive(KEY).unwrap();
    assert_eq!(text.matches(id.as_str()).count(), 3);
    let parsed = server_init::document::ConfigDocument::parse(&after).unwrap();
    let keys = parsed.host_keys().unwrap();
    assert_eq!(keys, vec![format!("\"{}\"", id.as_str())]);
}

#[test]
fn unknown_token_is_unauthorized() {
    let mut store = store_with("abc123", 1);
    let fields = request("wrong", Some(KEY), "{ }", "{ }");
    let (status, text, _) = serve(&mut store, fields, true, CLUSTER);
    assert_eq!(status, 401);
    assert_eq!(text, CLUSTER);
    assert!(store.validate_at("abc123", 1_000));
}

#[test]
fn expired_token_is_unauthorized() {
    let mut store = TokenStore::new();
    store.issue("late".to_string(), 5, 0, 1_000).unwrap();
    let fields = request("late", Some(KEY), "{ }", "{ }");
    let (status, _, _) = serve(&mut store, fields, true, CLUSTER);
    assert_eq!(status, 401);
}

#[test]
fn without_authentication_no_token_is_needed_or_spent() {
    let mut store = store_with("abc123", 1);
    let fields = request("anything", Some(KEY), "{ }", "{ }");
    let (status, _, _) = serve(&mut store, fields, false, CLUSTER);
    assert_eq!(status, 200);
    assert!(store.validate_at("abc123", 1_000));
}

#[test]
fn either_bad_configuration_is_malformed() {
    let mut store = store_with("t", 3);
    let bad_hardware = request("t", Some(KEY), "{ a = ; }", "{ }");
    assert_eq!(serve(&mut store, bad_hardware, true, CLUSTER).0, 400);
    let bad_os = request("t", Some(KEY), "{ }", "{ a = ");
    assert_eq!(serve(&mut store, bad_os, true, CLUSTER).0, 400);
    let both = request("t", Some(KEY), "{", "}");
    assert_eq!(serve(&mut store, both, true, CLUSTER).0, 400);
    assert!(!store.validate_at("t", 1_000));
}

#[test]
fn misconfigured_repository_is_internal() {
    let mut store = store_with("t", 2);
    let fields = request("t", Some(KEY), "{ }", "{ }");
    assert_eq!(serve(&mut store, fields, true, "[ 1 2 ]").0, 500);
    let fields = request("t", Some(KEY), "{ }", "{ }");
    assert_eq!(serve(&mut store, fields, true, "{ cluster = ").0, 500);
}

#[test]
fn repository_failures_keep_their_kind() {
    for (failure, status) in [(Failure::TlsError, 526), (Failure::Internal, 500)] {
        let mut store = store_with("t", 1);
        let fields = request("t", Some(KEY), "{ }", "{ }");
        let state = Registration::receive(fields).authenticate_at(&mut store, true, 1).parse();
        let state = state.merge(Err(failure));
        assert!(state.change().is_none());
        assert_eq!(state.status_code(), status);
    }
}

#[test]
fn push_failures_keep_their_kind() {
    for (failure, status) in [(Failure::TlsError, 526), (Failure::Internal, 500)] {
        let mut store = store_with("t", 1);
        let fields = request("t", Some(KEY), "{ }", "{ }");
        let state = Registration::receive(fields).authenticate_at(&mut store, true, 1).parse();
        let state = state.merge(Ok(CLUSTER.to_string()));
        assert_eq!(state.next_action(), Action::Publish);
        let state = state.commit(Err(failure));
        assert_eq!(state.status_code(), status);
        assert_eq!(state.next_action(), Action::Respond);
    }
}

#[test]
fn a_failed_request_stays_failed() {
    let mut store = TokenStore::new();
    let state = Registration::receive(Vec::new()).authenticate_at(&mut store, true, 1);
    assert_eq!(state.status_code(), 400);
    let state = state.parse().merge(Ok(CLUSTER.to_string())).commit(Ok(()));
    assert_eq!(state.status_code(), 400);
    assert!(state.change().is_none());
}

#[test]
fn a_request_given_up_on_the_way_answers_500() {
    let state = Registration::receive(request("t", Some(KEY), "{ }", "{ }"));
    assert_eq!(state.status_code(), 500);
    let state = state.commit(Ok(()));
    assert_eq!(state.next_action(), Action::Authenticate);
    let mut store = TokenStore::new();
    let state = state.authenticate_at(&mut store, false, 0);
    assert_eq!(state.next_action(), Action::Parse);
    assert_eq!(state.status_code(), 500);
}

#[test]
fn authenticate_with_the_clock_spends_a_live_token() {
    let mut store = TokenStore::new();
    let code = store.generate(1, 1).unwrap();
    let fields = request(&code, Some(KEY), "{ }", "{ }");
    let state = Registration::receive(fields).authenticate(&mut store, true);
    assert_eq!(state.next_action(), Action::Parse);
    let fields = request(&code, Some(KEY), "{ }", "{ }");
    let state = Registration::receive(fields).authenticate(&mut store, true);
    assert_eq!(state.status_code(), 401);
}
