use rdp_spray::FatalError;
use rdp_spray::builder::build;
use rdp_spray::credentials::CredentialPair;
use rdp_spray::credentials::Secret;
use rdp_spray::engine::AttemptEvent;
use rdp_spray::engine::Engine;
use rdp_spray::engine::EngineState;
use rdp_spray::engine::auth_params;
use rdp_spray::engine::run_with_events;
use rdp_spray::validate_user_sources;

fn pair(user: &str, pass: &str) -> CredentialPair {
    CredentialPair { username: String::from(user), secret: Secret::Password(String::from(pass)) }
}

#[test]
fn missing_username_sources_are_a_configuration_error() {
    assert_eq!(validate_user_sources(false, false), Err(FatalError::Configuration));
    assert_eq!(validate_user_sources(true, false), Ok(()));
    assert_eq!(validate_user_sources(false, true), Ok(()));
    assert_eq!(validate_user_sources(true, true), Ok(()));
}

#[test]
fn stops_at_first_success_and_skips_the_rest() {
    let set = vec![pair("u", "a"), pair("u", "b"), pair("u", "c")];
    let events = vec![
        AttemptEvent::AuthFailed(String::from("denied")),
        AttemptEvent::AuthSucceeded,
        AttemptEvent::AuthFailed(String::from("denied")),
    ];
    let report = run_with_events(&set, &events).unwrap();
    assert_eq!(report.attempts, 2);
    assert_eq!(report.outcome, EngineState::Succeeded { index: 1 });
    assert_eq!(report.lines.len(), 2);
}

#[test]
fn empty_credential_set_is_fatal_with_zero_attempts() {
    let set: Vec<CredentialPair> = vec![];
    let events: Vec<AttemptEvent> = vec![];
    let err = run_with_events(&set, &events).unwrap_err();
    assert_eq!(err, FatalError::EmptyCredentialSet);

    let err = Engine::new(vec![]).unwrap_err();
    assert_eq!(err, FatalError::EmptyCredentialSet);
}

#[test]
fn transport_failure_aborts_on_the_first_attempt() {
    let set = vec![pair("u", "a"), pair("u", "b")];
    let events = vec![AttemptEvent::ConnectRefused, AttemptEvent::ConnectRefused];
    let err = run_with_events(&set, &events).unwrap_err();
    assert_eq!(err, FatalError::Connect);

    let events = vec![AttemptEvent::ProxyRefused, AttemptEvent::ProxyRefused];
    let err = run_with_events(&set, &events).unwrap_err();
    assert_eq!(err, FatalError::Proxy);
}

#[test]
fn exhausting_the_set_reports_every_attempt() {
    let set = vec![pair("u", "a"), pair("u", "b")];
    let events = vec![
        AttemptEvent::AuthFailed(String::from("no")),
        AttemptEvent::AuthFailed(String::from("no")),
    ];
    let report = run_with_events(&set, &events).unwrap();
    assert_eq!(report.attempts, 2);
    assert_eq!(report.outcome, EngineState::Exhausted);
    assert_eq!(report.lines.len(), 2);
    assert_eq!(report.lines[0], "#0: try: <user: u, secret: [pass: 'a']> -> fail no");
    assert_eq!(report.lines[1], "#1: try: <user: u, secret: [pass: 'b']> -> fail no");
}

#[test]
fn end_to_end_config_against_mock_authenticator() {
    let username = String::from("admin");
    let passwords = String::from("wrong1\nwrong2\ncorrect");
    let set = build(Some(&username), None, Some(&passwords), None).unwrap();
    assert_eq!(set.len(), 3);

    let events: Vec<AttemptEvent> = set
        .iter()
        .map(|p| match &p.secret {
            Secret::Password(pw) if pw == "correct" => AttemptEvent::AuthSucceeded,
            _ => AttemptEvent::AuthFailed(String::from("bad credentials")),
        })
        .collect();

    let report = run_with_events(&set, &events).unwrap();
    assert_eq!(report.attempts, 3);
    assert_eq!(report.outcome, EngineState::Succeeded { index: 2 });
    assert_eq!(report.lines.len(), 3);
    assert_eq!(
        report.lines[0],
        "#0: try: <user: admin, secret: [pass: 'wrong1']> -> fail bad credentials"
    );
    assert_eq!(
        report.lines[1],
        "#1: try: <user: admin, secret: [pass: 'wrong2']> -> fail bad credentials"
    );
    assert_eq!(
        report.lines[2],
        "#2: try: <user: admin, secret: [pass: 'correct']> -> success!!"
    );
}

#[test]
fn engine_steps_through_events_one_attempt_at_a_time() {
    let set = vec![pair("u", "a"), pair("u", "b")];
    let mut engine = Engine::new(set).unwrap();
    assert_eq!(engine.next_attempt(), Some(0));
    assert_eq!(engine.pair_at(0).username, "u");

    engine.record(&AttemptEvent::AuthFailed(String::from("no")));
    assert_eq!(engine.next_attempt(), Some(1));

    engine.record(&AttemptEvent::AuthSucceeded);
    assert_eq!(engine.next_attempt(), None);
    assert_eq!(engine.state, EngineState::Succeeded { index: 1 });
}

#[test]
fn engine_exhausts_after_the_last_failure() {
    let mut engine = Engine::new(vec![pair("u", "a")]).unwrap();
    engine.record(&AttemptEvent::AuthFailed(String::from("no")));
    assert_eq!(engine.state, EngineState::Exhausted);
    assert_eq!(engine.next_attempt(), None);
}

#[test]
fn engine_aborts_on_transport_failure() {
    let mut engine = Engine::new(vec![pair("u", "a"), pair("u", "b")]).unwrap();
    engine.record(&AttemptEvent::ConnectRefused);
    assert_eq!(engine.state, EngineState::Aborted { index: 0, error: FatalError::Connect });
    assert_eq!(engine.next_attempt(), None);
}

#[test]
fn auth_params_dispatch_on_the_secret_variant() {
    let domain = String::from("corp");
    let pw_pair = pair("admin", "hunter2");
    let params = auth_params(Some(&domain), &pw_pair);
    assert_eq!(params.domain, "corp");
    assert_eq!(params.username, "admin");
    assert_eq!(params.password, "hunter2");
    assert!(params.hash.is_none());

    let hash_pair = CredentialPair {
        username: String::from("admin"),
        secret: Secret::HashDigest(vec![0xa1, 0xb2]),
    };
    let params = auth_params(None, &hash_pair);
    assert_eq!(params.domain, "domain");
    assert_eq!(params.password, "");
    assert_eq!(params.hash, Some(vec![0xa1, 0xb2]));
}
