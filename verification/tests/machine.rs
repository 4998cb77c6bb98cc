use xpcli::app::{App, Effect, Event, Fault, Phase};
use xpcli::catalogue::{ConnectionInfo, RawData};
use xpcli::filter::{FilterError, MatcherExit};
use xpcli::keys::{Input, KeyCode, KeyKind};
use xpcli::launcher::TerminalReply;
use xpcli::navigation::{ConfirmPolicy, ViewState};
use xpcli::screen::Row;
use xpcli::session::{AuthError, ConfigError, Failure, FetchError, Filters, Request};

fn strings(items: &[&str]) -> Vec<String> {
    items.iter().map(|s| s.to_string()).collect()
}

fn named(name: &str) -> ConnectionInfo {
    ConnectionInfo { name: vec![name.to_string()], raw_data: None }
}

fn key(code: KeyCode) -> Event {
    Event::Input { input: Input::Key { code, kind: KeyKind::Press } }
}

fn matcher(stdout: &str) -> Event {
    Event::MatcherDone {
        exit: MatcherExit::Finished { success: true, stdout: stdout.as_bytes().to_vec() },
    }
}

/// A browser that has fetched the given pairs and is browsing.
fn browsing(policy: ConfirmPolicy, names: &[&str], ids: &[&str]) -> App {
    let mut app = App::new(policy, Filters::of_type("ssh"));
    assert_eq!(app.deliver(Event::Configured { api_key: Some("secret".to_string()) }), None);
    assert_eq!(app.deliver(Event::HandshakeDone { token: Ok("tok".to_string()) }), None);
    assert_eq!(app.deliver(Event::QueryDone { found: Ok(strings(ids)) }), None);
    let infos = names.iter().map(|n| named(n)).collect();
    assert_eq!(app.deliver(Event::InfoDone { infos: Ok(infos) }), None);
    assert_eq!(app.phase(), &Phase::Browsing);
    app
}

/// web: [w1, w2], db: [d1], api: [a1, a2, a3]
fn sample(policy: ConfirmPolicy) -> App {
    browsing(
        policy,
        &["web", "db", "api", "web", "api", "api"],
        &["w1", "d1", "a1", "w2", "a2", "a3"],
    )
}

#[test]
fn the_browser_starts_by_asking_for_its_configuration() {
    let app = App::default();
    assert_eq!(app.pending(), Effect::Configure { variable: "XPIPE_API_KEY".to_string() });
    assert_eq!(app.phase(), &Phase::Unconfigured);
    assert_eq!(app.cursor(), 0);
    assert_eq!(app.view_state(), &ViewState::Flat);
    assert!(!app.is_authenticated());
    assert!(!app.is_exiting());
    assert_eq!(app.catalogue().len(), 0);
}

#[test]
fn a_missing_credential_ends_the_browser_before_it_draws() {
    let mut app = App::default();
    let fault = app.deliver(Event::Configured { api_key: None });
    assert_eq!(fault, Some(Fault::Config(ConfigError::MissingCredential)));
    assert!(matches!(&fault, Some(f) if f.is_fatal()));
    assert!(app.is_exiting());
    assert_eq!(app.pending(), Effect::Stop);
}

#[test]
fn the_startup_runs_handshake_query_and_info_in_turn() {
    let mut app = App::default();
    assert_eq!(app.deliver(Event::Configured { api_key: Some("secret".to_string()) }), None);
    assert_eq!(
        app.pending(),
        Effect::Send {
            request: Request::Handshake { key: "secret".to_string(), client: "xpcli".to_string() }
        }
    );
    assert_eq!(app.deliver(Event::HandshakeDone { token: Ok("tok".to_string()) }), None);
    assert!(app.is_authenticated());
    assert_eq!(
        app.pending(),
        Effect::Send {
            request: Request::Query {
                token: "tok".to_string(),
                category: "*".to_string(),
                connection: "*".to_string(),
                kind: "ssh".to_string(),
            }
        }
    );
    assert_eq!(app.deliver(Event::QueryDone { found: Ok(strings(&["a1", "a2"])) }), None);
    assert_eq!(
        app.pending(),
        Effect::Send {
            request: Request::Info { token: "tok".to_string(), connections: strings(&["a1", "a2"]) }
        }
    );
    let infos = vec![named("web1"), named("web1")];
    assert_eq!(app.deliver(Event::InfoDone { infos: Ok(infos) }), None);
    assert_eq!(app.pending(), Effect::Render);
}

#[test]
fn two_identifiers_under_one_name_make_one_entry() {
    let app = browsing(ConfirmPolicy::FlatLaunch, &["web1", "web1"], &["a1", "a2"]);
    assert_eq!(app.catalogue().names(), &strings(&["web1"]));
    assert_eq!(
        app.catalogue().identifiers(&"web1".to_string()),
        Some(&strings(&["a1", "a2"]))
    );
    assert_eq!(app.items(), strings(&["web1"]));
}

#[test]
fn the_flat_view_shows_each_display_name_once() {
    let app = sample(ConfirmPolicy::FlatLaunch);
    assert_eq!(app.items().len(), 3);
    assert_eq!(app.items(), strings(&["api", "db", "web"]));
    assert_eq!(
        app.rows(),
        vec![
            Row { text: "api".to_string(), selected: true },
            Row { text: "db".to_string(), selected: false },
            Row { text: "web".to_string(), selected: false },
        ]
    );
    assert_eq!(app.title(), "SSH Clients");
}

#[test]
fn a_failed_handshake_leaves_an_empty_browser_running() {
    let mut app = App::default();
    app.deliver(Event::Configured { api_key: Some("secret".to_string()) });
    let fault = app.deliver(Event::HandshakeDone {
        token: Err(Failure::Network { reason: "connection refused".to_string() }),
    });
    assert_eq!(
        fault,
        Some(Fault::Auth(AuthError {
            cause: Failure::Network { reason: "connection refused".to_string() }
        }))
    );
    assert!(matches!(&fault, Some(f) if !f.is_fatal() && f.message() == "Error during handshake."));
    assert!(!app.is_authenticated());
    assert!(!app.is_exiting());
    assert_eq!(app.pending(), Effect::Render);
    assert_eq!(app.items(), Vec::<String>::new());
}

#[test]
fn a_failed_query_leaves_the_catalogue_as_it_was() {
    let mut app = App::default();
    app.deliver(Event::Configured { api_key: Some("secret".to_string()) });
    app.deliver(Event::HandshakeDone { token: Ok("tok".to_string()) });
    let fault = app.deliver(Event::QueryDone {
        found: Err(Failure::BadPayload { reason: "expected `found`".to_string() }),
    });
    assert_eq!(
        fault,
        Some(Fault::Fetch(FetchError {
            cause: Failure::BadPayload { reason: "expected `found`".to_string() }
        }))
    );
    assert!(matches!(
        &fault,
        Some(f) if f.message() == "Error fetching connections: expected `found`"
    ));
    assert!(app.is_authenticated());
    assert_eq!(app.pending(), Effect::Render);
    assert_eq!(app.catalogue().len(), 0);
}

#[test]
fn a_failed_info_step_leaves_the_catalogue_as_it_was() {
    let mut app = App::default();
    app.deliver(Event::Configured { api_key: Some("secret".to_string()) });
    app.deliver(Event::HandshakeDone { token: Ok("tok".to_string()) });
    app.deliver(Event::QueryDone { found: Ok(strings(&["a1"])) });
    let fault = app.deliver(Event::InfoDone {
        infos: Err(Failure::Network { reason: "reset".to_string() }),
    });
    assert!(matches!(&fault, Some(Fault::Fetch(_))));
    assert!(matches!(&fault, Some(f) if f.message() == "Error fetching connections: reset"));
    assert_eq!(app.pending(), Effect::Render);
    assert_eq!(app.catalogue().len(), 0);
}

#[test]
fn the_cursor_stops_at_both_ends() {
    let mut app = sample(ConfirmPolicy::FlatLaunch);
    assert_eq!(app.deliver(key(KeyCode::Up)), None);
    assert_eq!(app.cursor(), 0);
    app.deliver(key(KeyCode::Down));
    assert_eq!(app.cursor(), 1);
    app.deliver(key(KeyCode::Char('j')));
    assert_eq!(app.cursor(), 2);
    app.deliver(key(KeyCode::Down));
    assert_eq!(app.cursor(), 2);
    app.deliver(key(KeyCode::Char('k')));
    assert_eq!(app.cursor(), 1);
    assert_eq!(app.phase(), &Phase::Browsing);
}

#[test]
fn over_an_empty_catalogue_nothing_moves() {
    let mut app = browsing(ConfirmPolicy::FlatLaunch, &[], &[]);
    let keys =
        [KeyCode::Up, KeyCode::Down, KeyCode::Enter, KeyCode::Char('j'), KeyCode::Char('k')];
    for code in keys {
        assert_eq!(app.deliver(key(code)), None);
        assert_eq!(app.cursor(), 0);
        assert_eq!(app.view_state(), &ViewState::Flat);
        assert_eq!(app.phase(), &Phase::Browsing);
        assert_eq!(app.pending(), Effect::Render);
    }
    assert_eq!(app.rows(), vec![]);
}

#[test]
fn confirm_launches_the_primary_identifier() {
    let mut app = sample(ConfirmPolicy::FlatLaunch);
    app.deliver(key(KeyCode::Down));
    app.deliver(key(KeyCode::Down));
    assert_eq!(app.deliver(key(KeyCode::Enter)), None);
    assert_eq!(app.phase(), &Phase::Launching { identifier: "w1".to_string() });
    assert_eq!(
        app.pending(),
        Effect::Launch {
            banner: "Connecting to w1...".to_string(),
            request: Request::Terminal {
                token: "tok".to_string(),
                connection: "w1".to_string(),
                directory: "/".to_string(),
            },
        }
    );
}

#[test]
fn a_successful_launch_is_shown_until_a_key_is_pressed() {
    let mut app = sample(ConfirmPolicy::FlatLaunch);
    app.deliver(key(KeyCode::Down));
    app.deliver(key(KeyCode::Enter));
    let reply = TerminalReply::Status { code: 200, body: None };
    assert_eq!(app.deliver(Event::TerminalDone { reply }), None);
    assert_eq!(
        app.pending(),
        Effect::Acknowledge {
            notice: "Terminal session opened successfully for: d1".to_string(),
            prompt: "Press any key to return...".to_string(),
        }
    );
    app.deliver(Event::Input { input: Input::Other });
    assert!(matches!(app.phase(), Phase::Acknowledging { .. }));
    let release = Input::Key { code: KeyCode::Enter, kind: KeyKind::Release };
    app.deliver(Event::Input { input: release });
    assert!(matches!(app.phase(), Phase::Acknowledging { .. }));
    app.deliver(key(KeyCode::Other));
    assert_eq!(app.phase(), &Phase::Browsing);
    assert_eq!(app.cursor(), 1);
    assert_eq!(app.view_state(), &ViewState::Flat);
}

#[test]
fn a_rejected_launch_shows_the_body_and_the_browser_goes_on() {
    let mut app = sample(ConfirmPolicy::FlatLaunch);
    app.deliver(key(KeyCode::Enter));
    let fault = app.deliver(Event::TerminalDone {
        reply: TerminalReply::Status { code: 500, body: Some("connection refused".to_string()) },
    });
    assert_eq!(fault, None);
    assert!(!app.is_exiting());
    match app.pending() {
        Effect::Acknowledge { notice, prompt } => {
            assert_eq!(notice, "Error opening terminal session:\nconnection refused");
            assert!(notice.ends_with("connection refused"));
            assert_eq!(prompt, "Press any key to return...");
        }
        other => panic!("no notice: {:?}", other),
    }
    // even the key that quits while browsing only acknowledges here
    app.deliver(key(KeyCode::Char('q')));
    assert!(!app.is_exiting());
    assert_eq!(app.pending(), Effect::Render);
    assert_eq!(app.cursor(), 0);
}

#[test]
fn an_unreachable_service_is_shown_as_well() {
    let mut app = sample(ConfirmPolicy::FlatLaunch);
    app.deliver(key(KeyCode::Enter));
    let reply = TerminalReply::Failed { reason: "timed out".to_string() };
    app.deliver(Event::TerminalDone { reply });
    assert_eq!(
        app.phase(),
        &Phase::Acknowledging { notice: "Request failed: timed out".to_string() }
    );
    assert!(!app.is_exiting());
}

#[test]
fn without_a_credential_confirm_opens_nothing() {
    let mut app = App::default();
    app.deliver(Event::Configured { api_key: Some("secret".to_string()) });
    app.deliver(Event::HandshakeDone {
        token: Err(Failure::BadPayload { reason: "no token".to_string() }),
    });
    assert_eq!(app.deliver(key(KeyCode::Enter)), None);
    assert_eq!(app.pending(), Effect::Render);
}

#[test]
fn the_drill_policy_shows_the_identifiers_first() {
    let mut app = sample(ConfirmPolicy::DrillThenLaunch);
    app.deliver(key(KeyCode::Down));
    app.deliver(key(KeyCode::Down));
    app.deliver(key(KeyCode::Enter));
    assert_eq!(app.view_state(), &ViewState::DrillDown { server: "web".to_string() });
    assert_eq!(app.cursor(), 0);
    assert_eq!(app.phase(), &Phase::Browsing);
    assert_eq!(app.items(), strings(&["w1", "w2"]));
    assert_eq!(app.title(), "web");

    app.deliver(key(KeyCode::Down));
    app.deliver(key(KeyCode::Down));
    assert_eq!(app.cursor(), 1);
    app.deliver(key(KeyCode::Enter));
    assert_eq!(app.phase(), &Phase::Launching { identifier: "w2".to_string() });
}

#[test]
fn the_drill_policy_opens_a_server_with_one_identifier_at_once() {
    let mut app = sample(ConfirmPolicy::DrillThenLaunch);
    app.deliver(key(KeyCode::Down));
    app.deliver(key(KeyCode::Enter));
    assert_eq!(app.phase(), &Phase::Launching { identifier: "d1".to_string() });
    assert_eq!(app.view_state(), &ViewState::Flat);
}

#[test]
fn back_returns_to_the_server_that_was_drilled_into() {
    let mut app = sample(ConfirmPolicy::DrillThenLaunch);
    app.deliver(key(KeyCode::Down));
    app.deliver(key(KeyCode::Down));
    app.deliver(key(KeyCode::Enter));
    app.deliver(key(KeyCode::Down));
    assert_eq!(app.deliver(key(KeyCode::Esc)), None);
    assert_eq!(app.view_state(), &ViewState::Flat);
    assert_eq!(app.cursor(), 2);
    assert_eq!(app.items(), strings(&["api", "db", "web"]));
}

#[test]
fn back_in_the_flat_view_changes_nothing() {
    let mut app = sample(ConfirmPolicy::DrillThenLaunch);
    app.deliver(key(KeyCode::Down));
    for code in [KeyCode::Esc, KeyCode::Left, KeyCode::Char('h')] {
        app.deliver(key(code));
        assert_eq!(app.view_state(), &ViewState::Flat);
        assert_eq!(app.cursor(), 1);
        assert_eq!(app.phase(), &Phase::Browsing);
    }
}

#[test]
fn the_filter_is_fed_the_visible_names() {
    let mut app = sample(ConfirmPolicy::FlatLaunch);
    assert_eq!(app.deliver(key(KeyCode::Char('/'))), None);
    assert_eq!(app.phase(), &Phase::Filtering);
    assert_eq!(app.pending(), Effect::Match { input: "api\ndb\nweb".to_string() });
}

#[test]
fn a_filter_match_launches_the_primary_identifier() {
    let mut app = sample(ConfirmPolicy::DrillThenLaunch);
    app.deliver(key(KeyCode::Down));
    app.deliver(key(KeyCode::Char('/')));
    assert_eq!(app.deliver(matcher("web\n")), None);
    assert_eq!(app.phase(), &Phase::Launching { identifier: "w1".to_string() });
    assert_eq!(app.cursor(), 1);
    assert_eq!(app.view_state(), &ViewState::Flat);
}

#[test]
fn a_filter_without_a_selection_changes_nothing() {
    let exits = [
        MatcherExit::Finished { success: true, stdout: vec![] },
        MatcherExit::Finished { success: true, stdout: b"\n".to_vec() },
        MatcherExit::Finished { success: false, stdout: vec![] },
        MatcherExit::Finished { success: false, stdout: b"web\n".to_vec() },
        MatcherExit::Finished { success: true, stdout: vec![0xFF] },
    ];
    for exit in exits {
        let mut app = sample(ConfirmPolicy::FlatLaunch);
        app.deliver(key(KeyCode::Down));
        app.deliver(key(KeyCode::Char('/')));
        let fault = app.deliver(Event::MatcherDone { exit });
        assert_eq!(fault, Some(Fault::Filter(FilterError::NoSelection)));
        assert!(matches!(
            &fault,
            Some(f) if f.message() == "No selection made or fzf process failed."
        ));
        assert_eq!(app.phase(), &Phase::Browsing);
        assert_eq!(app.cursor(), 1);
        assert_eq!(app.view_state(), &ViewState::Flat);
        assert_eq!(app.items(), strings(&["api", "db", "web"]));
    }
}

#[test]
fn a_filter_that_did_not_run_changes_nothing() {
    let mut app = sample(ConfirmPolicy::FlatLaunch);
    app.deliver(key(KeyCode::Down));
    app.deliver(key(KeyCode::Char('/')));
    let fault = app.deliver(Event::MatcherDone {
        exit: MatcherExit::Failed { reason: "spawn: not found".to_string() },
    });
    assert_eq!(
        fault,
        Some(Fault::Filter(FilterError::NotRun { reason: "spawn: not found".to_string() }))
    );
    assert!(matches!(&fault, Some(f) if f.message() == "Failed to run fzf: spawn: not found"));
    assert_eq!(app.phase(), &Phase::Browsing);
    assert_eq!(app.cursor(), 1);
}

#[test]
fn a_selection_that_the_view_does_not_know_changes_nothing() {
    let mut app = sample(ConfirmPolicy::FlatLaunch);
    app.deliver(key(KeyCode::Down));
    app.deliver(key(KeyCode::Down));
    app.deliver(key(KeyCode::Char('/')));
    let fault = app.deliver(matcher("w1\n"));
    assert_eq!(fault, Some(Fault::Filter(FilterError::Unknown { selection: "w1".to_string() })));
    assert!(matches!(&fault, Some(f) if f.message() == "Selected server not found in resources."));
    assert_eq!(app.phase(), &Phase::Browsing);
    assert_eq!(app.cursor(), 2);
    assert_eq!(app.view_state(), &ViewState::Flat);
}

#[test]
fn the_filter_in_a_drill_down_selects_among_the_identifiers() {
    let mut app = sample(ConfirmPolicy::DrillThenLaunch);
    app.deliver(key(KeyCode::Enter));
    assert_eq!(app.view_state(), &ViewState::DrillDown { server: "api".to_string() });
    app.deliver(key(KeyCode::Char('/')));
    assert_eq!(app.pending(), Effect::Match { input: "a1\na2\na3".to_string() });
    assert_eq!(app.deliver(matcher("a3\n")), None);
    assert_eq!(app.phase(), &Phase::Launching { identifier: "a3".to_string() });
    assert_eq!(app.view_state(), &ViewState::DrillDown { server: "api".to_string() });
    assert_eq!(app.cursor(), 0);
}

#[test]
fn quit_ends_the_browser() {
    let mut app = sample(ConfirmPolicy::FlatLaunch);
    assert_eq!(app.deliver(key(KeyCode::Char('q'))), None);
    assert!(app.is_exiting());
    assert_eq!(app.pending(), Effect::Stop);
}

#[test]
fn quit_ends_the_browser_from_a_drill_down() {
    let mut app = sample(ConfirmPolicy::DrillThenLaunch);
    app.deliver(key(KeyCode::Enter));
    app.deliver(key(KeyCode::Char('q')));
    assert!(app.is_exiting());
}

#[test]
fn after_the_end_nothing_happens() {
    let mut app = sample(ConfirmPolicy::FlatLaunch);
    app.deliver(key(KeyCode::Down));
    app.deliver(key(KeyCode::Char('q')));
    let events = vec![
        key(KeyCode::Down),
        key(KeyCode::Enter),
        Event::Configured { api_key: None },
        Event::HandshakeDone { token: Ok("other".to_string()) },
        Event::QueryDone { found: Ok(vec![]) },
        Event::InfoDone { infos: Ok(vec![]) },
        matcher("web\n"),
        Event::TerminalDone { reply: TerminalReply::Status { code: 200, body: None } },
    ];
    for event in events {
        assert_eq!(app.deliver(event), None);
        assert!(app.is_exiting());
        assert_eq!(app.cursor(), 1);
        assert_eq!(app.pending(), Effect::Stop);
    }
}

#[test]
fn an_event_that_is_not_awaited_changes_nothing() {
    let mut app = sample(ConfirmPolicy::FlatLaunch);
    app.deliver(key(KeyCode::Down));
    let events = vec![
        Event::Configured { api_key: None },
        Event::HandshakeDone { token: Err(Failure::Network { reason: "late".to_string() }) },
        Event::QueryDone { found: Ok(strings(&["x"])) },
        Event::InfoDone { infos: Ok(vec![named("x")]) },
        matcher("web\n"),
        Event::TerminalDone { reply: TerminalReply::Failed { reason: "late".to_string() } },
    ];
    for event in events {
        assert_eq!(app.deliver(event), None);
        assert_eq!(app.phase(), &Phase::Browsing);
        assert_eq!(app.cursor(), 1);
        assert_eq!(app.items(), strings(&["api", "db", "web"]));
    }
}

#[test]
fn keys_wait_while_a_request_is_under_way() {
    let mut app = App::default();
    app.deliver(Event::Configured { api_key: Some("secret".to_string()) });
    assert_eq!(app.deliver(key(KeyCode::Char('q'))), None);
    assert!(matches!(app.phase(), Phase::Handshaking { .. }));
    assert!(!app.is_exiting());
}

#[test]
fn nested_resources_are_shown_in_the_drill_down() {
    let mut app = App::new(ConfirmPolicy::DrillThenLaunch, Filters::of_type("*"));
    app.deliver(Event::Configured { api_key: Some("secret".to_string()) });
    app.deliver(Event::HandshakeDone { token: Ok("tok".to_string()) });
    assert_eq!(
        app.pending(),
        Effect::Send {
            request: Request::Query {
                token: "tok".to_string(),
                category: "*".to_string(),
                connection: "*".to_string(),
                kind: "*".to_string(),
            }
        }
    );
    app.deliver(Event::QueryDone { found: Ok(strings(&["h1"])) });
    let info = ConnectionInfo {
        name: vec!["host".to_string()],
        raw_data: Some(RawData { container_name: Some("app".to_string()) }),
    };
    app.deliver(Event::InfoDone { infos: Ok(vec![info]) });
    app.deliver(key(KeyCode::Enter));
    assert_eq!(app.view_state(), &ViewState::DrillDown { server: "host".to_string() });
    assert_eq!(app.items(), strings(&["h1", "app"]));
}

#[test]
fn the_configuration_fault_names_the_variable() {
    assert_eq!(
        Fault::Config(ConfigError::MissingCredential).message(),
        "XPIPE_API_KEY environment variable not set"
    );
}
