use xpcli::catalogue::{Catalogue, ConnectionInfo};
use xpcli::navigation::{
    confirm, count, holds, lines, move_down, move_up, position, resolve, Choice, ConfirmPolicy,
    ViewState,
};

fn strings(items: &[&str]) -> Vec<String> {
    items.iter().map(|s| s.to_string()).collect()
}

/// web: [w1, w2], db: [d1], api: [a1, a2, a3]
fn sample() -> Catalogue {
    let names = ["web", "db", "api", "web", "api", "api"];
    let infos: Vec<ConnectionInfo> = names
        .iter()
        .map(|n| ConnectionInfo { name: vec![n.to_string()], raw_data: None })
        .collect();
    let mut catalogue = Catalogue::new();
    catalogue.fold(&infos, &strings(&["w1", "d1", "a1", "w2", "a2", "a3"]));
    catalogue
}

fn drill(server: &str) -> ViewState {
    ViewState::DrillDown { server: server.to_string() }
}

#[test]
fn move_down_steps_and_stops_at_the_last_item() {
    assert_eq!(move_down(0, 3), 1);
    assert_eq!(move_down(1, 3), 2);
    assert_eq!(move_down(2, 3), 2);
}

#[test]
fn move_down_from_every_position_stays_in_the_list() {
    for n in 1..6usize {
        for i in 0..n {
            let next = move_down(i, n);
            assert!(next < n);
            assert_eq!(next, if i == n - 1 { i } else { i + 1 });
        }
        assert_eq!(move_down(n - 1, n), n - 1);
    }
}

#[test]
fn move_down_over_an_empty_list_stays() {
    assert_eq!(move_down(0, 0), 0);
}

#[test]
fn move_down_at_the_largest_index_does_not_overflow() {
    assert_eq!(move_down(usize::MAX, usize::MAX), usize::MAX);
    assert_eq!(move_down(usize::MAX - 1, usize::MAX), usize::MAX - 1);
}

#[test]
fn move_up_steps_and_stops_at_the_top() {
    assert_eq!(move_up(2), 1);
    assert_eq!(move_up(1), 0);
    assert_eq!(move_up(0), 0);
}

#[test]
fn lines_of_the_flat_view_are_the_names() {
    assert_eq!(lines(&sample(), &ViewState::Flat), strings(&["api", "db", "web"]));
    assert_eq!(count(&sample(), &ViewState::Flat), 3);
}

#[test]
fn lines_of_a_drill_down_are_the_identifiers() {
    assert_eq!(lines(&sample(), &drill("api")), strings(&["a1", "a2", "a3"]));
    assert_eq!(count(&sample(), &drill("api")), 3);
    assert_eq!(lines(&sample(), &drill("db")), strings(&["d1"]));
}

#[test]
fn drill_down_into_an_unknown_server_shows_nothing() {
    assert_eq!(lines(&sample(), &drill("nope")), Vec::<String>::new());
    assert_eq!(count(&sample(), &drill("nope")), 0);
}

#[test]
fn an_empty_catalogue_shows_nothing() {
    assert_eq!(lines(&Catalogue::new(), &ViewState::Flat), Vec::<String>::new());
    assert_eq!(count(&Catalogue::new(), &ViewState::Flat), 0);
}

#[test]
fn flat_launch_opens_the_primary_identifier() {
    let catalogue = sample();
    assert_eq!(
        confirm(&catalogue, &ViewState::Flat, 0, ConfirmPolicy::FlatLaunch),
        Choice::Open { identifier: "a1".to_string() }
    );
    assert_eq!(
        confirm(&catalogue, &ViewState::Flat, 1, ConfirmPolicy::FlatLaunch),
        Choice::Open { identifier: "d1".to_string() }
    );
    assert_eq!(
        confirm(&catalogue, &ViewState::Flat, 2, ConfirmPolicy::FlatLaunch),
        Choice::Open { identifier: "w1".to_string() }
    );
}

#[test]
fn drill_policy_drills_into_a_server_with_several_identifiers() {
    let catalogue = sample();
    assert_eq!(
        confirm(&catalogue, &ViewState::Flat, 0, ConfirmPolicy::DrillThenLaunch),
        Choice::Drill { server: "api".to_string() }
    );
    assert_eq!(
        confirm(&catalogue, &ViewState::Flat, 2, ConfirmPolicy::DrillThenLaunch),
        Choice::Drill { server: "web".to_string() }
    );
}

#[test]
fn drill_policy_opens_a_server_with_one_identifier() {
    assert_eq!(
        confirm(&sample(), &ViewState::Flat, 1, ConfirmPolicy::DrillThenLaunch),
        Choice::Open { identifier: "d1".to_string() }
    );
}

#[test]
fn confirm_in_a_drill_down_opens_the_selected_identifier() {
    let catalogue = sample();
    for policy in [ConfirmPolicy::FlatLaunch, ConfirmPolicy::DrillThenLaunch] {
        assert_eq!(
            confirm(&catalogue, &drill("api"), 0, policy),
            Choice::Open { identifier: "a1".to_string() }
        );
        assert_eq!(
            confirm(&catalogue, &drill("api"), 2, policy),
            Choice::Open { identifier: "a3".to_string() }
        );
    }
}

#[test]
fn confirm_on_nothing_stays() {
    let empty = Catalogue::new();
    for policy in [ConfirmPolicy::FlatLaunch, ConfirmPolicy::DrillThenLaunch] {
        assert_eq!(confirm(&empty, &ViewState::Flat, 0, policy), Choice::Stay);
        assert_eq!(confirm(&empty, &drill("web"), 0, policy), Choice::Stay);
        assert_eq!(confirm(&sample(), &drill("nope"), 0, policy), Choice::Stay);
    }
}

#[test]
fn confirm_with_the_cursor_off_the_list_stays() {
    assert_eq!(confirm(&sample(), &ViewState::Flat, 3, ConfirmPolicy::FlatLaunch), Choice::Stay);
    assert_eq!(confirm(&sample(), &drill("db"), 1, ConfirmPolicy::FlatLaunch), Choice::Stay);
    assert_eq!(
        confirm(&sample(), &ViewState::Flat, usize::MAX, ConfirmPolicy::DrillThenLaunch),
        Choice::Stay
    );
}

#[test]
fn a_server_name_resolves_to_its_primary_identifier() {
    let catalogue = sample();
    assert_eq!(resolve(&catalogue, &ViewState::Flat, &"web".to_string()), Some("w1".to_string()));
    assert_eq!(resolve(&catalogue, &ViewState::Flat, &"api".to_string()), Some("a1".to_string()));
}

#[test]
fn an_unknown_name_resolves_to_nothing() {
    let catalogue = sample();
    assert_eq!(resolve(&catalogue, &ViewState::Flat, &"w1".to_string()), None);
    assert_eq!(resolve(&catalogue, &ViewState::Flat, &"".to_string()), None);
    assert_eq!(resolve(&Catalogue::new(), &ViewState::Flat, &"web".to_string()), None);
}

#[test]
fn in_a_drill_down_a_shown_identifier_resolves_to_itself() {
    let catalogue = sample();
    assert_eq!(resolve(&catalogue, &drill("api"), &"a2".to_string()), Some("a2".to_string()));
    assert_eq!(resolve(&catalogue, &drill("api"), &"w1".to_string()), None);
    assert_eq!(resolve(&catalogue, &drill("api"), &"api".to_string()), None);
    assert_eq!(resolve(&catalogue, &drill("nope"), &"a1".to_string()), None);
}

#[test]
fn position_is_the_first_occurrence() {
    let items = strings(&["a", "b", "c", "b"]);
    assert_eq!(position(&items, &"a".to_string()), 0);
    assert_eq!(position(&items, &"b".to_string()), 1);
    assert_eq!(position(&items, &"c".to_string()), 2);
}

#[test]
fn position_of_a_stranger_is_the_top() {
    assert_eq!(position(&strings(&["a", "b"]), &"z".to_string()), 0);
    assert_eq!(position(&vec![], &"z".to_string()), 0);
}

#[test]
fn holds_finds_what_is_there() {
    let items = strings(&["a", "b"]);
    assert!(holds(&items, &"b".to_string()));
    assert!(!holds(&items, &"c".to_string()));
    assert!(!holds(&vec![], &"a".to_string()));
}
