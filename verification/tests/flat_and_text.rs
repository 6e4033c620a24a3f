use zj_smart_sessions::action::Action;
use zj_smart_sessions::commandline::{commandline_parser, query_list};
use zj_smart_sessions::flat_list::NewSessionList;
use zj_smart_sessions::records::{PaneGroup, PaneRecord, SessionRecord, TabRecord};

fn running(name: &str) -> SessionRecord {
    SessionRecord {
        name: name.to_owned(),
        connected_clients: 1,
        tabs: vec![TabRecord { name: "main".to_owned(), position: 0 }],
        pane_groups: vec![
            PaneGroup {
                position: 0,
                panes: vec![PaneRecord { title: "shell".to_owned(), id: 1, is_selectable: true }],
            },
        ],
    }
}

fn strings(items: &[&str]) -> Vec<String> {
    items.iter().map(|s| (*s).to_owned()).collect()
}

#[test]
fn create_or_attach_derives_identifier_from_path() {
    let mut list = NewSessionList::new();
    list.update_list(strings(&["proj/a/", "proj/b/"]));
    match list.create_or_attach() {
        Some(Action::SwitchOrCreate { name, working_directory }) => {
            assert_eq!(name, "a");
            assert_eq!(working_directory, "proj/a");
        },
        _ => panic!("expected a switch-or-create signal"),
    }
}

#[test]
fn derived_name_replaces_dots_with_underscores() {
    let mut list = NewSessionList::new();
    list.update_list(strings(&["work/my.app/"]));
    match list.create_or_attach() {
        Some(Action::SwitchOrCreate { name, working_directory }) => {
            assert_eq!(name, "my_app");
            assert_eq!(working_directory, "work/my.app");
        },
        _ => panic!("expected a switch-or-create signal"),
    }
}

#[test]
fn missing_cache_leaves_candidates_empty() {
    let mut list = NewSessionList::new();
    list.load_cache(None);
    assert!(list.list.is_empty());
    list.filter("");
    assert!(list.filtered_list.is_empty());
    let rows = list.get_list(10);
    assert!(rows.is_empty());
}

#[test]
fn cache_contents_are_split_on_newlines() {
    let mut list = NewSessionList::new();
    list.load_cache(Some("proj/a/\nproj/b/".to_owned()));
    assert_eq!(list.list, strings(&["proj/a/", "proj/b/"]));
    assert_eq!(list.filtered_list.len(), 2);
    assert_eq!(list.save_cache(), "proj/a/\nproj/b/");
}

#[test]
fn empty_query_keeps_order_and_membership() {
    let mut list = NewSessionList::new();
    list.update_list(strings(&["bb", "aa", "cc"]));
    list.filter("");
    let idxs: Vec<usize> = list.filtered_list.iter().map(|m| m.index).collect();
    assert_eq!(idxs, vec![0, 1, 2]);
    assert!(list.filtered_list.iter().all(|m| m.positions.is_empty()));
}

#[test]
fn non_matching_candidates_are_dropped() {
    let mut list = NewSessionList::new();
    list.update_list(strings(&["xy", "ab"]));
    list.filter("ab");
    let idxs: Vec<usize> = list.filtered_list.iter().map(|m| m.index).collect();
    assert_eq!(idxs, vec![1]);
}

#[test]
fn match_positions_point_at_matched_characters() {
    let mut list = NewSessionList::new();
    list.update_list(strings(&["abc"]));
    list.filter("ac");
    assert_eq!(list.filtered_list.len(), 1);
    assert_eq!(list.filtered_list[0].positions, vec![0, 2]);
}

#[test]
fn better_matches_come_first() {
    let mut list = NewSessionList::new();
    list.update_list(strings(&["a-x-b-y-c", "abc"]));
    list.filter("abc");
    let idxs: Vec<usize> = list.filtered_list.iter().map(|m| m.index).collect();
    assert_eq!(idxs, vec![1, 0]);
    assert!(list.filtered_list[0].score >= list.filtered_list[1].score);
}

#[test]
fn select_next_clamps_at_height_cap() {
    let mut list = NewSessionList::new();
    list.update_list(strings(&["a", "b", "c", "d", "e"]));
    list.filter("");
    let _ = list.get_list(2);
    for _ in 0..10 {
        list.select_next();
    }
    // never past min(length - 1, height)
    assert_eq!(list.selected_item_index, 2);
}

#[test]
fn select_next_clamps_at_last_row_without_cap() {
    let mut list = NewSessionList::new();
    list.update_list(strings(&["a", "b"]));
    list.filter("");
    for _ in 0..5 {
        list.select_next();
    }
    assert_eq!(list.selected_item_index, 1);
}

#[test]
fn select_prev_saturates_at_zero() {
    let mut list = NewSessionList::new();
    list.update_list(strings(&["a", "b"]));
    list.filter("");
    list.select_next();
    list.select_prev();
    assert_eq!(list.selected_item_index, 0);
    list.select_prev();
    assert_eq!(list.selected_item_index, 0);
}

#[test]
fn window_holds_at_most_height_plus_one_rows() {
    let mut list = NewSessionList::new();
    list.update_list(strings(&["a", "b", "c", "d", "e"]));
    list.filter("");
    // `height` is the maximum visible row index: one extra row leads ahead
    let rows = list.get_list(2);
    assert_eq!(rows.len(), 3);
    let rows = list.get_list(10);
    assert_eq!(rows.len(), 5);
}

#[test]
fn running_sessions_are_annotated_in_rows() {
    let mut list = NewSessionList::new();
    list.update_list(strings(&["proj/a/", "proj/b/"]));
    list.update_sessions(vec![running("a")]);
    let rows = list.get_list(5);
    assert_eq!(rows[0].text, "a (1 tabs, 1 panes) [1 connected users]");
    assert!(rows[0].highlights.is_empty());
    assert_eq!(rows[1].text, "b");
    assert!(rows[0].selected);
    assert!(!rows[1].selected);
}

#[test]
fn delete_selected_kills_only_running_sessions() {
    let mut list = NewSessionList::new();
    list.update_list(strings(&["proj/a/", "proj/b/"]));
    list.update_sessions(vec![running("a")]);
    match list.delete_selected() {
        Some(Action::Kill { session }) => assert_eq!(session, "a"),
        _ => panic!("expected a kill signal"),
    }
    list.select_next();
    assert!(list.delete_selected().is_none());
}

#[test]
fn filter_with_empty_list_is_a_no_op() {
    let mut list = NewSessionList::new();
    list.filter("abc");
    assert_eq!(list.search_query, "");
    assert!(list.filtered_list.is_empty());
}

#[test]
fn has_list_needs_both_inputs() {
    let mut list = NewSessionList::new();
    assert!(!list.has_list());
    list.update_list(strings(&["p/"]));
    assert!(!list.has_list());
    list.update_sessions(vec![running("p")]);
    assert!(list.has_list());
}

#[test]
fn lexer_splits_on_spaces() {
    assert_eq!(commandline_parser("find . -type d"), strings(&["find", ".", "-type", "d"]));
}

#[test]
fn lexer_keeps_quoted_groups_together() {
    // closing a group flushes the token; the following space then flushes
    // the emptied buffer, so an empty token trails each quoted group
    assert_eq!(
        commandline_parser("grep 'a b' \"c d\" e"),
        strings(&["grep", "a b", "", "c d", "", "e"])
    );
}

#[test]
fn lexer_preserves_escapes_with_their_backslash() {
    assert_eq!(commandline_parser("a\\ b"), strings(&["a\\ b"]));
}

#[test]
fn lexer_flushes_unterminated_group() {
    assert_eq!(commandline_parser("echo 'open end"), strings(&["echo", "open end"]));
}

#[test]
fn lexer_emits_empty_tokens_between_double_spaces() {
    assert_eq!(commandline_parser("a  b"), strings(&["a", "", "b"]));
}

#[test]
fn query_list_carries_the_lexed_argv() {
    match query_list("fd -t d .") {
        Action::RunCommand { argv } => assert_eq!(argv, strings(&["fd", "-t", "d", "."])),
        _ => panic!("expected a run-command signal"),
    }
}
