use zj_smart_sessions::action::Action;
use zj_smart_sessions::records::{PaneGroup, PaneRecord, SessionRecord, TabRecord};
use zj_smart_sessions::session_tree::SessionList;

fn pane(title: &str, id: u32, selectable: bool) -> PaneRecord {
    PaneRecord { title: title.to_owned(), id, is_selectable: selectable }
}

fn tab(name: &str, position: usize) -> TabRecord {
    TabRecord { name: name.to_owned(), position }
}

fn session(name: &str, clients: usize, tabs: Vec<TabRecord>, groups: Vec<PaneGroup>) -> SessionRecord {
    SessionRecord { name: name.to_owned(), connected_clients: clients, tabs, pane_groups: groups }
}

fn alpha_beta() -> Vec<SessionRecord> {
    vec![
        session(
            "alpha",
            2,
            vec![tab("xterm", 0), tab("ytab", 1)],
            vec![
                PaneGroup { position: 0, panes: vec![pane("editor", 7, true), pane("status", 8, false)] },
                PaneGroup { position: 1, panes: vec![pane("logs", 9, true)] },
            ],
        ),
        session(
            "beta",
            0,
            vec![tab("main", 0)],
            vec![PaneGroup { position: 0, panes: vec![pane("shell", 11, true)] }],
        ),
    ]
}

#[test]
fn query_a_keeps_alpha_drops_beta() {
    let mut list = SessionList::new();
    list.update_sessions(alpha_beta());
    list.filter("a");
    assert_eq!(list.filtered_sessions, vec![0]);
    assert_eq!(list.selected_session_index, 0);
    assert!(!list.session_is_expanded);
}

#[test]
fn empty_query_view_is_identity_of_snapshot() {
    let mut list = SessionList::new();
    list.update_sessions(alpha_beta());
    list.filter("");
    assert_eq!(list.filtered_sessions, vec![0, 1]);
    let rows = list.get_list();
    assert_eq!(rows.len(), 2);
    assert_eq!(rows[0].text, "alpha (2 tabs, 2 panes) [2 connected users]");
    assert_eq!(rows[1].text, "beta (1 tabs, 1 panes) [0 connected users]");
    assert!(rows[0].highlights.is_empty());
    assert!(rows[0].selected);
    assert!(!rows[1].selected);
}

#[test]
fn two_level_query_expands_session_and_filters_tabs() {
    let mut list = SessionList::new();
    list.update_sessions(alpha_beta());
    list.filter("al x");
    assert_eq!(list.filtered_sessions, vec![0]);
    assert!(list.session_is_expanded);
    assert_eq!(list.filtered_tabs, vec![0]);
    assert!(!list.tab_is_expanded);
}

#[test]
fn three_level_query_expands_tabs_too() {
    let mut list = SessionList::new();
    list.update_sessions(alpha_beta());
    list.filter("al x ed");
    assert!(list.session_is_expanded);
    assert!(list.tab_is_expanded);
    assert_eq!(list.filtered_tabs, vec![0]);
    assert_eq!(list.filtered_panes, vec![0]);
}

#[test]
fn transition_to_empty_query_collapses() {
    let mut list = SessionList::new();
    list.update_sessions(alpha_beta());
    list.filter("al x");
    assert!(list.session_is_expanded);
    list.filter("");
    assert!(!list.session_is_expanded);
    assert!(!list.tab_is_expanded);
    assert_eq!(list.filtered_sessions, vec![0, 1]);
}

#[test]
fn update_sessions_preserves_typed_query() {
    let mut list = SessionList::new();
    list.update_sessions(alpha_beta());
    list.filter("a");
    assert_eq!(list.filtered_sessions, vec![0]);
    list.update_sessions(alpha_beta());
    assert_eq!(list.search_query, "a");
    assert_eq!(list.filtered_sessions, vec![0]);
}

#[test]
fn select_next_wraps_around_to_start() {
    let mut list = SessionList::new();
    let mut sessions = alpha_beta();
    sessions.push(session("gamma", 1, vec![tab("t", 0)], vec![]));
    list.update_sessions(sessions);
    list.filter("");
    assert_eq!(list.selected_session_index, 0);
    list.select_next();
    assert_eq!(list.selected_session_index, 1);
    list.select_next();
    assert_eq!(list.selected_session_index, 2);
    list.select_next();
    assert_eq!(list.selected_session_index, 0);
}

#[test]
fn select_prev_wraps_backward() {
    let mut list = SessionList::new();
    list.update_sessions(alpha_beta());
    list.filter("");
    list.select_prev();
    assert_eq!(list.selected_session_index, 1);
    list.select_prev();
    assert_eq!(list.selected_session_index, 0);
}

#[test]
fn navigation_on_empty_filtered_view_is_a_no_op() {
    let mut list = SessionList::new();
    list.update_sessions(alpha_beta());
    list.filter("zzz");
    assert_eq!(list.filtered_sessions, Vec::<usize>::new());
    list.select_next();
    assert_eq!(list.selected_session_index, 0);
    list.select_prev();
    assert_eq!(list.selected_session_index, 0);
}

#[test]
fn pane_navigation_counts_only_selectable_panes() {
    let mut list = SessionList::new();
    list.update_sessions(alpha_beta());
    list.filter("");
    list.expand();
    list.expand();
    // the group at the selected tab has one selectable of two panes
    assert_eq!(list.selected_pane_index, 0);
    list.select_next();
    assert_eq!(list.selected_pane_index, 0);
}

#[test]
fn expand_then_shrink_keeps_indices() {
    let mut list = SessionList::new();
    list.update_sessions(alpha_beta());
    list.filter("");
    list.select_next();
    list.expand();
    assert!(list.session_is_expanded);
    assert_eq!(list.selected_tab_index, 0);
    let (s, t, p) = (
        list.selected_session_index,
        list.selected_tab_index,
        list.selected_pane_index,
    );
    list.shrink();
    assert_eq!(
        (list.selected_session_index, list.selected_tab_index, list.selected_pane_index),
        (s, t, p)
    );
    assert!(!list.session_is_expanded);
    list.expand();
    assert_eq!(
        (list.selected_session_index, list.selected_tab_index, list.selected_pane_index),
        (s, t, p)
    );
}

#[test]
fn attach_selected_resolves_the_whole_chain() {
    let mut list = SessionList::new();
    list.update_sessions(alpha_beta());
    list.filter("");
    match list.attach_selected() {
        Some(Action::SwitchFocus { session, tab_position, pane_id }) => {
            assert_eq!(session, "alpha");
            assert_eq!(tab_position, 0);
            assert_eq!(pane_id, 7);
        },
        _ => panic!("expected a focus switch"),
    }
}

#[test]
fn attach_selected_fails_soft_when_nothing_matches() {
    let mut list = SessionList::new();
    list.update_sessions(alpha_beta());
    list.filter("zzz");
    assert!(list.attach_selected().is_none());
}

#[test]
fn delete_selected_names_the_selected_session() {
    let mut list = SessionList::new();
    list.update_sessions(alpha_beta());
    list.filter("");
    list.select_next();
    match list.delete_selected() {
        Some(Action::Kill { session }) => assert_eq!(session, "beta"),
        _ => panic!("expected a kill signal"),
    }
}

#[test]
fn expanded_list_shows_tabs_under_selected_session() {
    let mut list = SessionList::new();
    list.update_sessions(alpha_beta());
    list.filter("");
    list.expand();
    let rows = list.get_list();
    // alpha, its two tabs, then beta
    assert_eq!(rows.len(), 4);
    assert_eq!(rows[1].text, "xterm (1 panes)");
    assert_eq!(rows[1].indent, 1);
    assert!(rows[1].selected);
    assert_eq!(rows[2].text, "ytab (1 panes)");
    assert_eq!(rows[3].text, "beta (1 tabs, 1 panes) [0 connected users]");
    assert_eq!(rows[3].indent, 0);
}

#[test]
fn fully_expanded_list_shows_panes_of_selected_tab() {
    let mut list = SessionList::new();
    list.update_sessions(alpha_beta());
    list.filter("");
    list.expand();
    list.expand();
    let rows = list.get_list();
    // alpha, xterm, its two panes, ytab, beta
    assert_eq!(rows.len(), 6);
    assert_eq!(rows[2].text, "editor");
    assert_eq!(rows[2].indent, 2);
    assert!(rows[2].selected);
    assert_eq!(rows[3].text, "status");
    assert!(!rows[3].selected);
}

#[test]
fn trailing_space_expands_session_with_all_tabs() {
    let mut list = SessionList::new();
    list.update_sessions(alpha_beta());
    list.filter("alpha ");
    assert!(list.session_is_expanded);
    assert!(!list.tab_is_expanded);
    assert_eq!(list.filtered_sessions, vec![0]);
    assert_eq!(list.filtered_tabs, vec![0, 1]);
}

#[test]
fn pane_selection_wraps_over_selectable_panes() {
    let mut list = SessionList::new();
    list.update_sessions(vec![session(
        "solo",
        0,
        vec![tab("main", 3)],
        vec![PaneGroup {
            position: 3,
            panes: vec![pane("one", 1, true), pane("two", 2, true)],
        }],
    )]);
    list.filter("");
    list.expand();
    list.expand();
    list.select_next();
    assert_eq!(list.selected_pane_index, 1);
    list.select_next();
    assert_eq!(list.selected_pane_index, 0);
}

#[test]
fn closer_session_names_rank_first() {
    let mut list = SessionList::new();
    list.update_sessions(vec![
        session("ab", 0, vec![], vec![]),
        session("abc", 0, vec![], vec![]),
    ]);
    list.filter("abc");
    assert_eq!(list.filtered_sessions, vec![1, 0]);
}

#[test]
fn equal_scores_keep_snapshot_order_once_each() {
    let mut list = SessionList::new();
    list.update_sessions(vec![
        session("twin", 0, vec![], vec![]),
        session("twin", 1, vec![], vec![]),
    ]);
    list.filter("twin");
    assert_eq!(list.filtered_sessions, vec![0, 1]);
}

#[test]
fn labels_render_multi_digit_counts() {
    let mut list = SessionList::new();
    let tabs: Vec<TabRecord> = (0..12).map(|i| tab("t", i)).collect();
    list.update_sessions(vec![session("big", 42, tabs, vec![])]);
    list.filter("");
    let rows = list.get_list();
    assert_eq!(rows[0].text, "big (12 tabs, 0 panes) [42 connected users]");
}

#[test]
fn filter_on_empty_snapshot_is_a_no_op() {
    let mut list = SessionList::new();
    list.filter("anything");
    assert_eq!(list.search_query, "");
    assert_eq!(list.filtered_sessions, Vec::<usize>::new());
}
