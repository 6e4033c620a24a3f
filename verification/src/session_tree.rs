//! The hierarchical filter-and-selection engine: a three-level tree of
//! sessions, tabs and panes filtered against one query string split on
//! whitespace into per-level sub-queries.  The engine owns per-level
//! selection indices and expand/collapse state, navigates with circular
//! wraparound, and flattens its state into an indented display list.
//!
//! Filtered views are index views: each level holds positions into its
//! source collection (the snapshot for sessions, the selected session's tabs
//! for tabs, the owning pane group for panes).  A stored position that no
//! longer resolves after the source shrank is treated as "nothing to show":
//! every lookup is guarded and a failed lookup makes the operation a no-op
//! for that level.

use vstd::prelude::*;

use crate::action::{Action, DisplayRow, RowModel};
use crate::matching::{identity_seq, identity_indices, rank_to_indices, ranked_index_view};
use crate::records::{
    spec_group_at, spec_selectable_count, PaneGroup, SessionRecord, TabRecord,
};
use crate::text::{query_head, query_rest, split_first_space, contains_char, spec_decimal};

verus! {

/// The hierarchical engine.
pub struct SessionList {
    /// The snapshot, replaced wholesale on every update.
    pub sessions: Vec<SessionRecord>,
    /// The session-level view: positions into `sessions`.
    pub filtered_sessions: Vec<usize>,
    /// The tab-level view: positions into the selected session's tabs.
    pub filtered_tabs: Vec<usize>,
    /// The pane-level view: positions into the selected tab's pane group.
    pub filtered_panes: Vec<usize>,
    pub selected_session_index: usize,
    pub selected_tab_index: usize,
    pub selected_pane_index: usize,
    /// The query the views were last filtered with.
    pub search_query: String,
    /// Whether the selected session's tabs are rendered and navigable.
    pub session_is_expanded: bool,
    /// Whether the selected tab's panes are rendered and navigable.
    pub tab_is_expanded: bool,
}

impl SessionList {
    /// The expansion state forms a strict hierarchy: panes can only be
    /// entered below an entered session.
    pub open spec fn wf(&self) -> bool {
        self.tab_is_expanded ==> self.session_is_expanded
    }

    /// The snapshot session the session-level selection points at, if it
    /// resolves.
    pub open spec fn selected_session(&self) -> Option<SessionRecord> {
        if self.selected_session_index >= self.filtered_sessions@.len() {
            None
        } else if self.filtered_sessions@[self.selected_session_index as int]
            >= self.sessions@.len() {
            None
        } else {
            Some(self.sessions@[self.filtered_sessions@[self.selected_session_index as int] as int])
        }
    }

    /// The tab the tab-level selection points at within `sess`, if it
    /// resolves.
    pub open spec fn selected_tab_of(&self, sess: SessionRecord) -> Option<TabRecord> {
        if self.selected_tab_index >= self.filtered_tabs@.len() {
            None
        } else if self.filtered_tabs@[self.selected_tab_index as int] >= sess.tabs@.len() {
            None
        } else {
            Some(sess.tabs@[self.filtered_tabs@[self.selected_tab_index as int] as int])
        }
    }

    /// The pane group owning the selected tab's panes, if the whole chain
    /// session, tab, group resolves.
    pub open spec fn selected_group(&self) -> Option<PaneGroup> {
        match self.selected_session() {
            None => None,
            Some(sess) => match self.selected_tab_of(sess) {
                None => None,
                Some(tab) => match spec_group_at(sess.pane_groups@, tab.position) {
                    None => None,
                    Some(gi) => Some(sess.pane_groups@[gi]),
                },
            },
        }
    }

    /// Which level navigation works on: the deepest expanded one.
    pub open spec fn nav_level(&self) -> int {
        if !self.session_is_expanded {
            0
        } else if !self.tab_is_expanded {
            1
        } else {
            2
        }
    }

    /// The length navigation wraps modulo: the filtered length of the active
    /// level; at the pane level only selectable panes count, and an
    /// unresolvable chain counts as empty.
    pub open spec fn nav_len(&self) -> int {
        if self.nav_level() == 0 {
            self.filtered_sessions@.len() as int
        } else if self.nav_level() == 1 {
            self.filtered_tabs@.len() as int
        } else {
            match self.selected_group() {
                None => 0,
                Some(g) => spec_selectable_count(g.panes@),
            }
        }
    }

    /// The selection index of the active level.
    pub open spec fn nav_index(&self) -> int {
        if self.nav_level() == 0 {
            self.selected_session_index as int
        } else if self.nav_level() == 1 {
            self.selected_tab_index as int
        } else {
            self.selected_pane_index as int
        }
    }

    /// `self` with the active level's selection index set to `i`.
    pub open spec fn with_nav_index(&self, i: usize) -> SessionList {
        if self.nav_level() == 0 {
            SessionList { selected_session_index: i, ..*self }
        } else if self.nav_level() == 1 {
            SessionList { selected_tab_index: i, ..*self }
        } else {
            SessionList { selected_pane_index: i, ..*self }
        }
    }

    /// A fresh engine: empty snapshot, empty views, empty query, everything
    /// collapsed.
    pub fn new() -> (r: Self)
        ensures
            r.wf(),
            r.sessions@.len() == 0,
            r.filtered_sessions@.len() == 0,
            r.filtered_tabs@.len() == 0,
            r.filtered_panes@.len() == 0,
            r.selected_session_index == 0,
            r.selected_tab_index == 0,
            r.selected_pane_index == 0,
            r.search_query@.len() == 0,
            !r.session_is_expanded,
            !r.tab_is_expanded,
    {
        SessionList {
            sessions: Vec::new(),
            filtered_sessions: Vec::new(),
            filtered_tabs: Vec::new(),
            filtered_panes: Vec::new(),
            selected_session_index: 0,
            selected_tab_index: 0,
            selected_pane_index: 0,
            search_query: String::new(),
            session_is_expanded: false,
            tab_is_expanded: false,
        }
    }

    /// Enter one level deeper: entering the tab level resets the tab
    /// selection, entering (or re-entering) the pane level resets the pane
    /// selection.
    pub fn expand(&mut self)
        requires
            old(self).wf(),
        ensures
            final(self).wf(),
            *final(self) == spec_expand(*old(self)),
    {
        if !self.session_is_expanded {
            self.session_is_expanded = true;
            self.selected_tab_index = 0;
        } else {
            self.tab_is_expanded = true;
            self.selected_pane_index = 0;
        }
    }

    /// Leave the deepest entered level: panes collapse back to tabs first,
    /// else tabs collapse back to sessions.  Selection indices stay as they
    /// were.
    pub fn shrink(&mut self)
        requires
            old(self).wf(),
        ensures
            final(self).wf(),
            *final(self) == spec_shrink(*old(self)),
    {
        if self.tab_is_expanded {
            self.tab_is_expanded = false;
        } else {
            self.session_is_expanded = false;
        }
    }

    /// Move the selection of the deepest expanded level one step down,
    /// wrapping around past the end.  A no-op on an empty snapshot or when
    /// the active level's list is empty or unresolvable.
    pub fn select_next(&mut self)
        requires
            old(self).wf(),
        ensures
            final(self).wf(),
            ({
                let pre = *old(self);
                if pre.sessions@.len() == 0 || pre.nav_len() == 0 {
                    *final(self) == pre
                } else {
                    *final(self) == pre.with_nav_index(
                        ((pre.nav_index() + 1) % pre.nav_len()) as usize,
                    )
                }
            }),
    {
        if self.sessions.len() == 0 {
            return;
        }
        let len = self.active_len();
        if len == 0 {
            return;
        }
        let i = self.active_index();
        let next = step_forward(i, len);
        self.set_active_index(next);
    }

    /// Move the selection of the deepest expanded level one step up,
    /// wrapping around past the start.  A no-op on an empty snapshot or when
    /// the active level's list is empty or unresolvable.
    pub fn select_prev(&mut self)
        requires
            old(self).wf(),
        ensures
            final(self).wf(),
            ({
                let pre = *old(self);
                if pre.sessions@.len() == 0 || pre.nav_len() == 0 {
                    *final(self) == pre
                } else {
                    *final(self) == pre.with_nav_index(
                        ((pre.nav_index() - 1) % pre.nav_len()) as usize,
                    )
                }
            }),
    {
        if self.sessions.len() == 0 {
            return;
        }
        let len = self.active_len();
        if len == 0 {
            return;
        }
        let i = self.active_index();
        let prev = step_backward(i, len);
        self.set_active_index(prev);
    }

    /// The filtered length of the active level, with unresolvable pane
    /// chains counting as empty.
    fn active_len(&self) -> (r: usize)
        ensures
            r == self.nav_len(),
    {
        if !self.session_is_expanded {
            self.filtered_sessions.len()
        } else if !self.tab_is_expanded {
            self.filtered_tabs.len()
        } else {
            if self.selected_session_index >= self.filtered_sessions.len() {
                return 0;
            }
            let si = self.filtered_sessions[self.selected_session_index];
            if si >= self.sessions.len() {
                return 0;
            }
            if self.selected_tab_index >= self.filtered_tabs.len() {
                return 0;
            }
            let ti = self.filtered_tabs[self.selected_tab_index];
            if ti >= self.sessions[si].tabs.len() {
                return 0;
            }
            let position = self.sessions[si].tabs[ti].position;
            match self.sessions[si].group_at(position) {
                None => 0,
                Some(group) => {
                    proof {
                        crate::records::lemma_group_at(
                            self.sessions@[si as int].pane_groups@,
                            position,
                        );
                    }
                    group.selectable_count()
                },
            }
        }
    }

    /// The selection index of the active level.
    fn active_index(&self) -> (r: usize)
        ensures
            r == self.nav_index(),
    {
        if !self.session_is_expanded {
            self.selected_session_index
        } else if !self.tab_is_expanded {
            self.selected_tab_index
        } else {
            self.selected_pane_index
        }
    }

    /// Store `i` as the selection index of the active level.
    fn set_active_index(&mut self, i: usize)
        ensures
            *final(self) == old(self).with_nav_index(i),
    {
        if !self.session_is_expanded {
            self.selected_session_index = i;
        } else if !self.tab_is_expanded {
            self.selected_tab_index = i;
        } else {
            self.selected_pane_index = i;
        }
    }

    /// Resolve the selected session, tab and pane and signal a focus switch
    /// to that coordinate; `None`, with no effect, when any of the three no
    /// longer resolves.
    pub fn attach_selected(&self) -> (r: Option<Action>)
        ensures
            match r {
                Some(a) => match self.spec_attach_target() {
                    Some(t) => a matches Action::SwitchFocus { session, tab_position, pane_id }
                        && session@ == t.0 && tab_position == t.1 && pane_id == t.2,
                    None => false,
                },
                None => self.spec_attach_target() is None,
            },
    {
        if self.selected_session_index >= self.filtered_sessions.len() {
            return None;
        }
        let si = self.filtered_sessions[self.selected_session_index];
        if si >= self.sessions.len() {
            return None;
        }
        if self.selected_tab_index >= self.filtered_tabs.len() {
            return None;
        }
        let ti = self.filtered_tabs[self.selected_tab_index];
        if ti >= self.sessions[si].tabs.len() {
            return None;
        }
        let position = self.sessions[si].tabs[ti].position;
        let group = match self.sessions[si].group_at(position) {
            None => {
                return None;
            },
            Some(g) => g,
        };
        proof {
            crate::records::lemma_group_at(self.sessions@[si as int].pane_groups@, position);
        }
        if self.selected_pane_index >= self.filtered_panes.len() {
            return None;
        }
        let pi = self.filtered_panes[self.selected_pane_index];
        if pi >= group.panes.len() {
            return None;
        }
        Some(
            Action::SwitchFocus {
                session: self.sessions[si].name.clone(),
                tab_position: position,
                pane_id: group.panes[pi].id,
            },
        )
    }

    /// The coordinate `attach_selected` resolves to: the selected session's
    /// name, the selected tab's position, and the selected pane's id.
    pub open spec fn spec_attach_target(&self) -> Option<(Seq<char>, usize, u32)> {
        match self.selected_session() {
            None => None,
            Some(sess) => match self.selected_tab_of(sess) {
                None => None,
                Some(tab) => match spec_group_at(sess.pane_groups@, tab.position) {
                    None => None,
                    Some(gi) => {
                        let panes = sess.pane_groups@[gi].panes@;
                        if self.selected_pane_index >= self.filtered_panes@.len() {
                            None
                        } else if self.filtered_panes@[self.selected_pane_index as int]
                            >= panes.len() {
                            None
                        } else {
                            Some(
                                (
                                    sess.name@,
                                    tab.position,
                                    panes[self.filtered_panes@[self.selected_pane_index as int] as int].id,
                                ),
                            )
                        }
                    },
                },
            },
        }
    }

    /// Signal termination of the currently selected filtered session;
    /// `None`, with no effect, when the selection no longer resolves.
    pub fn delete_selected(&self) -> (r: Option<Action>)
        ensures
            match r {
                Some(a) => match self.selected_session() {
                    Some(sess) => a matches Action::Kill { session } && session@ == sess.name@,
                    None => false,
                },
                None => self.selected_session() is None,
            },
    {
        if self.selected_session_index >= self.filtered_sessions.len() {
            return None;
        }
        let si = self.filtered_sessions[self.selected_session_index];
        if si >= self.sessions.len() {
            return None;
        }
        Some(Action::Kill { session: self.sessions[si].name.clone() })
    }
}

/// The pane-level fields are unchanged.
pub open spec fn pane_level_unchanged(pre: SessionList, post: SessionList) -> bool {
    &&& post.filtered_panes@ == pre.filtered_panes@
    &&& post.selected_pane_index == pre.selected_pane_index
}

/// The tab-level and pane-level fields are unchanged.
pub open spec fn tab_pane_unchanged(pre: SessionList, post: SessionList) -> bool {
    &&& pane_level_unchanged(pre, post)
    &&& post.filtered_tabs@ == pre.filtered_tabs@
    &&& post.selected_tab_index == pre.selected_tab_index
}

/// How the pane level is recomputed for pane sub-query `pq`, given the
/// session level view `fsess`/`ssi` over `sessions` and the tab level view
/// `ftabs`/`sti`: a no-op when the chain down to the owning pane group does
/// not resolve; the identity view of the group with the pane selection kept
/// when `pq` is empty; else the group's titles ranked by the trigram matcher
/// with the pane selection reset.
pub open spec fn pane_filter_post(
    sessions: Seq<SessionRecord>,
    fsess: Seq<usize>,
    ssi: int,
    ftabs: Seq<usize>,
    sti: int,
    pq: Seq<char>,
    pre: SessionList,
    post: SessionList,
) -> bool {
    if ssi >= fsess.len() || fsess[ssi] as int >= sessions.len() {
        pane_level_unchanged(pre, post)
    } else {
        let sess = sessions[fsess[ssi] as int];
        if sti >= ftabs.len() || ftabs[sti] as int >= sess.tabs@.len() {
            pane_level_unchanged(pre, post)
        } else {
            let tab = sess.tabs@[ftabs[sti] as int];
            match spec_group_at(sess.pane_groups@, tab.position) {
                None => pane_level_unchanged(pre, post),
                Some(gi) => {
                    let panes = sess.pane_groups@[gi].panes@;
                    if pq.len() == 0 {
                        &&& post.filtered_panes@ == identity_seq(panes.len() as int)
                        &&& post.selected_pane_index == pre.selected_pane_index
                    } else {
                        &&& ranked_index_view(
                            pq,
                            panes.map_values(|p: crate::records::PaneRecord| p.title@),
                            post.filtered_panes@,
                        )
                        &&& post.selected_pane_index == 0
                    }
                },
            }
        }
    }
}

/// How the tab level (and below it the pane level) is recomputed for the
/// remainder `rest` of the query, against the selected filtered session: a
/// no-op when the session selection does not resolve; the identity view of
/// the session's tabs when `rest` is empty; else the tab names ranked
/// against the head of `rest` with the tab selection reset, and the pane
/// level recomputed with the rest of `rest`.
pub open spec fn tab_filter_post(
    sessions: Seq<SessionRecord>,
    fsess: Seq<usize>,
    ssi: int,
    rest: Seq<char>,
    pre: SessionList,
    post: SessionList,
) -> bool {
    if ssi >= fsess.len() || fsess[ssi] as int >= sessions.len() {
        tab_pane_unchanged(pre, post)
    } else {
        let sess = sessions[fsess[ssi] as int];
        &&& if rest.len() == 0 {
            &&& post.filtered_tabs@ == identity_seq(sess.tabs@.len() as int)
            &&& post.selected_tab_index == pre.selected_tab_index
        } else {
            &&& ranked_index_view(
                query_head(rest),
                sess.tabs@.map_values(|t: TabRecord| t.name@),
                post.filtered_tabs@,
            )
            &&& post.selected_tab_index == 0
        }
        &&& pane_filter_post(
            sessions,
            fsess,
            ssi,
            post.filtered_tabs@,
            post.selected_tab_index as int,
            query_rest(rest),
            pre,
            post,
        )
    }
}

/// What `filter` does: a guarded no-op on an empty snapshot; else the query
/// is remembered, the session level becomes the identity of the snapshot
/// (empty query, with auto-expansion forced off only on the transition from
/// a non-empty to an empty query) or the snapshot's names ranked against the
/// query's first token with the selection reset and auto-expansion driven by
/// which deeper tokens were typed, and the tab and pane levels are
/// recomputed below it.
pub open spec fn filter_post(pre: SessionList, q: Seq<char>, post: SessionList) -> bool {
    if pre.sessions@.len() == 0 {
        post == pre
    } else {
        &&& post.sessions == pre.sessions
        &&& post.search_query@ == q
        &&& if q.len() == 0 {
            &&& post.filtered_sessions@ == identity_seq(pre.sessions@.len() as int)
            &&& post.selected_session_index == pre.selected_session_index
            &&& post.session_is_expanded == (pre.session_is_expanded && pre.search_query@.len()
                == 0)
            &&& post.tab_is_expanded == (pre.tab_is_expanded && pre.search_query@.len() == 0)
        } else {
            &&& ranked_index_view(
                query_head(q),
                pre.sessions@.map_values(|x: SessionRecord| x.name@),
                post.filtered_sessions@,
            )
            &&& post.selected_session_index == 0
            &&& post.session_is_expanded == q.contains(' ')
            &&& post.tab_is_expanded == query_rest(q).contains(' ')
        }
        &&& tab_filter_post(
            pre.sessions@,
            post.filtered_sessions@,
            post.selected_session_index as int,
            query_rest(q),
            pre,
            post,
        )
    }
}

impl SessionList {
    /// Recompute the pane-level view against the selected filtered tab's
    /// panes, with sub-query `pq`.
    fn filter_panes_for_selected_tab(&mut self, pq: &str)
        ensures
            final(self).sessions == old(self).sessions,
            final(self).filtered_sessions == old(self).filtered_sessions,
            final(self).filtered_tabs == old(self).filtered_tabs,
            final(self).selected_session_index == old(self).selected_session_index,
            final(self).selected_tab_index == old(self).selected_tab_index,
            final(self).search_query == old(self).search_query,
            final(self).session_is_expanded == old(self).session_is_expanded,
            final(self).tab_is_expanded == old(self).tab_is_expanded,
            pane_filter_post(
                old(self).sessions@,
                old(self).filtered_sessions@,
                old(self).selected_session_index as int,
                old(self).filtered_tabs@,
                old(self).selected_tab_index as int,
                pq@,
                *old(self),
                *final(self),
            ),
    {
        if self.selected_session_index >= self.filtered_sessions.len() {
            return;
        }
        let si = self.filtered_sessions[self.selected_session_index];
        if si >= self.sessions.len() {
            return;
        }
        if self.selected_tab_index >= self.filtered_tabs.len() {
            return;
        }
        let ti = self.filtered_tabs[self.selected_tab_index];
        if ti >= self.sessions[si].tabs.len() {
            return;
        }
        let position = self.sessions[si].tabs[ti].position;
        proof {
            crate::records::lemma_group_at(self.sessions@[si as int].pane_groups@, position);
        }
        if pq.is_empty() {
            let n = match self.sessions[si].group_at(position) {
                None => {
                    return;
                },
                Some(group) => group.panes.len(),
            };
            self.filtered_panes = identity_indices(n);
        } else {
            let titles = match self.sessions[si].group_at(position) {
                None => {
                    return;
                },
                Some(group) => crate::records::pane_titles(&group.panes),
            };
            self.filtered_panes = rank_to_indices(pq, &titles);
            self.selected_pane_index = 0;
        }
    }

    /// Recompute the tab-level view (and below it the pane-level view)
    /// against the selected filtered session, with the query remainder
    /// `rest`.
    fn filter_tabs_for_selected_session(&mut self, rest: &str)
        ensures
            final(self).sessions == old(self).sessions,
            final(self).filtered_sessions == old(self).filtered_sessions,
            final(self).selected_session_index == old(self).selected_session_index,
            final(self).search_query == old(self).search_query,
            final(self).session_is_expanded == old(self).session_is_expanded,
            final(self).tab_is_expanded == old(self).tab_is_expanded,
            tab_filter_post(
                old(self).sessions@,
                old(self).filtered_sessions@,
                old(self).selected_session_index as int,
                rest@,
                *old(self),
                *final(self),
            ),
    {
        if self.selected_session_index >= self.filtered_sessions.len() {
            return;
        }
        let si = self.filtered_sessions[self.selected_session_index];
        if si >= self.sessions.len() {
            return;
        }
        if rest.is_empty() {
            let n = self.sessions[si].tabs.len();
            self.filtered_tabs = identity_indices(n);
            self.filter_panes_for_selected_tab("");
            proof {
                reveal_strlit("");
            }
        } else {
            let parts = split_first_space(rest);
            let names = crate::records::tab_names(&self.sessions[si].tabs);
            self.filtered_tabs = rank_to_indices(parts.0.as_str(), &names);
            self.selected_tab_index = 0;
            self.filter_panes_for_selected_tab(parts.1.as_str());
        }
    }

    /// Re-filter everything against `search_query`: tokenize it into up to
    /// three per-level sub-queries, rank each level's candidates, and drive
    /// the auto-expansion state.  A guarded no-op on an empty snapshot.
    pub fn filter(&mut self, search_query: &str)
        requires
            old(self).wf(),
        ensures
            final(self).wf(),
            filter_post(*old(self), search_query@, *final(self)),
    {
        if self.sessions.len() == 0 {
            return;
        }
        let old_query_empty = self.search_query.as_str().is_empty();
        if search_query.is_empty() {
            self.filtered_sessions = identity_indices(self.sessions.len());
            if !old_query_empty {
                self.session_is_expanded = false;
                self.tab_is_expanded = false;
            }
            self.search_query = search_query.to_owned();
            self.filter_tabs_for_selected_session("");
            proof {
                reveal_strlit("");
            }
        } else {
            let parts = split_first_space(search_query);
            self.session_is_expanded = contains_char(search_query, ' ');
            self.tab_is_expanded = contains_char(parts.1.as_str(), ' ');
            let names = crate::records::session_names(&self.sessions);
            self.filtered_sessions = rank_to_indices(parts.0.as_str(), &names);
            self.selected_session_index = 0;
            self.search_query = search_query.to_owned();
            self.filter_tabs_for_selected_session(parts.1.as_str());
        }
    }

    /// Replace the snapshot wholesale and rebuild every view with the kept
    /// user-typed query.
    pub fn update_sessions(&mut self, sessions: Vec<SessionRecord>)
        requires
            old(self).wf(),
        ensures
            final(self).wf(),
            filter_post(
                (SessionList { sessions, ..*old(self) }),
                old(self).search_query@,
                *final(self),
            ),
    {
        self.sessions = sessions;
        let q = self.search_query.clone();
        self.filter(q.as_str());
    }
}

/// The label of a session row: the name decorated with its tab count, pane
/// group count and connected client count.
pub open spec fn spec_session_label(sess: SessionRecord) -> Seq<char> {
    sess.name@ + " ("@ + spec_decimal(sess.tabs@.len() as int) + " tabs, "@ + spec_decimal(
        sess.pane_groups@.len() as int,
    ) + " panes) ["@ + spec_decimal(sess.connected_clients as int) + " connected users]"@
}

/// How many panes a tab's row advertises: the selectable panes of the
/// session's group at the tab's position, or zero when the session owns no
/// group there.
pub open spec fn spec_tab_pane_count(sess: SessionRecord, tab: TabRecord) -> int {
    match spec_group_at(sess.pane_groups@, tab.position) {
        None => 0,
        Some(gi) => spec_selectable_count(sess.pane_groups@[gi].panes@),
    }
}

/// The label of a tab row: the name decorated with its selectable pane
/// count.
pub open spec fn spec_tab_label(sess: SessionRecord, tab: TabRecord) -> Seq<char> {
    tab.name@ + " ("@ + spec_decimal(spec_tab_pane_count(sess, tab)) + " panes)"@
}

/// The session row at view position `k`.
pub open spec fn spec_session_row(s: SessionList, k: int, sess: SessionRecord) -> RowModel {
    RowModel {
        text: spec_session_label(sess),
        highlights: Seq::empty(),
        indent: 0,
        selected: k == s.selected_session_index as int && !s.session_is_expanded,
    }
}

/// The tab row at view position `t`.
pub open spec fn spec_tab_row(s: SessionList, t: int, sess: SessionRecord, tab: TabRecord) -> RowModel {
    RowModel {
        text: spec_tab_label(sess, tab),
        highlights: Seq::empty(),
        indent: 1,
        selected: t == s.selected_tab_index as int && !s.tab_is_expanded,
    }
}

/// The pane row at view position `p`.
pub open spec fn spec_pane_row(s: SessionList, p: int, pane: crate::records::PaneRecord) -> RowModel {
    RowModel {
        text: pane.title@,
        highlights: Seq::empty(),
        indent: 2,
        selected: p == s.selected_pane_index as int,
    }
}

/// The row the pane view's position `p` produces: nothing when it does not
/// resolve in `panes`.
pub open spec fn spec_pane_block(s: SessionList, panes: Seq<crate::records::PaneRecord>, p: int) -> Seq<
    RowModel,
> {
    if s.filtered_panes@[p] as int >= panes.len() {
        Seq::empty()
    } else {
        seq![spec_pane_row(s, p, panes[s.filtered_panes@[p] as int])]
    }
}

/// The pane rows for the first `p` positions of the pane view.
pub open spec fn spec_pane_rows_upto(
    s: SessionList,
    panes: Seq<crate::records::PaneRecord>,
    p: int,
) -> Seq<RowModel>
    decreases p,
{
    if p <= 0 {
        Seq::empty()
    } else {
        spec_pane_rows_upto(s, panes, p - 1) + spec_pane_block(s, panes, p - 1)
    }
}

/// The pane rows rendered under the selected, expanded tab: the whole pane
/// view against the owning group, or nothing when the session owns no group
/// at the tab's position.
pub open spec fn spec_pane_rows(s: SessionList, sess: SessionRecord, tab: TabRecord) -> Seq<
    RowModel,
> {
    match spec_group_at(sess.pane_groups@, tab.position) {
        None => Seq::empty(),
        Some(gi) => spec_pane_rows_upto(
            s,
            sess.pane_groups@[gi].panes@,
            s.filtered_panes@.len() as int,
        ),
    }
}

/// The rows the tab view's position `t` produces: its row, followed by the
/// pane rows when it is the selected tab and the tab level is expanded;
/// nothing when the position does not resolve.
pub open spec fn spec_tab_block(s: SessionList, sess: SessionRecord, t: int) -> Seq<RowModel> {
    if s.filtered_tabs@[t] as int >= sess.tabs@.len() {
        Seq::empty()
    } else {
        let tab = sess.tabs@[s.filtered_tabs@[t] as int];
        seq![spec_tab_row(s, t, sess, tab)] + if t == s.selected_tab_index as int
            && s.tab_is_expanded {
            spec_pane_rows(s, sess, tab)
        } else {
            Seq::empty()
        }
    }
}

/// The tab rows (with their pane rows) for the first `t` positions of the
/// tab view.
pub open spec fn spec_tab_rows_upto(s: SessionList, sess: SessionRecord, t: int) -> Seq<RowModel>
    decreases t,
{
    if t <= 0 {
        Seq::empty()
    } else {
        spec_tab_rows_upto(s, sess, t - 1) + spec_tab_block(s, sess, t - 1)
    }
}

/// The rows the session view's position `k` produces: its row, followed by
/// the tab rows when it is the selected session and the session level is
/// expanded; nothing when the position does not resolve.
pub open spec fn spec_session_block(s: SessionList, k: int) -> Seq<RowModel> {
    if s.filtered_sessions@[k] as int >= s.sessions@.len() {
        Seq::empty()
    } else {
        let sess = s.sessions@[s.filtered_sessions@[k] as int];
        seq![spec_session_row(s, k, sess)] + if k == s.selected_session_index as int
            && s.session_is_expanded {
            spec_tab_rows_upto(s, sess, s.filtered_tabs@.len() as int)
        } else {
            Seq::empty()
        }
    }
}

/// The session rows (with everything under them) for the first `k`
/// positions of the session view.
pub open spec fn spec_session_rows_upto(s: SessionList, k: int) -> Seq<RowModel>
    decreases k,
{
    if k <= 0 {
        Seq::empty()
    } else {
        spec_session_rows_upto(s, k - 1) + spec_session_block(s, k - 1)
    }
}

/// Every row of the flattened display list, in order: one row per visible
/// session, under the selected session (when expanded) one row per visible
/// tab, and under the selected tab (when expanded) one row per visible
/// pane.
pub open spec fn spec_display_rows(s: SessionList) -> Seq<RowModel> {
    spec_session_rows_upto(s, s.filtered_sessions@.len() as int)
}

/// Build a session row's label.
pub(crate) fn build_session_label(sess: &SessionRecord) -> (r: String)
    ensures
        r@ == spec_session_label(*sess),
{
    let mut label = sess.name.clone();
    label.append(" (");
    crate::text::push_decimal(&mut label, sess.tabs.len());
    label.append(" tabs, ");
    crate::text::push_decimal(&mut label, sess.pane_groups.len());
    label.append(" panes) [");
    crate::text::push_decimal(&mut label, sess.connected_clients);
    label.append(" connected users]");
    proof {
        assert(label@ =~= spec_session_label(*sess));
    }
    label
}

/// Build a tab row's label.
fn build_tab_label(sess: &SessionRecord, ti: usize) -> (r: String)
    requires
        ti < sess.tabs@.len(),
    ensures
        r@ == spec_tab_label(*sess, sess.tabs@[ti as int]),
{
    let tab = &sess.tabs[ti];
    let mut label = tab.name.clone();
    label.append(" (");
    let count = match sess.group_at(tab.position) {
        None => 0,
        Some(g) => g.selectable_count(),
    };
    proof {
        crate::records::lemma_group_at(sess.pane_groups@, tab.position);
    }
    crate::text::push_decimal(&mut label, count);
    label.append(" panes)");
    proof {
        assert(label@ =~= spec_tab_label(*sess, sess.tabs@[ti as int]));
    }
    label
}

impl SessionList {
    /// Flatten the current filtered views into the ordered display list.
    /// Exactly one visible row carries the selected marker when the deepest
    /// expanded level's selection resolves.
    pub fn get_list(&self) -> (r: Vec<DisplayRow>)
        ensures
            r@.map_values(|row: DisplayRow| row@) == spec_display_rows(*self),
    {
        let ghost s = *self;
        let mut out: Vec<DisplayRow> = Vec::new();
        let mut k: usize = 0;
        while k < self.filtered_sessions.len()
            invariant
                s == *self,
                k <= s.filtered_sessions@.len(),
                out@.map_values(|row: DisplayRow| row@) =~= spec_session_rows_upto(s, k as int),
            decreases s.filtered_sessions@.len() - k,
        {
            let si = self.filtered_sessions[k];
            if si < self.sessions.len() {
                let ghost sess = s.sessions@[si as int];
                let label = build_session_label(&self.sessions[si]);
                let selected = k == self.selected_session_index && !self.session_is_expanded;
                out.push(
                    DisplayRow { text: label, highlights: Vec::new(), indent: 0, selected },
                );
                proof {
                    assert(out@.map_values(|row: DisplayRow| row@) =~= spec_session_rows_upto(
                        s,
                        k as int,
                    ).push(spec_session_row(s, k as int, sess)));
                }
                if k == self.selected_session_index && self.session_is_expanded {
                    let ghost base = out@.map_values(|row: DisplayRow| row@);
                    let mut t: usize = 0;
                    while t < self.filtered_tabs.len()
                        invariant
                            s == *self,
                            si == s.filtered_sessions@[k as int],
                            si < s.sessions@.len(),
                            sess == s.sessions@[si as int],
                            k < s.filtered_sessions@.len(),
                            k == s.selected_session_index && s.session_is_expanded,
                            t <= s.filtered_tabs@.len(),
                            base == spec_session_rows_upto(s, k as int).push(
                                spec_session_row(s, k as int, sess),
                            ),
                            out@.map_values(|row: DisplayRow| row@) =~= base
                                + spec_tab_rows_upto(s, sess, t as int),
                        decreases s.filtered_tabs@.len() - t,
                    {
                        let ti = self.filtered_tabs[t];
                        if ti < self.sessions[si].tabs.len() {
                            let ghost tab = sess.tabs@[ti as int];
                            let tab_label = build_tab_label(&self.sessions[si], ti);
                            let tab_selected = t == self.selected_tab_index
                                && !self.tab_is_expanded;
                            let ghost pre_map = out@.map_values(|row: DisplayRow| row@);
                            let ghost tl = tab_label@;
                            out.push(
                                DisplayRow {
                                    text: tab_label,
                                    highlights: Vec::new(),
                                    indent: 1,
                                    selected: tab_selected,
                                },
                            );
                            proof {
                                assert(out@.map_values(|row: DisplayRow| row@) =~= pre_map.push(
                                    out@[out@.len() - 1]@,
                                ));
                                assert(out@[out@.len() - 1]@ == spec_tab_row(
                                    s,
                                    t as int,
                                    sess,
                                    tab,
                                ));
                                assert(out@.map_values(|row: DisplayRow| row@) =~= base
                                    + spec_tab_rows_upto(s, sess, t as int).push(
                                    spec_tab_row(s, t as int, sess, tab),
                                ));
                            }
                            if t == self.selected_tab_index && self.tab_is_expanded {
                                let ghost tab_base = out@.map_values(|row: DisplayRow| row@);
                                let position = self.sessions[si].tabs[ti].position;
                                proof {
                                    crate::records::lemma_group_at(sess.pane_groups@, position);
                                }
                                match self.sessions[si].group_at(position) {
                                    None => {
                                        proof {
                                            assert(spec_pane_rows(s, sess, tab)
                                                =~= Seq::<RowModel>::empty());
                                        }
                                    },
                                    Some(group) => {
                                        let ghost panes = group.panes@;
                                        let mut p: usize = 0;
                                        while p < self.filtered_panes.len()
                                            invariant
                                                s == *self,
                                                p <= s.filtered_panes@.len(),
                                                panes == group.panes@,
                                                out@.map_values(|row: DisplayRow| row@)
                                                    =~= tab_base + spec_pane_rows_upto(
                                                    s,
                                                    panes,
                                                    p as int,
                                                ),
                                            decreases s.filtered_panes@.len() - p,
                                        {
                                            let pi = self.filtered_panes[p];
                                            if pi < group.panes.len() {
                                                let pane_selected = p
                                                    == self.selected_pane_index;
                                                let ghost pre_map = out@.map_values(
                                                    |row: DisplayRow| row@,
                                                );
                                                out.push(
                                                    DisplayRow {
                                                        text: group.panes[pi].title.clone(),
                                                        highlights: Vec::new(),
                                                        indent: 2,
                                                        selected: pane_selected,
                                                    },
                                                );
                                                proof {
                                                    assert(out@.map_values(
                                                        |row: DisplayRow| row@,
                                                    ) =~= pre_map.push(out@[out@.len() - 1]@));
                                                    assert(out@[out@.len() - 1]@
                                                        == spec_pane_row(
                                                        s,
                                                        p as int,
                                                        panes[pi as int],
                                                    ));
                                                    assert(out@.map_values(
                                                        |row: DisplayRow| row@,
                                                    ) =~= tab_base + spec_pane_rows_upto(
                                                        s,
                                                        panes,
                                                        p as int,
                                                    ).push(
                                                        spec_pane_row(
                                                            s,
                                                            p as int,
                                                            panes[pi as int],
                                                        ),
                                                    ));
                                                }
                                            }
                                            p += 1;
                                        }
                                        proof {
                                            assert(spec_pane_rows(s, sess, tab)
                                                == spec_pane_rows_upto(
                                                s,
                                                panes,
                                                s.filtered_panes@.len() as int,
                                            ));
                                        }
                                    },
                                }
                            }
                        }
                        t += 1;
                        proof {
                            assert(out@.map_values(|row: DisplayRow| row@) =~= base
                                + spec_tab_rows_upto(s, sess, t as int));
                        }
                    }
                }
            }
            k += 1;
            proof {
                assert(out@.map_values(|row: DisplayRow| row@) =~= spec_session_rows_upto(
                    s,
                    k as int,
                ));
            }
        }
        out
    }
}

/// What `expand` does to the engine's state.
pub open spec fn spec_expand(s: SessionList) -> SessionList {
    if !s.session_is_expanded {
        SessionList { session_is_expanded: true, selected_tab_index: 0, ..s }
    } else {
        SessionList { tab_is_expanded: true, selected_pane_index: 0, ..s }
    }
}

/// What `shrink` does to the engine's state.
pub open spec fn spec_shrink(s: SessionList) -> SessionList {
    if s.tab_is_expanded {
        SessionList { tab_is_expanded: false, ..s }
    } else {
        SessionList { session_is_expanded: false, ..s }
    }
}

/// `(i + 1) % len` for a possibly stale index `i`.
fn step_forward(i: usize, len: usize) -> (r: usize)
    requires
        len > 0,
    ensures
        r == (i + 1) % (len as int),
{
    let m = i % len;
    let r = if m == len - 1 {
        0
    } else {
        m + 1
    };
    proof {
        lemma_step_forward(i as int, len as int);
    }
    r
}

/// `(i - 1) % len` (euclidean) for a possibly stale index `i`.
fn step_backward(i: usize, len: usize) -> (r: usize)
    requires
        len > 0,
    ensures
        r == (i - 1) % (len as int),
{
    let m = i % len;
    let r = if m == 0 {
        len - 1
    } else {
        m - 1
    };
    proof {
        lemma_step_backward(i as int, len as int);
    }
    r
}

proof fn lemma_step_congruent(x: int, y: int, len: int)
    requires
        len > 0,
        (x - y) % len == 0,
    ensures
        x % len == y % len,
{
    vstd::arithmetic::div_mod::lemma_mod_equivalence(x, y, len);
}

proof fn lemma_step_forward(i: int, len: int)
    requires
        i >= 0,
        len > 0,
    ensures
        (i + 1) % len == if i % len == len - 1 {
            0int
        } else {
            i % len + 1
        },
{
    let m = i % len;
    vstd::arithmetic::div_mod::lemma_mod_bound(i, len);
    vstd::arithmetic::div_mod::lemma_fundamental_div_mod(i, len);
    let q = i / len;
    assert((i + 1) - (m + 1) == q * len);
    vstd::arithmetic::div_mod::lemma_mod_multiples_basic(q, len);
    lemma_step_congruent(i + 1, m + 1, len);
    if m == len - 1 {
        vstd::arithmetic::div_mod::lemma_mod_self_0(len);
    } else {
        vstd::arithmetic::div_mod::lemma_small_mod((m + 1) as nat, len as nat);
    }
}

proof fn lemma_step_backward(i: int, len: int)
    requires
        i >= 0,
        len > 0,
    ensures
        (i - 1) % len == if i % len == 0 {
            len - 1
        } else {
            i % len - 1
        },
{
    let m = i % len;
    vstd::arithmetic::div_mod::lemma_mod_bound(i, len);
    vstd::arithmetic::div_mod::lemma_fundamental_div_mod(i, len);
    let q = i / len;
    assert((i - 1) - (m - 1) == q * len);
    vstd::arithmetic::div_mod::lemma_mod_multiples_basic(q, len);
    lemma_step_congruent(i - 1, m - 1, len);
    if m == 0 {
        vstd::arithmetic::div_mod::lemma_mod_add_multiples_vanish(-1, len);
        vstd::arithmetic::div_mod::lemma_small_mod((len - 1) as nat, len as nat);
    } else {
        vstd::arithmetic::div_mod::lemma_small_mod((m - 1) as nat, len as nat);
    }
}

/// Stepping the selection forward as many times as the active list is long
/// returns it to where it started: the circular navigation closes.
pub open spec fn iterated_next(i: int, len: int, k: nat) -> int
    decreases k,
{
    if k == 0 {
        i
    } else {
        (iterated_next(i, len, (k - 1) as nat) + 1) % len
    }
}

proof fn lemma_iterated_next_adds(i: int, len: int, k: nat)
    requires
        0 <= i < len,
    ensures
        iterated_next(i, len, k) == (i + k) % len,
    decreases k,
{
    if k == 0 {
        vstd::arithmetic::div_mod::lemma_small_mod(i as nat, len as nat);
    } else {
        lemma_iterated_next_adds(i, len, (k - 1) as nat);
        let a = i + k - 1;
        vstd::arithmetic::div_mod::lemma_mod_bound(a, len);
        vstd::arithmetic::div_mod::lemma_fundamental_div_mod(a, len);
        let q = a / len;
        assert((a + 1) - (a % len + 1) == q * len);
        vstd::arithmetic::div_mod::lemma_mod_multiples_basic(q, len);
        lemma_step_congruent(a + 1, a % len + 1, len);
    }
}

/// Selecting the next entry once per entry of the active list brings the
/// selection index back to its original value: `select_next` applied `len`
/// times is the identity on a valid index.
pub proof fn lemma_select_next_wraparound(i: int, len: int)
    requires
        0 <= i < len,
    ensures
        iterated_next(i, len, len as nat) == i,
{
    lemma_iterated_next_adds(i, len, len as nat);
    vstd::arithmetic::div_mod::lemma_mod_add_multiples_vanish(i, len);
    vstd::arithmetic::div_mod::lemma_small_mod(i as nat, len as nat);
}

/// Entering a level and leaving it again is a no-op on the selection
/// indices: `shrink` keeps every index where `expand` put it, and repeating
/// the `expand` resets the entered level's index to the same value again.
pub proof fn lemma_expand_shrink_no_op(s: SessionList)
    requires
        s.wf(),
    ensures
        spec_shrink(spec_expand(s)).selected_session_index == spec_expand(
            s,
        ).selected_session_index,
        spec_shrink(spec_expand(s)).selected_tab_index == spec_expand(s).selected_tab_index,
        spec_shrink(spec_expand(s)).selected_pane_index == spec_expand(s).selected_pane_index,
        spec_expand(spec_shrink(spec_expand(s))) == spec_expand(s),
{
}

} // verus!
