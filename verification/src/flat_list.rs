//! The flat filter engine: a list of filesystem candidates filtered with one
//! fuzzy pass, a single selection index with a height cap, and a windowed
//! display list that annotates candidates whose derived session name is
//! already running.

use vstd::prelude::*;

use crate::action::{Action, DisplayRow, RowModel};
use crate::matching::{skim_indices, skim_kept, skim_match, skim_positions, skim_score};
use crate::records::SessionRecord;
use crate::text::{
    join_with, spec_derived_name, spec_stripped, split_on, derive_path_and_name, join_strings,
    split_string,
};

verus! {

/// One entry of the filtered view: the position of the candidate in the
/// source list, the score the matcher gave it, and the matched character
/// positions.
pub struct FlatMatch {
    pub index: usize,
    pub score: i64,
    pub positions: Vec<usize>,
}

/// Every entry of `out` points at a distinct kept candidate with its score
/// and matched positions, in non-increasing score order; equal scores keep
/// the source order.
pub open spec fn flat_view_ok(q: Seq<char>, texts: Seq<Seq<char>>, out: Seq<FlatMatch>) -> bool {
    &&& forall|k: int| 0 <= k < out.len() ==> (#[trigger] out[k]).index < texts.len()
    &&& forall|k: int|
        0 <= k < out.len() ==> skim_kept(texts[(#[trigger] out[k]).index as int], q)
    &&& forall|k: int|
        0 <= k < out.len() ==> (#[trigger] out[k]).score as int == skim_score(
            texts[out[k].index as int],
            q,
        )
    &&& forall|k: int|
        0 <= k < out.len() ==> (#[trigger] out[k]).positions@ == skim_positions(
            texts[out[k].index as int],
            q,
        )
    &&& forall|k1: int, k2: int| 0 <= k1 < k2 < out.len() ==> out[k1].score >= out[k2].score
    &&& forall|k1: int, k2: int|
        0 <= k1 < k2 < out.len() && out[k1].score == out[k2].score ==> out[k1].index
            < out[k2].index
}

/// Every kept candidate among the first `upto` appears in `out`.
pub open spec fn flat_complete(
    q: Seq<char>,
    texts: Seq<Seq<char>>,
    out: Seq<FlatMatch>,
    upto: int,
) -> bool {
    forall|j: int|
        0 <= j < upto && skim_kept(#[trigger] texts[j], q) ==> exists|k: int|
            0 <= k < out.len() && (#[trigger] out[k]).index == j
}

/// `out` is exactly the kept candidates of `texts` under query `q`, best
/// first, ties in source order.
pub open spec fn flat_ranked(q: Seq<char>, texts: Seq<Seq<char>>, out: Seq<FlatMatch>) -> bool {
    &&& flat_view_ok(q, texts, out)
    &&& flat_complete(q, texts, out, texts.len() as int)
}

/// Score each candidate with the skim matcher, drop the ones that do not
/// match with a strictly positive score, and sort the rest by descending
/// score, ties in source order.
fn rank_flat(query: &str, texts: &Vec<String>) -> (r: Vec<FlatMatch>)
    ensures
        flat_ranked(query@, texts@.map_values(|s: String| s@), r@),
        r@.len() <= texts@.len(),
{
    let ghost tv = texts@.map_values(|s: String| s@);
    let mut out: Vec<FlatMatch> = Vec::new();
    let mut i: usize = 0;
    while i < texts.len()
        invariant
            i <= texts@.len(),
            tv == texts@.map_values(|s: String| s@),
            out@.len() <= i,
            flat_view_ok(query@, tv, out@),
            flat_complete(query@, tv, out@, i as int),
            forall|k: int| 0 <= k < out@.len() ==> (#[trigger] out@[k]).index < i,
        decreases texts@.len() - i,
    {
        match skim_indices(texts[i].as_str(), query) {
            None => {},
            Some(hit) => {
                if hit.0 > 0 {
                    let sc = hit.0;
                    let mut p: usize = 0;
                    loop
                        invariant_except_break
                            p <= out@.len(),
                            forall|m: int| 0 <= m < p ==> (#[trigger] out@[m]).score >= sc,
                        ensures
                            p <= out@.len(),
                            forall|m: int| 0 <= m < p ==> (#[trigger] out@[m]).score >= sc,
                            p < out@.len() ==> out@[p as int].score < sc,
                        decreases out@.len() - p,
                    {
                        if p == out.len() {
                            break;
                        }
                        if out[p].score < sc {
                            break;
                        }
                        p += 1;
                    }
                    let ghost old_out = out@;
                    let m = FlatMatch { index: i, score: sc, positions: hit.1 };
                    out.insert(p, m);
                    proof {
                        let new_out = out@;
                        assert(new_out == old_out.insert(p as int, m));
                        assert forall|k: int| 0 <= k < new_out.len() implies #[trigger] new_out[k]
                            == if k < p as int {
                            old_out[k]
                        } else if k == p as int {
                            m
                        } else {
                            old_out[k - 1]
                        } by {}
                        assert(skim_match(tv[i as int], query@) == Some((hit.0, hit.1@)));
                        assert(tv[i as int] == texts@[i as int]@);
                        assert forall|j: int|
                            0 <= j < i + 1 && skim_kept(#[trigger] tv[j], query@) implies exists|k: int|
                            0 <= k < new_out.len() && (#[trigger] new_out[k]).index == j by {
                            if j == i {
                                assert(new_out[p as int].index == j);
                            } else {
                                let k0 = choose|k0: int|
                                    0 <= k0 < old_out.len() && (#[trigger] old_out[k0]).index == j;
                                if k0 < p {
                                    assert(new_out[k0].index == j);
                                } else {
                                    assert(new_out[k0 + 1].index == j);
                                }
                            }
                        }
                    }
                }
            },
        }
        i += 1;
    }
    proof {
        assert(tv.len() == texts@.len());
    }
    out
}

/// The flat engine.
pub struct NewSessionList {
    /// The candidate list, replaced wholesale on every discovery result.
    pub list: Vec<String>,
    /// The running sessions, used only to annotate candidates.
    pub session_list: Vec<SessionRecord>,
    /// The filtered view over `list`.
    pub filtered_list: Vec<FlatMatch>,
    /// The length of the filtered view as last recomputed.
    pub filtered_list_len: usize,
    pub selected_item_index: usize,
    /// The query the view was last filtered with.
    pub search_query: String,
    /// The height cap recorded by the last `get_list`.
    pub max_items: Option<usize>,
}

/// The first session of `sessions` whose name is `name`, if any.
pub open spec fn spec_session_with_name(sessions: Seq<SessionRecord>, name: Seq<char>) -> Option<
    int,
>
    decreases sessions.len(),
{
    if sessions.len() == 0 {
        None
    } else if sessions[0].name@ == name {
        Some(0int)
    } else {
        match spec_session_with_name(sessions.drop_first(), name) {
            Some(i) => Some(i + 1),
            None => None,
        }
    }
}

/// `spec_session_with_name` points at the first session with that name.
pub proof fn lemma_session_with_name(sessions: Seq<SessionRecord>, name: Seq<char>)
    ensures
        match spec_session_with_name(sessions, name) {
            Some(i) => 0 <= i < sessions.len() && sessions[i].name@ == name && forall|j: int|
                0 <= j < i ==> (#[trigger] sessions[j]).name@ != name,
            None => forall|j: int|
                0 <= j < sessions.len() ==> (#[trigger] sessions[j]).name@ != name,
        },
    decreases sessions.len(),
{
    if sessions.len() > 0 && sessions[0].name@ != name {
        let rest = sessions.drop_first();
        lemma_session_with_name(rest, name);
        assert(forall|j: int| 0 <= j < rest.len() ==> #[trigger] rest[j] == sessions[j + 1]);
        match spec_session_with_name(rest, name) {
            Some(i) => {
                assert(sessions[i + 1].name@ == name);
                assert forall|j: int|
                    0 <= j < i + 1 implies (#[trigger] sessions[j]).name@ != name by {
                    if j > 0 {
                        assert(rest[j - 1] == sessions[j]);
                    }
                }
            },
            None => {
                assert forall|j: int|
                    0 <= j < sessions.len() implies (#[trigger] sessions[j]).name@ != name by {
                    if j > 0 {
                        assert(rest[j - 1] == sessions[j]);
                    }
                }
            },
        }
    }
}

/// Find the first session with the given name.
fn find_session_with_name(sessions: &Vec<SessionRecord>, name: &String) -> (r: Option<usize>)
    ensures
        match r {
            Some(i) => spec_session_with_name(sessions@, name@) == Some(i as int),
            None => spec_session_with_name(sessions@, name@) is None,
        },
{
    proof {
        lemma_session_with_name(sessions@, name@);
    }
    let mut i: usize = 0;
    while i < sessions.len()
        invariant
            i <= sessions@.len(),
            forall|j: int| 0 <= j < i ==> (#[trigger] sessions@[j]).name@ != name@,
        decreases sessions@.len() - i,
    {
        if sessions[i].name.eq(name) {
            proof {
                lemma_session_with_name(sessions@, name@);
                match spec_session_with_name(sessions@, name@) {
                    Some(w) => {
                        assert(w <= i as int);
                        assert(i as int <= w);
                    },
                    None => {
                        assert(sessions@[i as int].name@ != name@);
                    },
                }
            }
            return Some(i);
        }
        i += 1;
    }
    proof {
        lemma_session_with_name(sessions@, name@);
    }
    None
}

/// What `filter` does: a guarded no-op on an empty candidate list; else the
/// query is remembered and the view becomes either the identity of the list
/// with empty highlight sets (empty query) or the kept candidates ranked by
/// descending score, with the selection reset to the top when it exceeds the
/// new length.
pub open spec fn flat_filter_post(pre: NewSessionList, q: Seq<char>, post: NewSessionList) -> bool {
    if pre.list@.len() == 0 {
        post == pre
    } else {
        &&& post.list == pre.list
        &&& post.session_list == pre.session_list
        &&& post.max_items == pre.max_items
        &&& post.search_query@ == q
        &&& post.filtered_list_len == post.filtered_list@.len()
        &&& if q.len() == 0 {
            &&& post.filtered_list@.len() == pre.list@.len()
            &&& forall|k: int|
                0 <= k < post.filtered_list@.len() ==> (#[trigger] post.filtered_list@[k]).index
                    == k
            &&& forall|k: int|
                0 <= k < post.filtered_list@.len() ==> (#[trigger] post.filtered_list@[k]).positions@
                    =~= Seq::<usize>::empty()
            &&& forall|k: int|
                0 <= k < post.filtered_list@.len() ==> (#[trigger] post.filtered_list@[k]).score
                    == 0
            &&& post.selected_item_index == pre.selected_item_index
        } else {
            &&& flat_ranked(q, pre.list@.map_values(|s: String| s@), post.filtered_list@)
            &&& post.selected_item_index == if pre.selected_item_index
                > post.filtered_list@.len() {
                0usize
            } else {
                pre.selected_item_index
            }
        }
    }
}

impl NewSessionList {
    /// A fresh engine: no candidates, no sessions, empty query, no cap.
    pub fn new() -> (r: Self)
        ensures
            r.list@.len() == 0,
            r.session_list@.len() == 0,
            r.filtered_list@.len() == 0,
            r.filtered_list_len == 0,
            r.selected_item_index == 0,
            r.search_query@.len() == 0,
            r.max_items is None,
    {
        NewSessionList {
            list: Vec::new(),
            session_list: Vec::new(),
            filtered_list: Vec::new(),
            filtered_list_len: 0,
            selected_item_index: 0,
            search_query: String::new(),
            max_items: None,
        }
    }

    /// Take the persisted cache's contents, when the host could read them,
    /// split them on newlines into the candidate list and re-filter with an
    /// empty query.  A missing cache leaves the engine untouched.
    pub fn load_cache(&mut self, cache: Option<String>)
        ensures
            match cache {
                None => *final(self) == *old(self),
                Some(text) => {
                    &&& final(self).list@.map_values(|s: String| s@) == split_on(text@, '\n')
                    &&& final(self).session_list == old(self).session_list
                    &&& final(self).max_items == old(self).max_items
                    &&& final(self).search_query@ == Seq::<char>::empty()
                    &&& final(self).filtered_list_len == final(self).filtered_list@.len()
                    &&& final(self).filtered_list@.len() == final(self).list@.len()
                    &&& forall|k: int|
                        0 <= k < final(self).filtered_list@.len()
                            ==> (#[trigger] final(self).filtered_list@[k]).index == k
                    &&& forall|k: int|
                        0 <= k < final(self).filtered_list@.len()
                            ==> (#[trigger] final(self).filtered_list@[k]).positions@
                            =~= Seq::<usize>::empty()
                    &&& forall|k: int|
                        0 <= k < final(self).filtered_list@.len()
                            ==> (#[trigger] final(self).filtered_list@[k]).score == 0
                    &&& final(self).selected_item_index == old(self).selected_item_index
                },
            },
    {
        match cache {
            None => {},
            Some(text) => {
                self.list = split_string(text.as_str(), '\n');
                proof {
                    crate::text::lemma_split_on_shape(text@, '\n');
                }
                self.filter("");
                proof {
                    reveal_strlit("");
                }
            },
        }
    }

    /// The text the host should persist: the candidate list joined with
    /// newlines.
    pub fn save_cache(&self) -> (r: String)
        ensures
            r@ == join_with(self.list@.map_values(|s: String| s@), '\n'),
    {
        join_strings(&self.list, '\n')
    }

    /// Replace the candidate list wholesale and re-filter with the kept
    /// query.
    pub fn update_list(&mut self, list: Vec<String>)
        ensures
            flat_filter_post(
                (NewSessionList { list, ..*old(self) }),
                old(self).search_query@,
                *final(self),
            ),
    {
        self.list = list;
        let q = self.search_query.clone();
        self.filter(q.as_str());
    }

    /// Replace the cross-reference set of running sessions used for display
    /// annotation.  Filtering is unaffected.
    pub fn update_sessions(&mut self, sessions: Vec<SessionRecord>)
        ensures
            final(self).session_list == sessions,
            final(self).list == old(self).list,
            final(self).filtered_list == old(self).filtered_list,
            final(self).filtered_list_len == old(self).filtered_list_len,
            final(self).selected_item_index == old(self).selected_item_index,
            final(self).search_query == old(self).search_query,
            final(self).max_items == old(self).max_items,
    {
        self.session_list = sessions;
    }

    /// Whether both a candidate list and a session list are present.
    pub fn has_list(&self) -> (r: bool)
        ensures
            r == (self.list@.len() > 0 && self.session_list@.len() > 0),
    {
        self.list.len() > 0 && self.session_list.len() > 0
    }

    /// The candidate path the selection points at, if it resolves.
    pub open spec fn selected_path(&self) -> Option<Seq<char>> {
        if self.selected_item_index >= self.filtered_list@.len() {
            None
        } else if self.filtered_list@[self.selected_item_index as int].index
            >= self.list@.len() {
            None
        } else {
            Some(
                self.list@[self.filtered_list@[self.selected_item_index as int].index as int]@,
            )
        }
    }

    /// Resolve the selected candidate and signal a switch to the session it
    /// stands for, rooted at the candidate path without its trailing slash,
    /// creating the session when absent.  `None`, with no effect, when the
    /// selection does not resolve.
    pub fn create_or_attach(&self) -> (r: Option<Action>)
        ensures
            match r {
                Some(a) => match self.selected_path() {
                    Some(path) => a matches Action::SwitchOrCreate { name, working_directory }
                        && name@ == spec_derived_name(path) && working_directory@
                        == spec_stripped(path),
                    None => false,
                },
                None => self.selected_path() is None,
            },
    {
        if self.selected_item_index >= self.filtered_list.len() {
            return None;
        }
        let idx = self.filtered_list[self.selected_item_index].index;
        if idx >= self.list.len() {
            return None;
        }
        let parts = derive_path_and_name(self.list[idx].as_str());
        Some(Action::SwitchOrCreate { name: parts.1, working_directory: parts.0 })
    }

    /// Signal termination of the running session whose name the selected
    /// candidate derives to; `None`, with no effect, when the selection does
    /// not resolve or no running session carries that name.
    pub fn delete_selected(&self) -> (r: Option<Action>)
        ensures
            match r {
                Some(a) => match self.selected_path() {
                    Some(path) => a matches Action::Kill { session } && session@
                        == spec_derived_name(path) && spec_session_with_name(
                        self.session_list@,
                        spec_derived_name(path),
                    ) is Some,
                    None => false,
                },
                None => match self.selected_path() {
                    Some(path) => spec_session_with_name(
                        self.session_list@,
                        spec_derived_name(path),
                    ) is None,
                    None => true,
                },
            },
    {
        if self.selected_item_index >= self.filtered_list.len() {
            return None;
        }
        let idx = self.filtered_list[self.selected_item_index].index;
        if idx >= self.list.len() {
            return None;
        }
        let parts = derive_path_and_name(self.list[idx].as_str());
        match find_session_with_name(&self.session_list, &parts.1) {
            Some(_) => Some(Action::Kill { session: parts.1 }),
            None => None,
        }
    }

    /// Re-filter the candidate list against `search_query`.  A guarded
    /// no-op on an empty candidate list.
    pub fn filter(&mut self, search_query: &str)
        ensures
            flat_filter_post(*old(self), search_query@, *final(self)),
    {
        if self.list.len() == 0 {
            return;
        }
        self.search_query = search_query.to_owned();
        if search_query.is_empty() {
            let mut view: Vec<FlatMatch> = Vec::new();
            let mut i: usize = 0;
            while i < self.list.len()
                invariant
                    i <= self.list@.len(),
                    view@.len() == i,
                    forall|k: int| 0 <= k < i ==> (#[trigger] view@[k]).index == k,
                    forall|k: int|
                        0 <= k < i ==> (#[trigger] view@[k]).positions@ =~= Seq::<usize>::empty(),
                    forall|k: int| 0 <= k < i ==> (#[trigger] view@[k]).score == 0,
                decreases self.list@.len() - i,
            {
                view.push(FlatMatch { index: i, score: 0, positions: Vec::new() });
                i += 1;
            }
            self.filtered_list_len = view.len();
            self.filtered_list = view;
        } else {
            let view = rank_flat(search_query, &self.list);
            self.filtered_list_len = view.len();
            if self.selected_item_index > view.len() {
                self.selected_item_index = 0;
            }
            self.filtered_list = view;
        }
    }

    /// Where `select_next` puts the selection: clamped at the last filtered
    /// entry, and below the recorded height cap never past it.
    pub open spec fn spec_next_selection(s: NewSessionList) -> usize {
        if s.list@.len() == 0 || s.filtered_list@.len() == 0 {
            s.selected_item_index
        } else if s.selected_item_index >= s.filtered_list@.len() - 1 {
            (s.filtered_list@.len() - 1) as usize
        } else {
            match s.max_items {
                Some(m) => if s.selected_item_index + 1 < m {
                    (s.selected_item_index + 1) as usize
                } else {
                    m
                },
                None => (s.selected_item_index + 1) as usize,
            }
        }
    }

    /// Move the selection one row down: it clamps at the last filtered row
    /// and never scrolls past the recorded height cap.  A no-op on an empty
    /// candidate or filtered list.
    pub fn select_next(&mut self)
        ensures
            final(self).list == old(self).list,
            final(self).session_list == old(self).session_list,
            final(self).filtered_list == old(self).filtered_list,
            final(self).filtered_list_len == old(self).filtered_list_len,
            final(self).search_query == old(self).search_query,
            final(self).max_items == old(self).max_items,
            final(self).selected_item_index == Self::spec_next_selection(*old(self)),
    {
        if self.list.len() == 0 {
            return;
        }
        if self.filtered_list.len() == 0 {
            return;
        }
        if self.selected_item_index >= self.filtered_list.len() - 1 {
            self.selected_item_index = self.filtered_list.len() - 1;
            return;
        }
        match self.max_items {
            Some(m) => {
                let next = self.selected_item_index + 1;
                self.selected_item_index = if next < m {
                    next
                } else {
                    m
                };
            },
            None => {
                self.selected_item_index = self.selected_item_index + 1;
            },
        }
    }

    /// Move the selection one row up, saturating at the top.  A no-op on an
    /// empty candidate list.
    pub fn select_prev(&mut self)
        ensures
            final(self).list == old(self).list,
            final(self).session_list == old(self).session_list,
            final(self).filtered_list == old(self).filtered_list,
            final(self).filtered_list_len == old(self).filtered_list_len,
            final(self).search_query == old(self).search_query,
            final(self).max_items == old(self).max_items,
            final(self).selected_item_index == if old(self).list@.len() == 0 {
                old(self).selected_item_index
            } else if old(self).selected_item_index > 0 {
                (old(self).selected_item_index - 1) as usize
            } else {
                0usize
            },
    {
        if self.list.len() == 0 {
            return;
        }
        if self.selected_item_index > 0 {
            self.selected_item_index = self.selected_item_index - 1;
        }
    }
}

/// The row the window position `w` produces under height cap `height`:
/// nothing when the entry does not resolve in the candidate list; the
/// candidate's derived session name with the match highlights when no
/// running session carries that name; else the running session's decorated
/// label.
pub open spec fn spec_flat_row(s: NewSessionList, w: int, height: usize) -> Seq<RowModel> {
    let fm = s.filtered_list@[w];
    if fm.index >= s.list@.len() {
        Seq::empty()
    } else {
        let name = spec_derived_name(s.list@[fm.index as int]@);
        let selected = w == vstd::math::min(s.selected_item_index as int, height as int);
        match spec_session_with_name(s.session_list@, name) {
            Some(si) => seq![
                RowModel {
                    text: crate::session_tree::spec_session_label(s.session_list@[si]),
                    highlights: Seq::empty(),
                    indent: 0,
                    selected,
                },
            ],
            None => seq![
                RowModel { text: name, highlights: fm.positions@, indent: 0, selected },
            ],
        }
    }
}

/// The rows of the first `w` window positions.
pub open spec fn spec_flat_rows_upto(s: NewSessionList, height: usize, w: int) -> Seq<RowModel>
    decreases w,
{
    if w <= 0 {
        Seq::empty()
    } else {
        spec_flat_rows_upto(s, height, w - 1) + spec_flat_row(s, w - 1, height)
    }
}

/// The windowed display list: at most `height + 1` leading entries of the
/// filtered view.
pub open spec fn spec_flat_rows(s: NewSessionList, height: usize) -> Seq<RowModel> {
    spec_flat_rows_upto(
        s,
        height,
        vstd::math::min(s.filtered_list@.len() as int, height as int + 1),
    )
}

fn copy_positions(v: &Vec<usize>) -> (r: Vec<usize>)
    ensures
        r@ == v@,
{
    let mut r: Vec<usize> = Vec::new();
    let mut i: usize = 0;
    while i < v.len()
        invariant
            i <= v@.len(),
            r@ =~= v@.take(i as int),
        decreases v@.len() - i,
    {
        r.push(v[i]);
        proof {
            assert(r@ =~= v@.take(i as int + 1));
        }
        i += 1;
    }
    proof {
        assert(v@.take(v@.len() as int) =~= v@);
    }
    r
}

impl NewSessionList {
    /// Record `height` as the active cap and flatten the window of at most
    /// `height + 1` leading filtered entries into display rows, annotating
    /// candidates whose derived name is a running session with that
    /// session's decorated label.
    pub fn get_list(&mut self, height: usize) -> (r: Vec<DisplayRow>)
        requires
            height < usize::MAX,
        ensures
            final(self).list == old(self).list,
            final(self).session_list == old(self).session_list,
            final(self).filtered_list == old(self).filtered_list,
            final(self).filtered_list_len == old(self).filtered_list_len,
            final(self).selected_item_index == old(self).selected_item_index,
            final(self).search_query == old(self).search_query,
            final(self).max_items == Some(height),
            r@.map_values(|row: DisplayRow| row@) == spec_flat_rows(*final(self), height),
    {
        self.max_items = Some(height);
        let ghost s = *self;
        let limit = if self.filtered_list.len() < height + 1 {
            self.filtered_list.len()
        } else {
            height + 1
        };
        let mut out: Vec<DisplayRow> = Vec::new();
        let mut w: usize = 0;
        while w < limit
            invariant
                s == *self,
                w <= limit,
                limit == vstd::math::min(s.filtered_list@.len() as int, height as int + 1),
                out@.map_values(|row: DisplayRow| row@) =~= spec_flat_rows_upto(
                    s,
                    height,
                    w as int,
                ),
            decreases limit - w,
        {
            let idx = self.filtered_list[w].index;
            if idx < self.list.len() {
                let parts = derive_path_and_name(self.list[idx].as_str());
                let selected = w == if self.selected_item_index < height {
                    self.selected_item_index
                } else {
                    height
                };
                let ghost pre_map = out@.map_values(|row: DisplayRow| row@);
                match find_session_with_name(&self.session_list, &parts.1) {
                    Some(si) => {
                        proof {
                            lemma_session_with_name(self.session_list@, parts.1@);
                        }
                        let label = crate::session_tree::build_session_label(
                            &self.session_list[si],
                        );
                        out.push(
                            DisplayRow {
                                text: label,
                                highlights: Vec::new(),
                                indent: 0,
                                selected,
                            },
                        );
                    },
                    None => {
                        let highlights = copy_positions(&self.filtered_list[w].positions);
                        out.push(
                            DisplayRow { text: parts.1, highlights, indent: 0, selected },
                        );
                    },
                }
                proof {
                    assert(out@.map_values(|row: DisplayRow| row@) =~= pre_map.push(
                        out@[out@.len() - 1]@,
                    ));
                    assert(seq![out@[out@.len() - 1]@] =~= spec_flat_row(s, w as int, height));
                    assert(out@.map_values(|row: DisplayRow| row@) =~= spec_flat_rows_upto(
                        s,
                        height,
                        w as int + 1,
                    ));
                }
            } else {
                proof {
                    assert(spec_flat_row(s, w as int, height) =~= Seq::<RowModel>::empty());
                    assert(out@.map_values(|row: DisplayRow| row@) =~= spec_flat_rows_upto(
                        s,
                        height,
                        w as int + 1,
                    ));
                }
            }
            w += 1;
        }
        out
    }
}

/// Once the selection sits at or below `min(len - 1, cap)`, one more
/// `select_next` keeps it there: the flat navigation never scrolls past the
/// last filtered row nor past the recorded height cap.
pub proof fn lemma_flat_next_bounded(s: NewSessionList, m: usize)
    requires
        s.max_items == Some(m),
        s.filtered_list@.len() > 0,
        s.selected_item_index as int <= vstd::math::min(s.filtered_list@.len() - 1, m as int),
    ensures
        NewSessionList::spec_next_selection(s) as int <= vstd::math::min(
            s.filtered_list@.len() - 1,
            m as int,
        ),
{
}

/// The engine after `k` repetitions of `select_next`.
pub open spec fn iterated_flat_next(s: NewSessionList, k: nat) -> NewSessionList
    decreases k,
{
    if k == 0 {
        s
    } else {
        let prev = iterated_flat_next(s, (k - 1) as nat);
        NewSessionList { selected_item_index: NewSessionList::spec_next_selection(prev), ..prev }
    }
}

/// However often `select_next` is repeated, the flat selection never
/// exceeds `min(length - 1, height)` once it starts at or below it.
pub proof fn lemma_flat_next_bounded_forever(s: NewSessionList, m: usize, k: nat)
    requires
        s.max_items == Some(m),
        s.filtered_list@.len() > 0,
        s.selected_item_index as int <= vstd::math::min(s.filtered_list@.len() - 1, m as int),
    ensures
        iterated_flat_next(s, k).selected_item_index as int <= vstd::math::min(
            s.filtered_list@.len() - 1,
            m as int,
        ),
        iterated_flat_next(s, k).filtered_list == s.filtered_list,
        iterated_flat_next(s, k).max_items == s.max_items,
    decreases k,
{
    if k > 0 {
        lemma_flat_next_bounded_forever(s, m, (k - 1) as nat);
        lemma_flat_next_bounded(iterated_flat_next(s, (k - 1) as nat), m);
    }
}

} // verus!
