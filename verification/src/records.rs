//! The entity records of one snapshot: sessions holding tabs, and for each
//! tab position the panes it owns.  A snapshot is replaced wholesale on every
//! update and never merged.

use vstd::prelude::*;

verus! {

/// One pane of a tab.
pub struct PaneRecord {
    pub title: String,
    pub id: u32,
    pub is_selectable: bool,
}

/// One tab of a session.
pub struct TabRecord {
    pub name: String,
    pub position: usize,
}

/// The panes a session owns for one tab position.
pub struct PaneGroup {
    pub position: usize,
    pub panes: Vec<PaneRecord>,
}

/// One session of the snapshot.
pub struct SessionRecord {
    pub name: String,
    pub connected_clients: usize,
    pub tabs: Vec<TabRecord>,
    pub pane_groups: Vec<PaneGroup>,
}

/// The first group of `groups` at `position`, if any.
pub open spec fn spec_group_at(groups: Seq<PaneGroup>, position: usize) -> Option<int>
    decreases groups.len(),
{
    if groups.len() == 0 {
        None
    } else if groups[0].position == position {
        Some(0int)
    } else {
        match spec_group_at(groups.drop_first(), position) {
            Some(i) => Some(i + 1),
            None => None,
        }
    }
}

/// `spec_group_at` returns the index of the first group at `position`.
pub proof fn lemma_group_at(groups: Seq<PaneGroup>, position: usize)
    ensures
        match spec_group_at(groups, position) {
            Some(i) => 0 <= i < groups.len() && groups[i].position == position && forall|j: int|
                0 <= j < i ==> (#[trigger] groups[j]).position != position,
            None => forall|j: int|
                0 <= j < groups.len() ==> (#[trigger] groups[j]).position != position,
        },
    decreases groups.len(),
{
    if groups.len() > 0 && groups[0].position != position {
        let rest = groups.drop_first();
        lemma_group_at(rest, position);
        assert(forall|j: int| 0 <= j < rest.len() ==> #[trigger] rest[j] == groups[j + 1]);
        match spec_group_at(rest, position) {
            Some(i) => {
                assert(groups[i + 1].position == position);
                assert forall|j: int|
                    0 <= j < i + 1 implies (#[trigger] groups[j]).position != position by {
                    if j > 0 {
                        assert(rest[j - 1] == groups[j]);
                    }
                }
            },
            None => {
                assert forall|j: int|
                    0 <= j < groups.len() implies (#[trigger] groups[j]).position != position by {
                    if j > 0 {
                        assert(rest[j - 1] == groups[j]);
                    }
                }
            },
        }
    }
}

/// The number of selectable panes in `panes`.
pub open spec fn spec_selectable_count(panes: Seq<PaneRecord>) -> int
    decreases panes.len(),
{
    if panes.len() == 0 {
        0
    } else {
        spec_selectable_count(panes.drop_last()) + if panes.last().is_selectable {
            1int
        } else {
            0int
        }
    }
}

/// The session names of a snapshot, in order.
pub fn session_names(sessions: &Vec<SessionRecord>) -> (r: Vec<String>)
    ensures
        r@.map_values(|s: String| s@) == sessions@.map_values(|x: SessionRecord| x.name@),
{
    let mut r: Vec<String> = Vec::new();
    let mut i: usize = 0;
    while i < sessions.len()
        invariant
            i <= sessions@.len(),
            r@.map_values(|s: String| s@) =~= sessions@.map_values(
                |x: SessionRecord| x.name@,
            ).take(i as int),
        decreases sessions@.len() - i,
    {
        let ghost pre_map = r@.map_values(|s: String| s@);
        r.push(sessions[i].name.clone());
        proof {
            assert(r@.map_values(|s: String| s@) =~= pre_map.push(r@[r@.len() - 1]@));
            assert(r@[r@.len() - 1]@ == sessions@[i as int].name@);
            assert(r@.map_values(|s: String| s@) =~= sessions@.map_values(
                |x: SessionRecord| x.name@,
            ).take(i as int + 1));
        }
        i += 1;
    }
    proof {
        let names = sessions@.map_values(|x: SessionRecord| x.name@);
        assert(names.take(names.len() as int) =~= names);
    }
    r
}

/// The tab names of a session, in order.
pub fn tab_names(tabs: &Vec<TabRecord>) -> (r: Vec<String>)
    ensures
        r@.map_values(|s: String| s@) == tabs@.map_values(|t: TabRecord| t.name@),
{
    let mut r: Vec<String> = Vec::new();
    let mut i: usize = 0;
    while i < tabs.len()
        invariant
            i <= tabs@.len(),
            r@.map_values(|s: String| s@) =~= tabs@.map_values(|t: TabRecord| t.name@).take(
                i as int,
            ),
        decreases tabs@.len() - i,
    {
        let ghost pre_map = r@.map_values(|s: String| s@);
        r.push(tabs[i].name.clone());
        proof {
            assert(r@.map_values(|s: String| s@) =~= pre_map.push(r@[r@.len() - 1]@));
            assert(r@[r@.len() - 1]@ == tabs@[i as int].name@);
            assert(r@.map_values(|s: String| s@) =~= tabs@.map_values(|t: TabRecord| t.name@).take(
                i as int + 1,
            ));
        }
        i += 1;
    }
    proof {
        let names = tabs@.map_values(|t: TabRecord| t.name@);
        assert(names.take(names.len() as int) =~= names);
    }
    r
}

/// The pane titles of a group, in order.
pub fn pane_titles(panes: &Vec<PaneRecord>) -> (r: Vec<String>)
    ensures
        r@.map_values(|s: String| s@) == panes@.map_values(|p: PaneRecord| p.title@),
{
    let mut r: Vec<String> = Vec::new();
    let mut i: usize = 0;
    while i < panes.len()
        invariant
            i <= panes@.len(),
            r@.map_values(|s: String| s@) =~= panes@.map_values(|p: PaneRecord| p.title@).take(
                i as int,
            ),
        decreases panes@.len() - i,
    {
        let ghost pre_map = r@.map_values(|s: String| s@);
        r.push(panes[i].title.clone());
        proof {
            assert(r@.map_values(|s: String| s@) =~= pre_map.push(r@[r@.len() - 1]@));
            assert(r@[r@.len() - 1]@ == panes@[i as int].title@);
            assert(r@.map_values(|s: String| s@) =~= panes@.map_values(
                |p: PaneRecord| p.title@,
            ).take(i as int + 1));
        }
        i += 1;
    }
    proof {
        let titles = panes@.map_values(|p: PaneRecord| p.title@);
        assert(titles.take(titles.len() as int) =~= titles);
    }
    r
}

impl SessionRecord {
    /// The first pane group this session owns at `position`, if any.
    pub fn group_at(&self, position: usize) -> (r: Option<&PaneGroup>)
        ensures
            match r {
                Some(g) => {
                    &&& spec_group_at(self.pane_groups@, position) is Some
                    &&& *g == self.pane_groups@[spec_group_at(self.pane_groups@, position)->0]
                },
                None => spec_group_at(self.pane_groups@, position) is None,
            },
    {
        let ghost groups = self.pane_groups@;
        proof {
            assert(groups.skip(0) =~= groups);
        }
        let mut i: usize = 0;
        while i < self.pane_groups.len()
            invariant
                i <= groups.len(),
                groups == self.pane_groups@,
                forall|j: int| 0 <= j < i ==> (#[trigger] groups[j]).position != position,
                spec_group_at(groups, position) == match spec_group_at(
                    groups.skip(i as int),
                    position,
                ) {
                    Some(k) => Some(k + i),
                    None => None::<int>,
                },
            decreases groups.len() - i,
        {
            proof {
                assert(groups.skip(i as int)[0] == groups[i as int]);
                assert(groups.skip(i as int).drop_first() =~= groups.skip(i as int + 1));
            }
            if self.pane_groups[i].position == position {
                return Some(&self.pane_groups[i]);
            }
            i += 1;
        }
        proof {
            assert(groups.skip(groups.len() as int) =~= Seq::<PaneGroup>::empty());
        }
        None
    }
}

impl PaneGroup {
    /// How many of this group's panes are selectable.
    pub fn selectable_count(&self) -> (r: usize)
        ensures
            r == spec_selectable_count(self.panes@),
    {
        let mut count: usize = 0;
        let mut i: usize = 0;
        while i < self.panes.len()
            invariant
                i <= self.panes@.len(),
                count == spec_selectable_count(self.panes@.take(i as int)),
                count <= i,
            decreases self.panes@.len() - i,
        {
            proof {
                assert(self.panes@.take(i as int + 1).drop_last() =~= self.panes@.take(i as int));
            }
            if self.panes[i].is_selectable {
                count += 1;
            }
            i += 1;
        }
        proof {
            assert(self.panes@.take(self.panes@.len() as int) =~= self.panes@);
        }
        count
    }
}

} // verus!
