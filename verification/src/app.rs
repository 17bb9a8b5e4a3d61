//! The viewer's state: the flows, the filtered list shown, the selection,
//! and the operations the keys drive.
use crate::flow::{newest_first_of, sort_newest_first, Flow};
use crate::text::{chars_of, lowercase_text, occurs, occurs_in, to_lowercase};
use crate::time::{rfc3339_text, Timestamp};
use vstd::prelude::*;
use vstd::string::*;

verus! {

/// What the keyboard currently drives.
#[derive(Clone, Copy, Debug, PartialEq, Eq, Structural)]
pub enum Mode {
    Normal,
    Filter,
    Detail,
    Help,
}

/// The viewer's whole state.
pub struct App {
    pub flows: Vec<Flow>,
    pub filtered: Vec<usize>,
    pub selected: usize,
    pub filter_text: String,
    pub mode: Mode,
    pub status: Option<String>,
    pub should_quit: bool,
    /// When true (the default), a reload jumps the selection to the newest
    /// flow; when false, a reload keeps the flow that was selected, so older
    /// traffic can be inspected while new traffic arrives.
    pub follow_live: bool,
    /// The capture log this viewer follows.
    pub log_path: String,
}

/// A flow is listed under `needle` (an already lowercased filter) when the
/// filter is empty or occurs in its lowercased pipeline name or rendering.
pub open spec fn flow_matches(f: Flow, needle: Seq<char>) -> bool {
    ||| needle.len() == 0
    ||| occurs_in(needle, lowercase_text(f.pipeline@))
    ||| occurs_in(needle, lowercase_text(f.rendered@))
}

/// The indices below `n` of the flows listed under `needle`, ascending.
pub open spec fn matching_indices(flows: Seq<Flow>, needle: Seq<char>, n: int) -> Seq<usize>
    decreases n,
{
    if n <= 0 {
        Seq::empty()
    } else if flow_matches(flows[n - 1], needle) {
        matching_indices(flows, needle, n - 1).push((n - 1) as usize)
    } else {
        matching_indices(flows, needle, n - 1)
    }
}

/// The indices of the flows that the filter text lists.
pub open spec fn listed(flows: Seq<Flow>, filter_text: Seq<char>) -> Seq<usize> {
    matching_indices(flows, lowercase_text(filter_text), flows.len() as int)
}

/// A selection pulled back into a list of `len` entries (0 when it is empty).
pub open spec fn clamped(sel: usize, len: int) -> usize {
    if sel >= len {
        if len > 0 {
            (len - 1) as usize
        } else {
            0
        }
    } else {
        sel
    }
}

/// Position `pos` of the shown list holds a flow of pipeline `pipeline` captured at `at`.
pub open spec fn shows_flow_at(
    flows: Seq<Flow>,
    filtered: Seq<usize>,
    pos: int,
    pipeline: Seq<char>,
    at: Timestamp,
) -> bool {
    &&& 0 <= pos < filtered.len()
    &&& filtered[pos] < flows.len()
    &&& flows[filtered[pos] as int].pipeline@ == pipeline
    &&& flows[filtered[pos] as int].at == at
}

pub proof fn lemma_matching_indices(flows: Seq<Flow>, needle: Seq<char>, n: int)
    requires
        n <= flows.len(),
        n <= usize::MAX,
    ensures
        forall|i: int| 0 <= i < matching_indices(flows, needle, n).len() ==> #[trigger] matching_indices(flows, needle, n)[i] < n,
        forall|i: int, j: int| 0 <= i < j < matching_indices(flows, needle, n).len() ==> #[trigger] matching_indices(flows, needle, n)[i] < #[trigger] matching_indices(flows, needle, n)[j],
        matching_indices(flows, needle, n).len() <= if n < 0 { 0 } else { n },
    decreases n,
{
    if n > 0 {
        lemma_matching_indices(flows, needle, n - 1);
        let m = matching_indices(flows, needle, n - 1);
        let r = matching_indices(flows, needle, n);
        assert forall|i: int, j: int| 0 <= i < j < r.len() implies #[trigger] r[i] < #[trigger] r[j] by {
            if flow_matches(flows[n - 1], needle) {
                assert(r == m.push((n - 1) as usize));
                if j == m.len() {
                    assert(r[i] == m[i]);
                    assert(m[i] < n - 1);
                } else {
                    assert(r[i] == m[i] && r[j] == m[j]);
                }
            } else {
                assert(r == m);
            }
        }
    }
}

/// The selection after moving down a list of `len` entries.
pub open spec fn after_next(sel: usize, len: int) -> usize {
    if len > 0 {
        ((sel + 1) % len) as usize
    } else {
        sel
    }
}

/// The selection after moving up a list of `len` entries.
pub open spec fn after_previous(sel: usize, len: int) -> usize {
    if len > 0 {
        if sel == 0 {
            (len - 1) as usize
        } else {
            (sel - 1) as usize
        }
    } else {
        sel
    }
}

/// The status text shown after switching to (`true`) or away from following.
pub open spec fn follow_status(follow_live: bool) -> Seq<char> {
    if follow_live {
        "following live traffic"@
    } else {
        "browsing — new traffic won't move your selection"@
    }
}

/// Under an empty needle every index below `n` is listed.
pub proof fn lemma_empty_needle_lists_all(flows: Seq<Flow>, n: int)
    requires
        0 <= n <= flows.len(),
        n <= usize::MAX,
    ensures
        matching_indices(flows, Seq::empty(), n) == Seq::new(n as nat, |i: int| i as usize),
    decreases n,
{
    if n > 0 {
        lemma_empty_needle_lists_all(flows, n - 1);
        assert(Seq::new(n as nat, |i: int| i as usize) =~= Seq::new((n - 1) as nat, |i: int| i as usize).push((n - 1) as usize));
    } else {
        assert(Seq::new(0, |i: int| i as usize) =~= Seq::<usize>::empty());
    }
}

/// `after` is `before` with its flows sorted newest first, the list
/// recomputed from the filter text (every flow when it is empty) and the
/// selection pulled back into the list; nothing else changes.
pub open spec fn sorted_and_filtered(before: App, after: App) -> bool {
    &&& after.wf()
    &&& newest_first_of(after.flows@, before.flows@)
    &&& after.filtered@ == listed(after.flows@, before.filter_text@)
    &&& before.filter_text@.len() == 0 ==> after.filtered@ == Seq::new(
        after.flows@.len(),
        |i: int| i as usize,
    )
    &&& after.selected == clamped(before.selected, after.filtered@.len() as int)
    &&& after.filter_text == before.filter_text
    &&& after.mode == before.mode
    &&& after.status == before.status
    &&& after.should_quit == before.should_quit
    &&& after.follow_live == before.follow_live
    &&& after.log_path == before.log_path
}

/// `after` is `before` reloaded with `flows`: the flows re-sorted newest
/// first, the list recomputed for the unchanged filter text (every flow when
/// it is empty); when following live the newest is selected, otherwise the
/// flow that was selected (same pipeline and instant) stays selected at its
/// first listed position if it is still listed, else the selection is pulled
/// into the list. Mode, filter text, quit flag, follow flag and log path stay.
pub open spec fn reloaded(before: App, after: App, flows: Seq<Flow>) -> bool {
    &&& after.wf()
    &&& newest_first_of(after.flows@, flows)
    &&& after.filtered@ == listed(after.flows@, before.filter_text@)
    &&& before.filter_text@.len() == 0 ==> after.filtered@ == Seq::new(
        after.flows@.len(),
        |i: int| i as usize,
    )
    &&& after.follow_live ==> after.selected == 0
    &&& !after.follow_live ==> match before.selection() {
        Some(i) => {
            let pipeline = before.flows@[i].pipeline@;
            let at = before.flows@[i].at;
            if exists|pos: int| shows_flow_at(after.flows@, after.filtered@, pos, pipeline, at) {
                &&& shows_flow_at(after.flows@, after.filtered@, after.selected as int, pipeline, at)
                &&& forall|q: int|
                    0 <= q < after.selected ==> !shows_flow_at(after.flows@, after.filtered@, q, pipeline, at)
            } else {
                after.selected == clamped(before.selected, after.filtered@.len() as int)
            }
        },
        None => after.selected == clamped(before.selected, after.filtered@.len() as int),
    }
    &&& after.filter_text == before.filter_text
    &&& after.mode == before.mode
    &&& after.should_quit == before.should_quit
    &&& after.follow_live == before.follow_live
    &&& after.log_path == before.log_path
}

impl App {
    /// The entries of the shown list point into the flows, and the selection
    /// is inside the list (0 when the list is empty).
    pub open spec fn wf(self) -> bool {
        &&& forall|i: int| 0 <= i < self.filtered@.len() ==> #[trigger] self.filtered@[i] < self.flows@.len()
        &&& self.filtered@.len() == 0 ==> self.selected == 0
        &&& self.filtered@.len() > 0 ==> self.selected < self.filtered@.len()
    }

    /// The index into `flows` of the selected flow, if the selection shows one.
    pub open spec fn selection(self) -> Option<int> {
        if self.selected < self.filtered@.len() && self.filtered@[self.selected as int] < self.flows@.len() {
            Some(self.filtered@[self.selected as int] as int)
        } else {
            None
        }
    }

    /// The path of the capture log this viewer follows.
    pub open spec fn log_path_view(self) -> Seq<char> {
        self.log_path@
    }

    /// A viewer of the capture log at `log_path`, showing `flows`, following
    /// live traffic, with an empty filter.
    pub fn new(log_path: String, flows: Vec<Flow>) -> (app: App)
        ensures
            app.wf(),
            newest_first_of(app.flows@, flows@),
            app.filtered@ == Seq::new(app.flows@.len(), |i: int| i as usize),
            app.selected == 0,
            app.filter_text@ == Seq::<char>::empty(),
            app.mode == Mode::Normal,
            app.status is None,
            !app.should_quit,
            app.follow_live,
            app.log_path_view() == log_path@,
    {
        let mut app = App {
            flows: Vec::new(),
            filtered: Vec::new(),
            selected: 0,
            filter_text: String::new(),
            mode: Mode::Normal,
            status: None,
            should_quit: false,
            follow_live: true,
            log_path,
        };
        app.reload(flows);
        app
    }

    /// Replaces the flows with freshly read ones, re-sorts and re-filters them;
    /// in follow mode selects the newest flow, otherwise keeps the previously
    /// selected flow (same pipeline and timestamp) selected when it is still listed.
    pub fn reload(&mut self, flows: Vec<Flow>)
        ensures
            reloaded(*old(self), *final(self), flows@),
            final(self).status == old(self).status,
    {
        let previously: Option<(String, Timestamp)> = match self.selected_flow() {
            Some(f) => Some((f.pipeline.clone(), f.at)),
            None => None,
        };
        self.flows = flows;
        self.apply_sort_and_filter();
        if self.follow_live {
            self.selected = 0;
        } else if let Some((pipeline, at)) = previously {
            let ghost fl = self.flows@;
            let ghost fi = self.filtered@;
            let mut pos: usize = 0;
            let mut found = false;
            while !found && pos < self.filtered.len()
                invariant
                    self.wf(),
                    self.flows@ == fl,
                    self.filtered@ == fi,
                    pos <= fi.len(),
                    forall|q: int| 0 <= q < pos ==> !shows_flow_at(fl, fi, q, pipeline@, at),
                    found ==> shows_flow_at(fl, fi, pos as int, pipeline@, at),
                decreases fi.len() - pos + (if found { 0int } else { 1int }),
            {
                let i = self.filtered[pos];
                if self.flows[i].pipeline == pipeline && self.flows[i].at.same_instant(&at) {
                    found = true;
                } else {
                    pos = pos + 1;
                }
            }
            if found {
                self.selected = pos;
            } else {
                proof {
                    assert forall|q: int| !shows_flow_at(fl, fi, q, pipeline@, at) by {}
                }
            }
        }
    }

    /// Sorts the flows newest first and recomputes the shown list from the
    /// filter text, pulling the selection back into the list.
    pub fn apply_sort_and_filter(&mut self)
        ensures
            sorted_and_filtered(*old(self), *final(self)),
    {
        let mut taken: Vec<Flow> = Vec::new();
        std::mem::swap(&mut taken, &mut self.flows);
        self.flows = sort_newest_first(taken);
        let lowered = to_lowercase(self.filter_text.as_str());
        let needle = chars_of(lowered.as_str());
        let ghost fl = self.flows@;
        let mut filtered: Vec<usize> = Vec::new();
        let n = self.flows.len();
        for i in 0..n
            invariant
                n == fl.len(),
                self.flows@ == fl,
                needle@ == lowercase_text(self.filter_text@),
                filtered@ == matching_indices(fl, needle@, i as int),
        {
            let f = &self.flows[i];
            let keep = if needle.len() == 0 {
                true
            } else {
                let pipeline = to_lowercase(f.pipeline.as_str());
                if occurs(&needle, &chars_of(pipeline.as_str())) {
                    true
                } else {
                    let rendered = to_lowercase(f.rendered.as_str());
                    occurs(&needle, &chars_of(rendered.as_str()))
                }
            };
            if keep {
                filtered.push(i);
            }
        }
        proof {
            lemma_matching_indices(fl, needle@, n as int);
            if self.filter_text@.len() == 0 {
                assert(needle@ =~= Seq::<char>::empty());
                lemma_empty_needle_lists_all(fl, n as int);
            }
        }
        self.filtered = filtered;
        if self.selected >= self.filtered.len() {
            self.selected = if self.filtered.len() > 0 {
                self.filtered.len() - 1
            } else {
                0
            };
        }
    }

    /// The selected flow, if the selection shows one.
    pub fn selected_flow(&self) -> (f: Option<&Flow>)
        ensures
            f is Some <==> self.selection() is Some,
            f matches Some(f) ==> *f == self.flows@[self.selection().unwrap()],
    {
        if self.selected < self.filtered.len() {
            let i = self.filtered[self.selected];
            if i < self.flows.len() {
                return Some(&self.flows[i]);
            }
        }
        None
    }

    /// The path of the capture log, for watching it for changes.
    pub fn log_path_for_polling(&self) -> (p: &str)
        ensures
            p@ == self.log_path_view(),
    {
        self.log_path.as_str()
    }

    /// Moves the selection one entry down the shown list, from the last entry
    /// back to the first.
    pub fn next(&mut self)
        requires
            old(self).filtered@.len() > 0 ==> old(self).selected < usize::MAX,
        ensures
            *final(self) == (App {
                selected: after_next(old(self).selected, old(self).filtered@.len() as int),
                ..*old(self)
            }),
            old(self).wf() ==> final(self).wf(),
    {
        if self.filtered.len() > 0 {
            self.selected = (self.selected + 1) % self.filtered.len();
        }
    }

    /// Moves the selection one entry up the shown list, from the first entry
    /// to the last.
    pub fn previous(&mut self)
        ensures
            *final(self) == (App {
                selected: after_previous(old(self).selected, old(self).filtered@.len() as int),
                ..*old(self)
            }),
            old(self).wf() ==> final(self).wf(),
    {
        if self.filtered.len() > 0 {
            self.selected = if self.selected == 0 {
                self.filtered.len() - 1
            } else {
                self.selected - 1
            };
        }
    }

    /// Switches between following live traffic and browsing, and says so in
    /// the status line.
    pub fn toggle_follow(&mut self)
        ensures
            final(self).follow_live == !old(self).follow_live,
            final(self).status matches Some(s) && s@ == follow_status(final(self).follow_live),
            (App { status: old(self).status, follow_live: old(self).follow_live, ..*final(self) }) == *old(self),
            old(self).wf() ==> final(self).wf(),
    {
        self.follow_live = !self.follow_live;
        self.status = Some(
            if self.follow_live {
                String::from_str("following live traffic")
            } else {
                String::from_str("browsing — new traffic won't move your selection")
            },
        );
    }
}

/// The detail text of a flow: its fields one per line, then its rendering.
pub open spec fn detail_text(f: Flow) -> Seq<char> {
    "pipeline: "@ + f.pipeline@ + "\ndirection: "@ + f.direction@ + "\nat:        "@ + rfc3339_text(
        f.at.seconds(),
        f.at.subsec(),
    ) + "\nformat:    "@ + f.format@ + "\n\n"@ + f.rendered@
}

/// The detail text of a flow, its time in RFC 3339.
pub fn detail_lines(flow: &Flow) -> (s: String)
    ensures
        s@ == detail_text(*flow),
{
    let mut s = String::from_str("pipeline: ");
    s.append(flow.pipeline.as_str());
    s.append("\ndirection: ");
    s.append(flow.direction.as_str());
    s.append("\nat:        ");
    let at = flow.at.to_rfc3339();
    s.append(at.as_str());
    s.append("\nformat:    ");
    s.append(flow.format.as_str());
    s.append("\n\n");
    s.append(flow.rendered.as_str());
    s
}

} // verus!
