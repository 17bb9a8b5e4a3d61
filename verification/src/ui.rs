//! What the screen shows: the table rows, title, status and footer lines,
//! the popups' texts, and the placement of a centered popup.
use crate::app::{detail_lines, detail_text, App, Mode};
use crate::flow::Flow;
use crate::text::{
    chars_of, decimal, decimal_string, eq_ignore_ascii_case, first_line, lemma_line_end,
    same_ignoring_ascii_case, string_of,
};
use crate::time::clock_text;
use ratatui::layout::{Constraint, Direction, Layout};
use vstd::prelude::*;
use vstd::string::*;

verus! {

/// The preview of a rendering: its first line, cut to `max_len` characters
/// with an ellipsis as the last one when it is longer.
pub open spec fn preview_text(rendered: Seq<char>, max_len: usize) -> Seq<char> {
    let line = first_line(rendered);
    if line.len() > max_len {
        line.take(if max_len > 0 { max_len - 1 } else { 0 }) + "…"@
    } else {
        line
    }
}

/// The first line of `rendered`, at most `max_len` characters long (the last
/// one an ellipsis when it was cut).
pub fn one_line_preview(rendered: &str, max_len: usize) -> (s: String)
    ensures
        s@ == preview_text(rendered@, max_len),
{
    let cs = chars_of(rendered);
    let mut e: usize = 0;
    while e < cs.len() && cs[e] != '\n'
        invariant
            e <= cs@.len(),
            forall|j: int| 0 <= j < e ==> cs@[j] != '\n',
        decreases cs@.len() - e,
    {
        e = e + 1;
    }
    proof {
        lemma_line_end(cs@, e as int);
    }
    let end = if e < cs.len() && e > 0 && cs[e - 1] == '\r' {
        e - 1
    } else {
        e
    };
    assert(first_line(cs@) =~= cs@.subrange(0, end as int));
    if end > max_len {
        let keep = if max_len > 0 {
            max_len - 1
        } else {
            0
        };
        let mut s = string_of(&cs, 0, keep);
        s.append("…");
        assert(cs@.subrange(0, keep as int) =~= first_line(cs@).take(keep as int));
        s
    } else {
        string_of(&cs, 0, end)
    }
}

/// One row of the flow table.
pub struct FlowRow {
    /// Time of day with milliseconds.
    pub time: String,
    pub pipeline: String,
    /// Whether the flow went outbound (its direction is `outbound` in any ASCII case).
    pub outbound: bool,
    /// `OUT` for outbound flows, `IN` for the others.
    pub direction: String,
    pub format: String,
    /// The first line of the rendering, at most 80 characters.
    pub preview: String,
}

/// The row that shows flow `f`.
pub open spec fn row_shows(r: FlowRow, f: Flow) -> bool {
    &&& r.time@ == clock_text(f.at.seconds(), f.at.subsec())
    &&& r.pipeline@ == f.pipeline@
    &&& r.outbound == eq_ignore_ascii_case(f.direction@, "outbound"@)
    &&& r.direction@ == if r.outbound { "OUT"@ } else { "IN"@ }
    &&& r.format@ == f.format@
    &&& r.preview@ == preview_text(f.rendered@, 80)
}

/// The row for one flow.
pub fn flow_row(f: &Flow) -> (r: FlowRow)
    ensures
        row_shows(r, *f),
{
    let dir = chars_of(f.direction.as_str());
    let outbound_word = chars_of("outbound");
    let outbound = same_ignoring_ascii_case(&dir, &outbound_word);
    FlowRow {
        time: f.at.clock_millis(),
        pipeline: f.pipeline.clone(),
        outbound,
        direction: if outbound {
            String::from_str("OUT")
        } else {
            String::from_str("IN")
        },
        format: f.format.clone(),
        preview: one_line_preview(f.rendered.as_str(), 80),
    }
}

/// The table rows: one per listed flow, in list order.
pub fn table_rows(app: &App) -> (rows: Vec<FlowRow>)
    requires
        forall|i: int| 0 <= i < app.filtered@.len() ==> #[trigger] app.filtered@[i] < app.flows@.len(),
    ensures
        rows@.len() == app.filtered@.len(),
        forall|k: int| 0 <= k < rows@.len() ==> row_shows(#[trigger] rows@[k], app.flows@[app.filtered@[k] as int]),
{
    let mut rows: Vec<FlowRow> = Vec::new();
    for k in 0..app.filtered.len()
        invariant
            forall|i: int| 0 <= i < app.filtered@.len() ==> #[trigger] app.filtered@[i] < app.flows@.len(),
            rows@.len() == k,
            forall|j: int| 0 <= j < k ==> row_shows(#[trigger] rows@[j], app.flows@[app.filtered@[j] as int]),
    {
        let i = app.filtered[k];
        rows.push(flow_row(&app.flows[i]));
    }
    rows
}

/// The table's title: the number of flows and whether the view follows live traffic.
pub open spec fn title_text(app: App) -> Seq<char> {
    " echo — "@ + decimal(app.flows@.len()) + " flows"@ + (if app.follow_live {
        " [following]"@
    } else {
        " [browsing]"@
    }) + " "@
}

pub fn table_title(app: &App) -> (s: String)
    ensures
        s@ == title_text(*app),
{
    let mut s = String::from_str(" echo — ");
    let n = decimal_string(app.flows.len());
    s.append(n.as_str());
    s.append(" flows");
    if app.follow_live {
        s.append(" [following]");
    } else {
        s.append(" [browsing]");
    }
    s.append(" ");
    s
}

/// The table row to highlight: the selection, unless the list is empty.
pub fn table_selection(app: &App) -> (sel: Option<usize>)
    ensures
        sel == if app.filtered@.len() == 0 {
            None
        } else {
            Some(app.selected)
        },
{
    if app.filtered.len() == 0 {
        None
    } else {
        Some(app.selected)
    }
}

/// The colour role of the status line.
#[derive(Clone, Copy, Debug, PartialEq, Eq, Structural)]
pub enum Tone {
    Cyan,
    Red,
}

/// The status line below the table.
pub struct StatusLine {
    pub text: String,
    pub tone: Tone,
}

/// The hint shown while no flow has been captured.
pub open spec fn waiting_text() -> Seq<char> {
    "no flows yet — waiting for traffic through a WraithFlow pipeline with capture_log enabled"@
}

/// The status line: the filter being edited, the waiting hint while there is
/// no flow, or the last status message.
pub fn status_line(app: &App) -> (line: StatusLine)
    ensures
        app.mode == Mode::Filter ==> line.text@ == "filter: "@ + app.filter_text@ + "_"@ && line.tone
            == Tone::Cyan,
        app.mode != Mode::Filter && app.flows@.len() == 0 ==> line.text@ == waiting_text()
            && line.tone == Tone::Red,
        app.mode != Mode::Filter && app.flows@.len() > 0 ==> line.tone == Tone::Cyan && line.text@
            == match app.status {
            Some(s) => s@,
            None => Seq::<char>::empty(),
        },
{
    if app.mode == Mode::Filter {
        let mut s = String::from_str("filter: ");
        s.append(app.filter_text.as_str());
        s.append("_");
        StatusLine { text: s, tone: Tone::Cyan }
    } else if app.flows.len() == 0 {
        StatusLine {
            text: String::from_str(
                "no flows yet — waiting for traffic through a WraithFlow pipeline with capture_log enabled",
            ),
            tone: Tone::Red,
        }
    } else {
        let text = match &app.status {
            Some(s) => s.clone(),
            None => String::new(),
        };
        StatusLine { text, tone: Tone::Cyan }
    }
}

/// The key reminder at the bottom of the screen.
pub open spec fn footer_of(follow_live: bool) -> Seq<char> {
    "j/k nav  enter/l details  /  filter  "@ + (if follow_live {
        "f pause"@
    } else {
        "f follow"@
    }) + "  R reload  ? help  q quit"@
}

pub fn footer_text(app: &App) -> (s: String)
    ensures
        s@ == footer_of(app.follow_live),
{
    let mut s = String::from_str("j/k nav  enter/l details  /  filter  ");
    if app.follow_live {
        s.append("f pause");
    } else {
        s.append("f follow");
    }
    s.append("  R reload  ? help  q quit");
    s
}

/// The text of the detail popup: the selected flow's detail, or nothing.
pub fn detail_popup_text(app: &App) -> (s: String)
    ensures
        s@ == match app.selection() {
            Some(i) => detail_text(app.flows@[i]),
            None => Seq::<char>::empty(),
        },
{
    match app.selected_flow() {
        Some(f) => detail_lines(f),
        None => String::new(),
    }
}

/// The lines of the help popup, one key binding each.
pub open spec fn help_lines() -> Seq<Seq<char>> {
    seq![
        "j/k, ↑/↓   move"@,
        "/          filter by pipeline name or content"@,
        "enter, l   show full flow detail"@,
        "f          toggle follow-live / browse-history"@,
        "R          reload the capture log from disk"@,
        "?          toggle this help"@,
        "q, Esc     quit (Esc closes a popup first)"@,
    ]
}

/// The help popup's text: the help lines joined by newlines.
pub fn help_text() -> (s: String)
    ensures
        s@ == help_lines()[0] + "\n"@ + help_lines()[1] + "\n"@ + help_lines()[2] + "\n"@
            + help_lines()[3] + "\n"@ + help_lines()[4] + "\n"@ + help_lines()[5] + "\n"@
            + help_lines()[6],
{
    let mut s = String::from_str("j/k, ↑/↓   move");
    s.append("\n");
    s.append("/          filter by pipeline name or content");
    s.append("\n");
    s.append("enter, l   show full flow detail");
    s.append("\n");
    s.append("f          toggle follow-live / browse-history");
    s.append("\n");
    s.append("R          reload the capture log from disk");
    s.append("\n");
    s.append("?          toggle this help");
    s.append("\n");
    s.append("q, Esc     quit (Esc closes a popup first)");
    s
}

/// A screen area.
#[derive(Clone, Copy, Debug, PartialEq, Eq, Structural)]
pub struct Rect {
    pub x: u16,
    pub y: u16,
    pub width: u16,
    pub height: u16,
}

/// `part` lies in `area`, split vertically or horizontally: along the split
/// it starts no earlier and ends no later than `area`; across it, it has
/// `area`'s position and extent.
pub open spec fn lies_along(vertical: bool, area: Rect, part: Rect) -> bool {
    if vertical {
        &&& part.x == area.x
        &&& part.width == area.width
        &&& area.y <= part.y
        &&& part.y + part.height <= area.y + area.height
    } else {
        &&& part.y == area.y
        &&& part.height == area.height
        &&& area.x <= part.x
        &&& part.x + part.width <= area.x + area.width
    }
}

/// `inner` lies wholly inside `outer`.
pub open spec fn contains_rect(outer: Rect, inner: Rect) -> bool {
    &&& outer.x <= inner.x
    &&& inner.x + inner.width <= outer.x + outer.width
    &&& outer.y <= inner.y
    &&& inner.y + inner.height <= outer.y + outer.height
}

/// Where `r` starts along a split: its row when vertical, its column otherwise.
pub open spec fn start_along(vertical: bool, r: Rect) -> int {
    if vertical {
        r.y as int
    } else {
        r.x as int
    }
}

/// Where `r` ends along a split, one past its last cell.
pub open spec fn end_along(vertical: bool, r: Rect) -> int {
    if vertical {
        r.y + r.height
    } else {
        r.x + r.width
    }
}

/// How many cells of `area` a split shares out: its length along the split,
/// cut where the coordinates end (ratatui's `right()` and `bottom()` stop at
/// `u16::MAX`).
pub open spec fn reach(vertical: bool, area: Rect) -> int {
    if end_along(vertical, area) <= u16::MAX {
        end_along(vertical, area) - start_along(vertical, area)
    } else {
        u16::MAX - start_along(vertical, area)
    }
}

/// The point `b` lies within half a cell of the point `pct`% of `cells`
/// past `start`.
pub open spec fn near_percent(b: int, start: int, cells: int, pct: int) -> bool {
    -50 <= 100 * (b - start) - cells * pct <= 50
}

/// `parts` share out `area` along a split by the percentages `first`,
/// `middle`, `last`: they follow one another from the start of `area`, each
/// beginning where the one before ends, every boundary within half a cell of
/// its running percentage of the area (so each length within a cell of its
/// own percentage), and across the split each has `area`'s position and
/// extent.
pub open spec fn percent_parts(vertical: bool, area: Rect, parts: Seq<Rect>, first: int, middle: int, last: int) -> bool {
    let s = start_along(vertical, area);
    let cells = reach(vertical, area);
    &&& parts.len() == 3
    &&& forall|i: int| 0 <= i < 3 ==> lies_along(vertical, area, #[trigger] parts[i])
    &&& start_along(vertical, parts[0]) == s
    &&& start_along(vertical, parts[1]) == end_along(vertical, parts[0])
    &&& start_along(vertical, parts[2]) == end_along(vertical, parts[1])
    &&& near_percent(end_along(vertical, parts[0]), s, cells, first)
    &&& near_percent(end_along(vertical, parts[1]), s, cells, first + middle)
    &&& near_percent(end_along(vertical, parts[2]), s, cells, first + middle + last)
}

/// Calls ratatui's `Layout::split` (default margin, spacing and flex, which
/// is `Flex::Start`) with the three constraints `Percentage(first)`,
/// `Percentage(middle)`, `Percentage(last)`, which add up to at most 100.
/// Claims what every solution has (`percent_parts`): the solver's required
/// constraints keep every boundary inside the area, and the stronger ones (no
/// empty first spacer, no spacer between parts, each part its percentage)
/// can all hold at once and outweigh the weak growing ones, so each boundary
/// sits at its exact running percentage before it is rounded to a cell.
/// Which way a boundary at exactly half a cell is rounded is left unsaid.
#[verifier::external_body]
fn split_percentages(vertical: bool, area: Rect, first: u16, middle: u16, last: u16) -> (parts: Vec<Rect>)
    requires
        first + middle + last <= 100,
    ensures
        percent_parts(vertical, area, parts@, first as int, middle as int, last as int),
{
    let whole = ratatui::layout::Rect { x: area.x, y: area.y, width: area.width, height: area.height };
    let parts = Layout::default()
        .direction(if vertical { Direction::Vertical } else { Direction::Horizontal })
        .constraints([Constraint::Percentage(first), Constraint::Percentage(middle), Constraint::Percentage(last)])
        .split(whole);
    parts.iter().map(|r| Rect { x: r.x, y: r.y, width: r.width, height: r.height }).collect()
}

/// The row band of `area` from `start` cells down, `height` cells high.
pub open spec fn row_band(area: Rect, start: int, height: int) -> Rect {
    Rect { x: area.x, y: (area.y + start) as u16, width: area.width, height: height as u16 }
}

/// Calls ratatui's `Layout::split` (default margin, spacing and flex) on
/// `area`, vertically, with `Min(3)`, `Length(1)`, `Length(1)`. Claims three
/// rows lying in `area`; and, when `area` has at least five rows to share,
/// that the two lengths are met and the first row takes the rest: the
/// constraints stronger than the growing ones then all hold at once, and the
/// first row's growing outweighs the last spacer's. With fewer rows the
/// constraints conflict and how the solver shares them is left unsaid.
#[verifier::external_body]
fn split_min_one_one(area: Rect) -> (parts: Vec<Rect>)
    ensures
        parts@.len() == 3,
        forall|i: int| 0 <= i < 3 ==> lies_along(true, area, #[trigger] parts@[i]),
        reach(true, area) >= 5 ==> {
            &&& parts@[0] == row_band(area, 0, reach(true, area) - 2)
            &&& parts@[1] == row_band(area, reach(true, area) - 2, 1)
            &&& parts@[2] == row_band(area, reach(true, area) - 1, 1)
        },
{
    let whole = ratatui::layout::Rect { x: area.x, y: area.y, width: area.width, height: area.height };
    let parts = Layout::default()
        .direction(Direction::Vertical)
        .constraints([Constraint::Min(3), Constraint::Length(1), Constraint::Length(1)])
        .split(whole);
    parts.iter().map(|r| Rect { x: r.x, y: r.y, width: r.width, height: r.height }).collect()
}

/// The screen's bands: the flow table on top, then the status line, then the
/// footer line at the bottom. With five rows or more the two lines take one
/// row each and the table the rest.
pub fn screen_bands(area: Rect) -> (bands: (Rect, Rect, Rect))
    ensures
        lies_along(true, area, bands.0),
        lies_along(true, area, bands.1),
        lies_along(true, area, bands.2),
        reach(true, area) >= 5 ==> {
            &&& bands.0 == row_band(area, 0, reach(true, area) - 2)
            &&& bands.1 == row_band(area, reach(true, area) - 2, 1)
            &&& bands.2 == row_band(area, reach(true, area) - 1, 1)
        },
{
    let parts = split_min_one_one(area);
    assert(lies_along(true, area, parts@[0]));
    assert(lies_along(true, area, parts@[1]));
    assert(lies_along(true, area, parts@[2]));
    (parts[0], parts[1], parts[2])
}

/// A popup area of `percent_x`% by `percent_y`% of `area`, centered in it:
/// the middle row band of `area`, split `(100 - percent_y) / 2`, `percent_y`,
/// `(100 - percent_y) / 2`, then the middle column band of that row band,
/// split likewise by `percent_x`. Each of its edges is within half a cell of
/// where those percentages put it.
pub fn centered_rect(percent_x: u16, percent_y: u16, area: Rect) -> (r: Rect)
    requires
        percent_x <= 100,
        percent_y <= 100,
    ensures
        contains_rect(area, r),
        near_percent(r.y as int, area.y as int, reach(true, area), ((100 - percent_y) / 2) as int),
        near_percent(
            r.y + r.height,
            area.y as int,
            reach(true, area),
            (100 - percent_y) / 2 + percent_y,
        ),
        near_percent(r.x as int, area.x as int, reach(false, area), ((100 - percent_x) / 2) as int),
        near_percent(
            r.x + r.width,
            area.x as int,
            reach(false, area),
            (100 - percent_x) / 2 + percent_x,
        ),
{
    let side_y = (100 - percent_y) / 2;
    let rows = split_percentages(true, area, side_y, percent_y, side_y);
    let band = rows[1];
    let side_x = (100 - percent_x) / 2;
    let cols = split_percentages(false, band, side_x, percent_x, side_x);
    assert(lies_along(true, area, rows@[1]));
    assert(lies_along(false, band, cols@[1]));
    cols[1]
}

} // verus!
