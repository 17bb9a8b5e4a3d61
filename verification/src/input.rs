//! What each key does in each mode. The caller reads the keyboard, hands
//! the key here, and performs the effect that comes back.
use crate::app::{after_next, after_previous, clamped, follow_status, listed, reloaded, App, Mode};
use crate::flow::{newest_first_of, Flow};
use crate::text::{pop_char, push_char};
use vstd::prelude::*;
use vstd::string::*;

verus! {

/// The keys the viewer tells apart.
#[derive(Clone, Copy, Debug, PartialEq, Eq, Structural)]
pub enum KeyCode {
    Char(char),
    Esc,
    Enter,
    Backspace,
    Up,
    Down,
    Other,
}

/// What the caller has to do after a key was handled.
#[derive(Clone, Copy, Debug, PartialEq, Eq, Structural)]
pub enum Effect {
    /// Nothing beyond the state change already made.
    Nothing,
    /// Read the capture log again and hand the flows to `App::reload_requested`.
    Reload,
}

/// The commands of the normal mode.
#[derive(Clone, Copy, Debug, PartialEq, Eq, Structural)]
pub enum Command {
    Quit,
    Down,
    Up,
    EditFilter,
    ToggleFollow,
    Reload,
    OpenDetail,
    OpenHelp,
    Ignore,
}

/// The command a key gives in the normal mode (`ctrl`: the Control modifier is held).
pub open spec fn normal_command(code: KeyCode, ctrl: bool) -> Command {
    match code {
        KeyCode::Char('q') | KeyCode::Esc => Command::Quit,
        KeyCode::Char('j') | KeyCode::Down => Command::Down,
        KeyCode::Char('k') | KeyCode::Up => Command::Up,
        KeyCode::Char('/') => Command::EditFilter,
        KeyCode::Char('f') => Command::ToggleFollow,
        KeyCode::Char('R') => Command::Reload,
        KeyCode::Enter | KeyCode::Char('l') => Command::OpenDetail,
        KeyCode::Char('?') => Command::OpenHelp,
        KeyCode::Char('c') => if ctrl {
            Command::Quit
        } else {
            Command::Ignore
        },
        _ => Command::Ignore,
    }
}

/// `new` is `old` with the filter text set to `text`, the flows re-sorted and
/// the list recomputed for it, the selection pulled into the list, and the mode `mode`.
pub open spec fn refiltered(before: App, after: App, text: Seq<char>, mode: Mode) -> bool {
    &&& after.filter_text@ == text
    &&& newest_first_of(after.flows@, before.flows@)
    &&& after.filtered@ == listed(after.flows@, text)
    &&& after.selected == clamped(before.selected, after.filtered@.len() as int)
    &&& after.mode == mode
    &&& after.status == before.status
    &&& after.should_quit == before.should_quit
    &&& after.follow_live == before.follow_live
    &&& after.log_path == before.log_path
    &&& after.wf()
}

impl App {
    /// Takes freshly read flows after the reload key: reloads and reports it.
    pub fn reload_requested(&mut self, flows: Vec<Flow>)
        ensures
            reloaded(*old(self), *final(self), flows@),
            final(self).status matches Some(s) && s@ == "reloaded."@,
    {
        self.reload(flows);
        self.status = Some(String::from_str("reloaded."));
    }
}

/// The state change a key makes in the normal mode (a reload is only asked
/// for; the state stays as it was until the flows are handed back).
pub open spec fn normal_step(before: App, after: App, code: KeyCode, ctrl: bool) -> bool {
    match normal_command(code, ctrl) {
        Command::Quit => after == (App { should_quit: true, ..before }),
        Command::Down => after == (App {
            selected: after_next(before.selected, before.filtered@.len() as int),
            ..before
        }),
        Command::Up => after == (App {
            selected: after_previous(before.selected, before.filtered@.len() as int),
            ..before
        }),
        Command::EditFilter => after == (App { mode: Mode::Filter, ..before }),
        Command::ToggleFollow => {
            &&& after.follow_live == !before.follow_live
            &&& after.status matches Some(s) && s@ == follow_status(after.follow_live)
            &&& (App { status: before.status, follow_live: before.follow_live, ..after }) == before
        },
        Command::OpenDetail => after == if before.selection() is Some {
            App { mode: Mode::Detail, ..before }
        } else {
            before
        },
        Command::OpenHelp => after == (App { mode: Mode::Help, ..before }),
        Command::Reload | Command::Ignore => after == before,
    }
}

/// The effect a key has in the normal mode.
pub open spec fn normal_effect(code: KeyCode, ctrl: bool) -> Effect {
    if normal_command(code, ctrl) == Command::Reload {
        Effect::Reload
    } else {
        Effect::Nothing
    }
}

/// The state change a key makes while the filter is edited.
pub open spec fn filter_step(before: App, after: App, code: KeyCode) -> bool {
    match code {
        KeyCode::Esc => refiltered(before, after, Seq::empty(), Mode::Normal),
        KeyCode::Enter => after == (App { mode: Mode::Normal, ..before }),
        KeyCode::Backspace => refiltered(
            before,
            after,
            if before.filter_text@.len() > 0 {
                before.filter_text@.drop_last()
            } else {
                before.filter_text@
            },
            before.mode,
        ),
        KeyCode::Char(c) => refiltered(before, after, before.filter_text@.push(c), before.mode),
        _ => after == before,
    }
}

/// The state change a key makes while a flow's detail is shown.
pub open spec fn detail_step(before: App, after: App, code: KeyCode) -> bool {
    after == if code == KeyCode::Esc || code == KeyCode::Char('q') || code == KeyCode::Char('l') {
        App { mode: Mode::Normal, ..before }
    } else {
        before
    }
}

/// The state change a key makes while the help is shown.
pub open spec fn help_step(before: App, after: App, code: KeyCode) -> bool {
    after == if code == KeyCode::Esc || code == KeyCode::Char('q') || code == KeyCode::Char('?') {
        App { mode: Mode::Normal, ..before }
    } else {
        before
    }
}

/// A key in the normal mode: move, quit, open the filter, detail or help,
/// toggle following, or ask for a reload.
pub fn handle_normal(app: &mut App, code: KeyCode, ctrl: bool) -> (e: Effect)
    requires
        normal_command(code, ctrl) == Command::Down && old(app).filtered@.len() > 0
            ==> old(app).selected < usize::MAX,
    ensures
        e == normal_effect(code, ctrl),
        normal_step(*old(app), *final(app), code, ctrl),
        old(app).wf() ==> final(app).wf(),
{
    match code {
        KeyCode::Char('q') | KeyCode::Esc => {
            app.should_quit = true;
        },
        KeyCode::Char('j') | KeyCode::Down => {
            app.next();
        },
        KeyCode::Char('k') | KeyCode::Up => {
            app.previous();
        },
        KeyCode::Char('/') => {
            app.mode = Mode::Filter;
        },
        KeyCode::Char('f') => {
            app.toggle_follow();
        },
        KeyCode::Char('R') => {
            return Effect::Reload;
        },
        KeyCode::Enter | KeyCode::Char('l') => {
            if app.selected_flow().is_some() {
                app.mode = Mode::Detail;
            }
        },
        KeyCode::Char('?') => {
            app.mode = Mode::Help;
        },
        KeyCode::Char('c') => {
            if ctrl {
                app.should_quit = true;
            }
        },
        _ => {},
    }
    Effect::Nothing
}

/// A key while the filter is edited: Esc clears it and leaves, Enter leaves,
/// Backspace deletes the last character, a character is appended; each edit
/// re-filters the list.
pub fn handle_filter(app: &mut App, code: KeyCode)
    ensures
        old(app).wf() ==> final(app).wf(),
        filter_step(*old(app), *final(app), code),
{
    match code {
        KeyCode::Esc => {
            app.filter_text = String::new();
            app.apply_sort_and_filter();
            app.mode = Mode::Normal;
        },
        KeyCode::Enter => {
            app.mode = Mode::Normal;
        },
        KeyCode::Backspace => {
            let _ = pop_char(&mut app.filter_text);
            app.apply_sort_and_filter();
        },
        KeyCode::Char(c) => {
            push_char(&mut app.filter_text, c);
            app.apply_sort_and_filter();
        },
        _ => {},
    }
}

/// A key while a flow's detail is shown: Esc, `q` or `l` close it.
pub fn handle_detail(app: &mut App, code: KeyCode)
    ensures
        old(app).wf() ==> final(app).wf(),
        detail_step(*old(app), *final(app), code),
{
    if code == KeyCode::Esc || code == KeyCode::Char('q') || code == KeyCode::Char('l') {
        app.mode = Mode::Normal;
    }
}

/// A key while the help is shown: Esc, `q` or `?` close it.
pub fn handle_help(app: &mut App, code: KeyCode)
    ensures
        old(app).wf() ==> final(app).wf(),
        help_step(*old(app), *final(app), code),
{
    if code == KeyCode::Esc || code == KeyCode::Char('q') || code == KeyCode::Char('?') {
        app.mode = Mode::Normal;
    }
}

/// The state change and effect of a key handled by the mode `before` is in.
pub open spec fn key_handled(before: App, after: App, code: KeyCode, ctrl: bool, e: Effect) -> bool {
    match before.mode {
        Mode::Normal => normal_step(before, after, code, ctrl) && e == normal_effect(code, ctrl),
        Mode::Filter => filter_step(before, after, code) && e == Effect::Nothing,
        Mode::Detail => detail_step(before, after, code) && e == Effect::Nothing,
        Mode::Help => help_step(before, after, code) && e == Effect::Nothing,
    }
}

/// A key, handled by the current mode: the normal mode's commands, the
/// filter editor, or the detail or help popup.
pub fn handle_key(app: &mut App, code: KeyCode, ctrl: bool) -> (e: Effect)
    requires
        old(app).mode == Mode::Normal && normal_command(code, ctrl) == Command::Down
            && old(app).filtered@.len() > 0 ==> old(app).selected < usize::MAX,
    ensures
        old(app).wf() ==> final(app).wf(),
        key_handled(*old(app), *final(app), code, ctrl, e),
{
    match app.mode {
        Mode::Normal => handle_normal(app, code, ctrl),
        Mode::Filter => {
            handle_filter(app, code);
            Effect::Nothing
        },
        Mode::Detail => {
            handle_detail(app, code);
            Effect::Nothing
        },
        Mode::Help => {
            handle_help(app, code);
            Effect::Nothing
        },
    }
}

} // verus!
