//! The application state and what each key does to it.
//!
//! Key handling decides; running tmux is left to the caller: a key's
//! `Effect` says which tmux commands to run (and whether to reload
//! afterwards), and the caller hands the results back with `finish_tmux` and
//! `refresh`.
use vstd::prelude::*;
use vstd::string::StringExecFns;
use core::time::Duration;

use crate::args::{split_command_line, split_tmux_args, ArgsError};
use crate::client::{
    capture_result, command_view_result, command_views, on_target, pane_command, select_commands,
    set_buffer_command, target_error_text, window_command, ClientView, TargetError, TmuxClient,
};
use crate::discovery::{push_all_paths, with_all_unique};
use crate::load::{load_settled, LoadOutcome, LoadProgress};
use crate::rows::{all_rows, build_rows, text_set};
use crate::text::{
    concat2, concat3, copy_string, decimal, index_of, is_blank, lemma_index_of_bounds,
    index_of_char, push_char, slice_chars, str_chars, trim, trim_chars, trim_string, chars_string,
    usize_text,
};
use crate::tmux::{
    cmd, counts_fit, normalized_capture, option_text, output_message, state_counts, target_favorite_key,
    window_total, CommandOutput, CommandView, SplitDirection, StateView, TargetView, TmuxCommand,
    TmuxState, TmuxTarget,
};
use crate::tree::{filter_words, filter_words_of, ItemView, TreeItem, TreeItemKind};

verus! {

// ---------------------------------------------------------------------------
// Keys
// ---------------------------------------------------------------------------

/// Which key was pressed.
#[derive(Clone, Copy, Debug, PartialEq, Eq, Structural)]
pub enum KeyCode {
    Char(char),
    Enter,
    Esc,
    Backspace,
    Up,
    Down,
    Left,
    Right,
    PageUp,
    PageDown,
    Home,
    F(u8),
    Other,
}

/// A key event: the key, the modifiers held, and whether it is a release.
#[derive(Clone, Copy, Debug, PartialEq, Eq, Structural)]
pub struct KeyEvent {
    pub code: KeyCode,
    pub control: bool,
    pub shift: bool,
    pub super_key: bool,
    pub release: bool,
}

/// What the caller does after a key.
#[derive(Clone, Debug, PartialEq, Eq)]
pub enum Effect {
    /// Nothing to run.
    Nothing,
    /// Reload the tmux state (`refresh`).
    Refresh,
    /// Run the commands in order, stopping at the first failure; report the
    /// result with `finish_tmux(label, ..)`; then reload when `refresh`.
    Tmux { label: String, commands: Vec<TmuxCommand>, refresh: bool },
    /// Run the capture command and hand what it printed to
    /// `finish_capture(label, target, ..)` (or a failure to run it to
    /// `finish_tmux(label, ..)`).
    Capture { label: String, command: TmuxCommand, target: TmuxTarget },
    /// The favorites changed: store `favorites()`.
    SaveFavorites,
}

pub enum EffectView {
    Nothing,
    Refresh,
    Tmux { label: Seq<char>, commands: Seq<CommandView>, refresh: bool },
    Capture { label: Seq<char>, command: CommandView, target: TargetView },
    SaveFavorites,
}

impl View for Effect {
    type V = EffectView;

    open spec fn view(&self) -> EffectView {
        match self {
            Effect::Nothing => EffectView::Nothing,
            Effect::Refresh => EffectView::Refresh,
            Effect::Tmux { label, commands, refresh } => EffectView::Tmux {
                label: label@,
                commands: command_views(commands@),
                refresh: *refresh,
            },
            Effect::Capture { label, command, target } => EffectView::Capture {
                label: label@,
                command: command@,
                target: target@,
            },
            Effect::SaveFavorites => EffectView::SaveFavorites,
        }
    }
}

/// What comes next while running the commands of an `Effect::Tmux`.
pub enum SequenceNext {
    /// Run the command at this position.
    Run(usize),
    /// The sequence is over, with this result.
    Finished(Result<(), String>),
}

/// The next step of running `count` commands in order, after `done` of them
/// ran and the last came to `last` (`Ok` before any run): a failure ends the
/// sequence with that failure, and when all have run it ends in success.
pub fn sequence_next(count: usize, done: usize, last: Result<(), String>) -> (res: SequenceNext)
    ensures
        match last {
            Err(e) => res == SequenceNext::Finished(Err::<(), String>(e)),
            Ok(()) => if done < count {
                res == SequenceNext::Run(done)
            } else {
                res == SequenceNext::Finished(Ok::<(), String>(()))
            },
        },
{
    match last {
        Err(e) => SequenceNext::Finished(Err(e)),
        Ok(()) => if done < count {
            SequenceNext::Run(done)
        } else {
            SequenceNext::Finished(Ok(()))
        },
    }
}

// ---------------------------------------------------------------------------
// Prompts and confirmations
// ---------------------------------------------------------------------------

#[derive(Clone, Debug, PartialEq, Eq)]
enum PromptKind {
    Filter,
    Rename(TreeItemKind, TmuxTarget),
    NewSession,
    Launch,
    NewWindow(TmuxTarget),
    SendKeys(TmuxTarget),
    Command,
}

pub enum PromptKindView {
    Filter,
    Rename(TreeItemKind, TargetView),
    NewSession,
    Launch,
    NewWindow(TargetView),
    SendKeys(TargetView),
    Command,
}

/// A one-line text prompt.
#[derive(Clone, Debug, PartialEq, Eq)]
pub struct Prompt {
    pub title: String,
    pub value: String,
    pub hint: String,
    kind: PromptKind,
}

pub struct PromptView {
    pub title: Seq<char>,
    pub value: Seq<char>,
    pub hint: Seq<char>,
    pub kind: PromptKindView,
}

impl View for Prompt {
    type V = PromptView;

    closed spec fn view(&self) -> PromptView {
        PromptView {
            title: self.title@,
            value: self.value@,
            hint: self.hint@,
            kind: match self.kind {
                PromptKind::Filter => PromptKindView::Filter,
                PromptKind::Rename(k, t) => PromptKindView::Rename(k, t@),
                PromptKind::NewSession => PromptKindView::NewSession,
                PromptKind::Launch => PromptKindView::Launch,
                PromptKind::NewWindow(t) => PromptKindView::NewWindow(t@),
                PromptKind::SendKeys(t) => PromptKindView::SendKeys(t@),
                PromptKind::Command => PromptKindView::Command,
            },
        }
    }
}

/// A question before a destructive action.
#[derive(Clone, Debug, PartialEq, Eq)]
pub struct Confirm {
    pub message: String,
    kind: TreeItemKind,
    target: TmuxTarget,
}

pub struct ConfirmView {
    pub message: Seq<char>,
    pub kind: TreeItemKind,
    pub target: TargetView,
}

impl View for Confirm {
    type V = ConfirmView;

    closed spec fn view(&self) -> ConfirmView {
        ConfirmView { message: self.message@, kind: self.kind, target: self.target@ }
    }
}

impl Prompt {
    pub fn title(&self) -> (res: &String)
        ensures
            res@ == self@.title,
    {
        &self.title
    }

    pub fn value(&self) -> (res: &String)
        ensures
            res@ == self@.value,
    {
        &self.value
    }

    pub fn hint(&self) -> (res: &String)
        ensures
            res@ == self@.hint,
    {
        &self.hint
    }
}

impl Confirm {
    pub fn message(&self) -> (res: &String)
        ensures
            res@ == self@.message,
    {
        &self.message
    }
}

// ---------------------------------------------------------------------------
// The application state
// ---------------------------------------------------------------------------

/// The application: the client, what tmux reported, the rows shown and the
/// interaction state.
pub struct App {
    client: TmuxClient,
    state: TmuxState,
    items: Vec<TreeItem>,
    selected: usize,
    detail_scroll: u16,
    help_scroll: u16,
    collapsed_sessions: Vec<String>,
    collapsed_windows: Vec<String>,
    favorites: Vec<String>,
    filter: String,
    prompt: Option<Prompt>,
    confirm: Option<Confirm>,
    status: String,
    show_help: bool,
    show_diagnostics: bool,
    diagnostics_scroll: u16,
    should_quit: bool,
    attach_target: Option<TmuxTarget>,
    refresh_interval: Duration,
}

pub struct AppView {
    pub client: ClientView,
    pub state: StateView,
    pub items: Seq<ItemView>,
    pub selected: nat,
    pub detail_scroll: u16,
    pub help_scroll: u16,
    pub collapsed_sessions: Set<Seq<char>>,
    pub collapsed_windows: Set<Seq<char>>,
    pub favorites: Seq<Seq<char>>,
    pub filter: Seq<char>,
    pub prompt: Option<PromptView>,
    pub confirm: Option<ConfirmView>,
    pub status: Seq<char>,
    pub show_help: bool,
    pub show_diagnostics: bool,
    pub diagnostics_scroll: u16,
    pub should_quit: bool,
    pub attach_target: Option<TargetView>,
    pub refresh_interval: Duration,
}

pub open spec fn opt_target(o: Option<TmuxTarget>) -> Option<TargetView> {
    match o {
        Some(t) => Some(t@),
        None => None,
    }
}

impl View for App {
    type V = AppView;

    closed spec fn view(&self) -> AppView {
        AppView {
            client: self.client@,
            state: self.state@,
            items: self.items.deep_view(),
            selected: self.selected as nat,
            detail_scroll: self.detail_scroll,
            help_scroll: self.help_scroll,
            collapsed_sessions: text_set(self.collapsed_sessions.deep_view()),
            collapsed_windows: text_set(self.collapsed_windows.deep_view()),
            favorites: self.favorites.deep_view(),
            filter: self.filter@,
            prompt: match self.prompt {
                Some(p) => Some(p@),
                None => None,
            },
            confirm: match self.confirm {
                Some(c) => Some(c@),
                None => None,
            },
            status: self.status@,
            show_help: self.show_help,
            show_diagnostics: self.show_diagnostics,
            diagnostics_scroll: self.diagnostics_scroll,
            should_quit: self.should_quit,
            attach_target: opt_target(self.attach_target),
            refresh_interval: self.refresh_interval,
        }
    }
}

// ---------------------------------------------------------------------------
// Specifications of the transitions
// ---------------------------------------------------------------------------

/// A fresh application: nothing loaded, no row, nothing collapsed or
/// favorite, no filter, no prompt, confirmation or page open, reloading at
/// the given interval.
pub open spec fn fresh_view(client: ClientView, refresh_interval: Duration) -> AppView {
    AppView {
        client,
        state: StateView { sessions: seq![], notice: None, diagnostics: seq![] },
        items: seq![],
        selected: 0,
        detail_scroll: 0,
        help_scroll: 0,
        collapsed_sessions: Set::empty(),
        collapsed_windows: Set::empty(),
        favorites: seq![],
        filter: seq![],
        prompt: None,
        confirm: None,
        status: "Starting lazytmux"@,
        show_help: false,
        show_diagnostics: false,
        diagnostics_scroll: 0,
        should_quit: false,
        attach_target: None,
        refresh_interval,
    }
}

/// The selection is on a row, or at 0 when there is none.
pub open spec fn selection_ok(v: AppView) -> bool {
    if v.items.len() == 0 {
        v.selected == 0
    } else {
        v.selected < v.items.len()
    }
}

/// The invariant: the state's window and pane counts fit in a `usize`, the
/// selection is on a row, and no favorite is held twice.
pub open spec fn app_wf(v: AppView) -> bool {
    &&& counts_fit(v.state.sessions)
    &&& selection_ok(v)
    &&& v.favorites.no_duplicates()
}

/// `prefix: N sessions, N windows, N panes`.
pub open spec fn count_text(v: AppView, prefix: Seq<char>) -> Seq<char> {
    let c = state_counts(v.state.sessions);
    prefix + ": "@ + decimal(c.0) + " sessions, "@ + decimal(c.1) + " windows, "@ + decimal(c.2)
        + " panes"@
}

/// The rows rebuilt from the state, the filter's words, what is collapsed
/// and the favorites; the selection kept within them, and the detail scroll
/// reset when it moved.
pub open spec fn rebuilt(v: AppView) -> AppView {
    let items = all_rows(
        v.state.sessions,
        filter_words(v.filter),
        v.collapsed_sessions,
        v.collapsed_windows,
        text_set(v.favorites),
    );
    let selected: nat = if items.len() == 0 {
        0
    } else if v.selected < items.len() {
        v.selected
    } else {
        (items.len() - 1) as nat
    };
    AppView {
        items,
        selected,
        detail_scroll: if selected != v.selected {
            0
        } else {
            v.detail_scroll
        },
        ..v
    }
}

pub open spec fn clamp(x: int, lo: int, hi: int) -> int {
    if x < lo {
        lo
    } else if x > hi {
        hi
    } else {
        x
    }
}

/// The selection moved by `delta` within the rows; the detail scroll reset
/// when it moved.
pub open spec fn moved(v: AppView, delta: int) -> AppView {
    if v.items.len() == 0 {
        AppView { selected: 0, detail_scroll: 0, ..v }
    } else {
        let next = clamp(v.selected + delta, 0, v.items.len() - 1) as nat;
        AppView {
            selected: next,
            detail_scroll: if next != v.selected {
                0
            } else {
                v.detail_scroll
            },
            ..v
        }
    }
}

/// The selection put on row `index`, or the last row.
pub open spec fn at_index(v: AppView, index: nat) -> AppView {
    let last: nat = if v.items.len() == 0 {
        0
    } else {
        (v.items.len() - 1) as nat
    };
    let next = if index < last {
        index
    } else {
        last
    };
    AppView {
        selected: next,
        detail_scroll: if next != v.selected {
            0
        } else {
            v.detail_scroll
        },
        ..v
    }
}

pub open spec fn scrolled(s: u16, delta: int) -> u16 {
    clamp(s + delta, 0, 0xffff) as u16
}

pub open spec fn selected_item_of(v: AppView) -> Option<ItemView> {
    if v.selected < v.items.len() {
        Some(v.items[v.selected as int])
    } else {
        None
    }
}

pub open spec fn with_status(v: AppView, s: Seq<char>) -> AppView {
    AppView { status: s, ..v }
}

/// The status after a tmux action: its label, or `label failed: error`.
pub open spec fn result_status(label: Seq<char>, error: Option<Seq<char>>) -> Seq<char> {
    match error {
        None => label,
        Some(e) => label + " failed: "@ + e,
    }
}

/// A tmux action: run its command, or report why there is none; then reload
/// when `refresh`.
pub open spec fn tmux_action(
    v: AppView,
    label: Seq<char>,
    c: Result<CommandView, TargetError>,
    refresh: bool,
) -> (AppView, EffectView) {
    match c {
        Ok(c) => (v, EffectView::Tmux { label, commands: seq![c], refresh }),
        Err(e) => (
            with_status(v, result_status(label, Some(target_error_text(e)))),
            if refresh {
                EffectView::Refresh
            } else {
                EffectView::Nothing
            },
        ),
    }
}

pub open spec fn help_opened(v: AppView) -> AppView {
    AppView {
        show_help: true,
        help_scroll: 0,
        status: "Shortcuts page open. Scroll with j/k or arrows; close with ?/F1/q/Esc."@,
        ..v
    }
}

/// Which way a collapse key acts on a set.
#[derive(Clone, Copy, Debug, PartialEq, Eq, Structural)]
pub enum SetChange {
    Toggle,
    Insert,
    Remove,
}

pub open spec fn changed(s: Set<Seq<char>>, x: Seq<char>, how: SetChange) -> Set<Seq<char>> {
    match how {
        SetChange::Toggle => if s.contains(x) {
            s.remove(x)
        } else {
            s.insert(x)
        },
        SetChange::Insert => s.insert(x),
        SetChange::Remove => s.remove(x),
    }
}

/// Collapsing, expanding or toggling the selected session or window, then
/// rebuilding the rows (a pane or no selection changes no set).
pub open spec fn collapse_changed(v: AppView, how: SetChange) -> AppView {
    match selected_item_of(v) {
        None => v,
        Some(item) => rebuilt(
            match item.kind {
                TreeItemKind::Session => AppView {
                    collapsed_sessions: changed(v.collapsed_sessions, item.target.session_id, how),
                    ..v
                },
                TreeItemKind::Window => match item.target.window_id {
                    Some(w) => AppView {
                        collapsed_windows: changed(v.collapsed_windows, w, how),
                        ..v
                    },
                    None => v,
                },
                TreeItemKind::Pane => v,
            },
        ),
    }
}

pub open spec fn prompt_of(title: Seq<char>, value: Seq<char>, hint: Seq<char>, kind: PromptKindView) -> PromptView {
    PromptView { title, value, hint, kind }
}

pub open spec fn with_prompt(v: AppView, p: PromptView) -> AppView {
    AppView { prompt: Some(p), ..v }
}

pub open spec fn rename_title(k: TreeItemKind) -> Seq<char> {
    match k {
        TreeItemKind::Session => "Rename session"@,
        TreeItemKind::Window => "Rename window"@,
        TreeItemKind::Pane => "Set pane title"@,
    }
}

pub open spec fn kill_word(k: TreeItemKind) -> Seq<char> {
    match k {
        TreeItemKind::Session => "session"@,
        TreeItemKind::Window => "window"@,
        TreeItemKind::Pane => "pane"@,
    }
}

/// The action of a selected pane, or the status asking for one.
pub open spec fn on_selected_pane(
    v: AppView,
    missing: Seq<char>,
    label: Seq<char>,
    args: spec_fn(Seq<char>) -> Seq<Seq<char>>,
) -> (AppView, EffectView) {
    match selected_item_of(v) {
        Some(item) => match item.target.pane_id {
            Some(_) => tmux_action(v, label, pane_command(item.target, args), true),
            None => (with_status(v, missing), EffectView::Nothing),
        },
        None => (with_status(v, missing), EffectView::Nothing),
    }
}

pub open spec fn split_label(d: SplitDirection) -> Seq<char> {
    match d {
        SplitDirection::Horizontal => "Split pane horizontally"@,
        SplitDirection::Vertical => "Split pane vertically"@,
    }
}

pub open spec fn split_flag(d: SplitDirection) -> Seq<char> {
    match d {
        SplitDirection::Horizontal => "-h"@,
        SplitDirection::Vertical => "-v"@,
    }
}

/// `s` without any occurrence of `x`.
pub open spec fn without(s: Seq<Seq<char>>, x: Seq<char>) -> Seq<Seq<char>>
    decreases s.len(),
{
    if s.len() == 0 {
        seq![]
    } else {
        let rest = without(s.drop_last(), x);
        if s.last() == x {
            rest
        } else {
            rest.push(s.last())
        }
    }
}

/// The favorites with `key` taken out when it is there, else added last.
pub open spec fn toggled(favorites: Seq<Seq<char>>, key: Seq<char>) -> Seq<Seq<char>> {
    if favorites.contains(key) {
        without(favorites, key)
    } else {
        favorites.push(key)
    }
}

/// What `without` keeps: the elements other than `x`.
pub proof fn lemma_without_contains(s: Seq<Seq<char>>, x: Seq<char>, y: Seq<char>)
    ensures
        without(s, x).contains(y) <==> s.contains(y) && y != x,
    decreases s.len(),
{
    if s.len() > 0 {
        lemma_without_contains(s.drop_last(), x, y);
        let r = without(s.drop_last(), x);
        if s.drop_last().contains(y) {
            let i = choose|i: int| 0 <= i < s.drop_last().len() && s.drop_last()[i] == y;
            assert(s[i] == y);
        }
        if s.contains(y) && y != s.last() {
            let i = choose|i: int| 0 <= i < s.len() && s[i] == y;
            assert(s.drop_last()[i] == y);
        }
        if s.last() != x {
            if r.push(s.last()).contains(y) && y != s.last() {
                let i = choose|i: int| 0 <= i < r.push(s.last()).len() && r.push(s.last())[i] == y;
                assert(r[i] == y);
            }
            if r.contains(y) {
                let i = choose|i: int| 0 <= i < r.len() && r[i] == y;
                assert(r.push(s.last())[i] == y);
            }
            assert(r.push(s.last())[r.len() as int] == s.last());
        }
    }
}

/// Taking a key out of a list that holds each key once leaves each key once.
pub proof fn lemma_without_no_duplicates(s: Seq<Seq<char>>, x: Seq<char>)
    requires
        s.no_duplicates(),
    ensures
        without(s, x).no_duplicates(),
    decreases s.len(),
{
    if s.len() > 0 {
        assert(s.drop_last().no_duplicates());
        lemma_without_no_duplicates(s.drop_last(), x);
        let r = without(s.drop_last(), x);
        if s.last() != x {
            lemma_without_contains(s.drop_last(), x, s.last());
            assert(!s.drop_last().contains(s.last()));
            assert forall|i: int, j: int|
                0 <= i < r.push(s.last()).len() && 0 <= j < r.push(s.last()).len() && i != j
                    implies r.push(s.last())[i] != r.push(s.last())[j] by {
                if i == r.len() {
                    assert(r.contains(r[j]));
                } else if j == r.len() {
                    assert(r.contains(r[i]));
                }
            }
        }
    }
}

/// Toggling a key keeps a list that holds each key once so.
pub proof fn lemma_toggled_no_duplicates(s: Seq<Seq<char>>, x: Seq<char>)
    requires
        s.no_duplicates(),
    ensures
        toggled(s, x).no_duplicates(),
{
    if s.contains(x) {
        lemma_without_no_duplicates(s, x);
    } else {
        assert forall|i: int, j: int|
            0 <= i < s.push(x).len() && 0 <= j < s.push(x).len() && i != j implies s.push(x)[i]
            != s.push(x)[j] by {
            if i == s.len() {
                assert(s.contains(s[j]));
            } else if j == s.len() {
                assert(s.contains(s[i]));
            }
        }
    }
}

/// Adding keys one by one, each unless held, keeps a list free of duplicates.
pub proof fn lemma_with_all_unique_no_duplicates(s: Seq<Seq<char>>, xs: Seq<Seq<char>>)
    requires
        s.no_duplicates(),
    ensures
        with_all_unique(s, xs).no_duplicates(),
    decreases xs.len(),
{
    if xs.len() > 0 {
        lemma_with_all_unique_no_duplicates(s, xs.drop_last());
        let t = with_all_unique(s, xs.drop_last());
        let x = xs.last();
        if !t.contains(x) {
            assert forall|i: int, j: int|
                0 <= i < t.push(x).len() && 0 <= j < t.push(x).len() && i != j implies t.push(x)[i]
                != t.push(x)[j] by {
                if i == t.len() {
                    assert(t.contains(t[j]));
                } else if j == t.len() {
                    assert(t.contains(t[i]));
                }
            }
        }
    }
}

/// `*`: the selected row's target taken out of or added to the favorites,
/// the rows rebuilt, and the favorites to be stored.
pub open spec fn favorite_toggled(v: AppView) -> (AppView, EffectView) {
    match selected_item_of(v) {
        None => (with_status(v, "No item selected to favorite"@), EffectView::Nothing),
        Some(item) => {
            let key = target_favorite_key(item.target);
            let r = rebuilt(AppView { favorites: toggled(v.favorites, key), ..v });
            (
                with_status(
                    r,
                    if v.favorites.contains(key) {
                        "Removed favorite "@ + item.label
                    } else {
                        "Added favorite "@ + item.label
                    },
                ),
                EffectView::SaveFavorites,
            )
        },
    }
}

/// `s`: a prompt for keys to send to the selected pane.
pub open spec fn send_keys_prompt_opened(v: AppView) -> AppView {
    match selected_item_of(v) {
        Some(item) => match item.target.pane_id {
            Some(_) => with_prompt(
                v,
                prompt_of(
                    "Send keys"@,
                    seq![],
                    "Keys for the selected pane; Enter is sent after them"@,
                    PromptKindView::SendKeys(item.target),
                ),
            ),
            None => with_status(v, "Select a pane before sending keys"@),
        },
        None => with_status(v, "Select a pane before sending keys"@),
    }
}

/// `y`: capturing the selected pane, whose text then goes to the tmux
/// buffer.
pub open spec fn copy_started(v: AppView) -> (AppView, EffectView) {
    match selected_item_of(v) {
        Some(item) => match item.target.pane_id {
            Some(p) => (
                v,
                EffectView::Capture {
                    label: "Copied pane text"@,
                    command: on_target(item.target, seq!["capture-pane"@, "-p"@, "-t"@, p]),
                    target: item.target,
                },
            ),
            None => (with_status(v, "Select a pane before copying its text"@), EffectView::Nothing),
        },
        None => (with_status(v, "Select a pane before copying its text"@), EffectView::Nothing),
    }
}

pub open spec fn diagnostics_opened(v: AppView) -> AppView {
    AppView {
        show_diagnostics: true,
        diagnostics_scroll: 0,
        status: "Diagnostics open. Close with D/q/Esc."@,
        ..v
    }
}

/// What a key does while the diagnostics are shown.
pub open spec fn diagnostics_key(v: AppView, key: KeyEvent) -> AppView {
    let closes = match key.code {
        KeyCode::Esc => true,
        KeyCode::Char(c) => c == 'D' || c == 'q',
        _ => false,
    };
    if closes {
        AppView { show_diagnostics: false, diagnostics_scroll: 0, ..v }
    } else {
        let s = v.diagnostics_scroll;
        let next = match key.code {
            KeyCode::Down => scrolled(s, 1),
            KeyCode::Up => scrolled(s, -1),
            KeyCode::PageDown => scrolled(s, 8),
            KeyCode::PageUp => scrolled(s, -8),
            KeyCode::Home => 0,
            KeyCode::Char(c) => if c == 'j' {
                scrolled(s, 1)
            } else if c == 'k' {
                scrolled(s, -1)
            } else if c == 'd' && key.control {
                scrolled(s, 8)
            } else if c == 'u' && key.control {
                scrolled(s, -8)
            } else if c == 'g' {
                0
            } else {
                s
            },
            _ => s,
        };
        AppView { diagnostics_scroll: next, ..v }
    }
}

/// The fields of a launcher line `name | start-dir | command`, trimmed; the
/// command is everything after the second `|`.
pub open spec fn launch_fields(value: Seq<char>) -> (Seq<char>, Option<Seq<char>>, Option<Seq<char>>) {
    let k = index_of(value, '|');
    if k >= value.len() {
        (trim(value), None, None)
    } else {
        let rest = value.skip(k + 1);
        let j = index_of(rest, '|');
        if j >= rest.len() {
            (trim(value.take(k)), Some(trim(rest)), None)
        } else {
            (trim(value.take(k)), Some(trim(rest.take(j))), Some(trim(rest.skip(j + 1))))
        }
    }
}

/// `new-session -d -s name`, with `-c dir` and the command when they are
/// given and not blank.
pub open spec fn launch_args(name: Seq<char>, dir: Option<Seq<char>>, command: Option<Seq<char>>) -> Seq<
    Seq<char>,
> {
    seq!["new-session"@, "-d"@, "-s"@, name] + match dir {
        Some(d) => if is_blank(d) {
            seq![]
        } else {
            seq!["-c"@, d]
        },
        None => seq![],
    } + match command {
        Some(c) => if is_blank(c) {
            seq![]
        } else {
            seq![c]
        },
        None => seq![],
    }
}

/// What a key does on the main screen.
pub open spec fn main_key(v: AppView, key: KeyEvent, inside_tmux: bool) -> (AppView, EffectView) {
    let none = EffectView::Nothing;
    match key.code {
        KeyCode::Esc => (AppView { should_quit: true, ..v }, none),
        KeyCode::Down => (moved(v, 1), none),
        KeyCode::Up => (moved(v, -1), none),
        KeyCode::PageDown => (moved(v, 10), none),
        KeyCode::PageUp => (moved(v, -10), none),
        KeyCode::Left => (collapse_changed(v, SetChange::Insert), none),
        KeyCode::Right => (collapse_changed(v, SetChange::Remove), none),
        KeyCode::Enter => opened_selected(v, inside_tmux),
        KeyCode::F(n) => if n == 1 {
            (help_opened(v), none)
        } else {
            (v, none)
        },
        KeyCode::Char(c) => if c == 'q' {
            (AppView { should_quit: true, ..v }, none)
        } else if c == 'j' {
            (moved(v, 1), none)
        } else if c == 'k' {
            (moved(v, -1), none)
        } else if c == 'g' {
            (at_index(v, 0), none)
        } else if c == 'G' {
            (at_index(v, if v.items.len() == 0 { 0 } else { (v.items.len() - 1) as nat }), none)
        } else if c == 'u' && key.control {
            (AppView { detail_scroll: scrolled(v.detail_scroll, -8), ..v }, none)
        } else if c == 'd' && key.control {
            (AppView { detail_scroll: scrolled(v.detail_scroll, 8), ..v }, none)
        } else if c == '[' {
            (AppView { detail_scroll: scrolled(v.detail_scroll, -4), ..v }, none)
        } else if c == ']' {
            (AppView { detail_scroll: scrolled(v.detail_scroll, 4), ..v }, none)
        } else if c == ' ' {
            (collapse_changed(v, SetChange::Toggle), none)
        } else if c == 'h' {
            (collapse_changed(v, SetChange::Insert), none)
        } else if c == 'l' {
            (collapse_changed(v, SetChange::Remove), none)
        } else if c == '/' && key.shift {
            (help_opened(v), none)
        } else if c == '/' {
            (
                with_prompt(
                    v,
                    prompt_of(
                        "Filter"@,
                        v.filter,
                        "Enter to apply, Esc to cancel, Ctrl-U to clear"@,
                        PromptKindView::Filter,
                    ),
                ),
                none,
            )
        } else if c == 'f' {
            let r = rebuilt(AppView { filter: seq![], ..v });
            (with_status(r, count_text(r, "Filter cleared"@)), none)
        } else if c == 'R' && key.super_key {
            (rename_prompt_opened(v), none)
        } else if c == 'R' {
            (v, EffectView::Refresh)
        } else if c == 'n' {
            (
                with_prompt(
                    v,
                    prompt_of(
                        "New session"@,
                        seq![],
                        "Enter a tmux session name"@,
                        PromptKindView::NewSession,
                    ),
                ),
                none,
            )
        } else if c == 'w' {
            match selected_item_of(v) {
                None => (with_status(v, "Select a session/window/pane before creating a window"@), none),
                Some(item) => (
                    with_prompt(
                        v,
                        prompt_of(
                            "New window"@,
                            seq![],
                            "Enter a window name"@,
                            PromptKindView::NewWindow(item.target),
                        ),
                    ),
                    none,
                ),
            }
        } else if c == '%' || c == '"' {
            let d = if c == '%' {
                SplitDirection::Horizontal
            } else {
                SplitDirection::Vertical
            };
            on_selected_pane(
                v,
                "Select a pane before splitting"@,
                split_label(d),
                |p: Seq<char>| seq!["split-window"@, split_flag(d), "-t"@, p],
            )
        } else if c == 'r' {
            (rename_prompt_opened(v), none)
        } else if c == 'x' {
            (kill_confirm_opened(v), none)
        } else if c == 'z' {
            on_selected_pane(
                v,
                "Select a pane before toggling zoom"@,
                "Toggled pane zoom"@,
                |p: Seq<char>| seq!["resize-pane"@, "-Z"@, "-t"@, p],
            )
        } else if c == 'd' {
            (
                v,
                EffectView::Tmux {
                    label: "Detached tmux client"@,
                    commands: seq![cmd(v.client.server, seq!["detach-client"@])],
                    refresh: false,
                },
            )
        } else if c == ':' {
            (
                with_prompt(
                    v,
                    prompt_of(
                        "tmux command"@,
                        seq![],
                        "Example: rename-session work. Do not include the leading tmux word."@,
                        PromptKindView::Command,
                    ),
                ),
                none,
            )
        } else if c == '*' {
            favorite_toggled(v)
        } else if c == 'N' {
            (
                with_prompt(
                    v,
                    prompt_of(
                        "Launch session"@,
                        seq![],
                        "name | start-dir | command"@,
                        PromptKindView::Launch,
                    ),
                ),
                none,
            )
        } else if c == 's' {
            (send_keys_prompt_opened(v), none)
        } else if c == 'y' {
            copy_started(v)
        } else if c == 'D' {
            (diagnostics_opened(v), none)
        } else if c == '?' {
            (help_opened(v), none)
        } else {
            (v, none)
        },
        _ => (v, none),
    }
}

/// Enter on the main screen: inside tmux, switch to the selected target;
/// outside, remember it to attach to and quit.
pub open spec fn opened_selected(v: AppView, inside_tmux: bool) -> (AppView, EffectView) {
    match selected_item_of(v) {
        None => (with_status(v, "No tmux target selected"@), EffectView::Nothing),
        Some(item) => if inside_tmux {
            (
                v,
                EffectView::Tmux {
                    label: "Switched target"@,
                    commands: select_commands(item.target) + seq![
                        on_target(item.target, seq!["switch-client"@, "-t"@, item.target.session_id]),
                    ],
                    refresh: false,
                },
            )
        } else {
            (
                AppView { attach_target: Some(item.target), should_quit: true, ..v },
                EffectView::Nothing,
            )
        },
    }
}

pub open spec fn rename_prompt_opened(v: AppView) -> AppView {
    match selected_item_of(v) {
        None => with_status(v, "No item selected to rename"@),
        Some(item) => with_prompt(
            v,
            prompt_of(
                rename_title(item.kind),
                item.rename_value,
                "Enter to apply, Esc to cancel"@,
                PromptKindView::Rename(item.kind, item.target),
            ),
        ),
    }
}

pub open spec fn kill_confirm_opened(v: AppView) -> AppView {
    match selected_item_of(v) {
        None => with_status(v, "No item selected to kill"@),
        Some(item) => AppView {
            confirm: Some(
                ConfirmView {
                    message: "Kill "@ + kill_word(item.kind) + " "@ + item.label
                        + "? Press y to confirm or n/Esc to cancel."@,
                    kind: item.kind,
                    target: item.target,
                },
            ),
            ..v
        },
    }
}

/// What a key does while the shortcuts page is open.
pub open spec fn help_key(v: AppView, key: KeyEvent) -> AppView {
    let closes = match key.code {
        KeyCode::F(n) => n == 1,
        KeyCode::Esc => true,
        KeyCode::Char(c) => c == '?' || c == 'q' || (c == '/' && key.shift),
        _ => false,
    };
    if closes {
        AppView { show_help: false, help_scroll: 0, ..v }
    } else {
        let s = v.help_scroll;
        let next = match key.code {
            KeyCode::Down => scrolled(s, 1),
            KeyCode::Up => scrolled(s, -1),
            KeyCode::PageDown => scrolled(s, 8),
            KeyCode::PageUp => scrolled(s, -8),
            KeyCode::Home => 0,
            KeyCode::Char(c) => if c == 'j' {
                scrolled(s, 1)
            } else if c == 'k' {
                scrolled(s, -1)
            } else if c == 'd' && key.control {
                scrolled(s, 8)
            } else if c == 'u' && key.control {
                scrolled(s, -8)
            } else if c == ']' {
                scrolled(s, 4)
            } else if c == '[' {
                scrolled(s, -4)
            } else if c == 'g' {
                0
            } else {
                s
            },
            _ => s,
        };
        AppView { help_scroll: next, ..v }
    }
}

/// A prompt whose value was edited.
pub open spec fn edited(v: AppView, value: Seq<char>) -> AppView {
    match v.prompt {
        Some(p) => AppView { prompt: Some(PromptView { value, ..p }), ..v },
        None => v,
    }
}

/// What a key does while a prompt is open.
pub open spec fn prompt_key(v: AppView, key: KeyEvent) -> Result<(AppView, EffectView), ArgsError> {
    let p = v.prompt->Some_0;
    match key.code {
        KeyCode::Esc => Ok((AppView { prompt: None, ..v }, EffectView::Nothing)),
        KeyCode::Enter => prompt_applied(AppView { prompt: None, ..v }, p),
        KeyCode::Backspace => Ok(
            (
                edited(
                    v,
                    if p.value.len() > 0 {
                        p.value.drop_last()
                    } else {
                        p.value
                    },
                ),
                EffectView::Nothing,
            ),
        ),
        KeyCode::Char(c) => if c == 'u' && key.control {
            Ok((edited(v, seq![]), EffectView::Nothing))
        } else if !key.control {
            Ok((edited(v, p.value.push(c)), EffectView::Nothing))
        } else {
            Ok((v, EffectView::Nothing))
        },
        _ => Ok((v, EffectView::Nothing)),
    }
}

/// What entering a prompt's (trimmed) value does.
pub open spec fn prompt_applied(v: AppView, p: PromptView) -> Result<(AppView, EffectView), ArgsError> {
    let value = trim(p.value);
    match p.kind {
        PromptKindView::Filter => {
            let r = rebuilt(AppView { filter: value, ..v });
            Ok((with_status(r, count_text(r, "Filter applied"@)), EffectView::Nothing))
        },
        PromptKindView::Rename(kind, t) => if value.len() == 0 {
            Ok((with_status(v, "Name cannot be empty"@), EffectView::Nothing))
        } else {
            Ok(
                match kind {
                    TreeItemKind::Session => tmux_action(
                        v,
                        "Renamed session"@,
                        Ok(on_target(t, seq!["rename-session"@, "-t"@, t.session_id, value])),
                        true,
                    ),
                    TreeItemKind::Window => tmux_action(
                        v,
                        "Renamed window"@,
                        window_command(t, |w: Seq<char>| seq!["rename-window"@, "-t"@, w, value]),
                        true,
                    ),
                    TreeItemKind::Pane => tmux_action(
                        v,
                        "Set pane title"@,
                        pane_command(
                            t,
                            |q: Seq<char>| seq!["select-pane"@, "-t"@, q, "-T"@, value],
                        ),
                        true,
                    ),
                },
            )
        },
        PromptKindView::NewSession => if value.len() == 0 {
            Ok((with_status(v, "Session name cannot be empty"@), EffectView::Nothing))
        } else {
            Ok(
                tmux_action(
                    v,
                    "Created session"@,
                    Ok(cmd(v.client.server, seq!["new-session"@, "-d"@, "-s"@, value])),
                    true,
                ),
            )
        },
        PromptKindView::Launch => {
            let (name, dir, command) = launch_fields(value);
            if name.len() == 0 {
                Ok((with_status(v, "Session name cannot be empty"@), EffectView::Nothing))
            } else {
                Ok(
                    tmux_action(
                        v,
                        "Launched session"@,
                        Ok(cmd(v.client.server, launch_args(name, dir, command))),
                        true,
                    ),
                )
            }
        },
        PromptKindView::SendKeys(t) => if value.len() == 0 {
            Ok((with_status(v, "Keys cannot be empty"@), EffectView::Nothing))
        } else {
            Ok(
                tmux_action(
                    v,
                    "Sent keys"@,
                    pane_command(t, |p: Seq<char>| seq!["send-keys"@, "-t"@, p, value, "Enter"@]),
                    true,
                ),
            )
        },
        PromptKindView::NewWindow(t) => if value.len() == 0 {
            Ok((with_status(v, "Window name cannot be empty"@), EffectView::Nothing))
        } else {
            Ok(
                tmux_action(
                    v,
                    "Created window"@,
                    Ok(
                        on_target(
                            t,
                            seq!["new-window"@, "-d"@, "-t"@, t.session_id, "-n"@, value],
                        ),
                    ),
                    true,
                ),
            )
        },
        PromptKindView::Command => match split_command_line(value) {
            Err(e) => Err(e),
            Ok(args) => if args.len() == 0 {
                Ok((with_status(v, "No tmux command entered"@), EffectView::Nothing))
            } else {
                Ok(tmux_action(v, "Ran tmux command"@, Ok(cmd(v.client.server, args)), true))
            },
        },
    }
}

/// What confirming a kill does.
pub open spec fn kill_applied(v: AppView, c: ConfirmView) -> (AppView, EffectView) {
    let t = c.target;
    match c.kind {
        TreeItemKind::Session => tmux_action(
            v,
            "Killed session"@,
            Ok(on_target(t, seq!["kill-session"@, "-t"@, t.session_id])),
            true,
        ),
        TreeItemKind::Window => tmux_action(
            v,
            "Killed window"@,
            window_command(t, |w: Seq<char>| seq!["kill-window"@, "-t"@, w]),
            true,
        ),
        TreeItemKind::Pane => tmux_action(
            v,
            "Killed pane"@,
            pane_command(t, |p: Seq<char>| seq!["kill-pane"@, "-t"@, p]),
            true,
        ),
    }
}

/// What a key does while a confirmation is open.
pub open spec fn confirm_key(v: AppView, key: KeyEvent) -> (AppView, EffectView) {
    match key.code {
        KeyCode::Esc => (AppView { confirm: None, ..v }, EffectView::Nothing),
        KeyCode::Char(c) => if c == 'n' || c == 'N' {
            (AppView { confirm: None, ..v }, EffectView::Nothing)
        } else if c == 'y' || c == 'Y' {
            kill_applied(AppView { confirm: None, ..v }, v.confirm->Some_0)
        } else {
            (v, EffectView::Nothing)
        },
        _ => (v, EffectView::Nothing),
    }
}

/// What a key does: releases are ignored, Ctrl-C quits, and otherwise the
/// open prompt, confirmation or shortcuts page takes the key before the main
/// screen does.
pub open spec fn key_result(v: AppView, key: KeyEvent, inside_tmux: bool) -> Result<
    (AppView, EffectView),
    ArgsError,
> {
    if key.release {
        Ok((v, EffectView::Nothing))
    } else if key.code == KeyCode::Char('c') && key.control {
        Ok((AppView { should_quit: true, ..v }, EffectView::Nothing))
    } else if v.prompt is Some {
        prompt_key(v, key)
    } else if v.confirm is Some {
        Ok(confirm_key(v, key))
    } else if v.show_help {
        Ok((help_key(v, key), EffectView::Nothing))
    } else if v.show_diagnostics {
        Ok((diagnostics_key(v, key), EffectView::Nothing))
    } else {
        Ok(main_key(v, key, inside_tmux))
    }
}

// ---------------------------------------------------------------------------
// Executable transitions
// ---------------------------------------------------------------------------

/// Calls `String::pop`, trusted to remove the last character when there is
/// one and to leave an empty string as it is.
#[verifier::external_body]
fn pop_char(s: &mut String)
    ensures
        final(s)@ == if old(s)@.len() > 0 {
            old(s)@.drop_last()
        } else {
            old(s)@
        },
{
    s.pop();
}

impl App {
    /// The invariant: the state's counts fit in a `usize`.
    pub open spec fn wf(&self) -> bool {
        app_wf(self@)
    }

    /// A fresh application on the default tmux client.
    pub fn new(refresh_interval: Duration) -> (res: Self)
        ensures
            res.wf(),
            res.interval() == refresh_interval,
            res@ == fresh_view(
                ClientView {
                    server: crate::tmux::ServerView::Default,
                    extra_servers: seq![],
                    socket_dirs: seq![],
                },
                refresh_interval,
            ),
    {
        let client: TmuxClient = TmuxClient::default();
        Self::with_client(refresh_interval, client)
    }

    /// A fresh application on the given client.
    pub fn with_client(refresh_interval: Duration, client: TmuxClient) -> (res: Self)
        ensures
            res.wf(),
            res.interval() == refresh_interval,
            res@ == fresh_view(client@, refresh_interval),
    {
        let res = App {
            client,
            state: TmuxState::empty(),
            items: Vec::new(),
            selected: 0,
            detail_scroll: 0,
            help_scroll: 0,
            collapsed_sessions: Vec::new(),
            collapsed_windows: Vec::new(),
            favorites: Vec::new(),
            filter: String::new(),
            prompt: None,
            confirm: None,
            status: "Starting lazytmux".to_string(),
            show_help: false,
            show_diagnostics: false,
            diagnostics_scroll: 0,
            should_quit: false,
            attach_target: None,
            refresh_interval,
        };
        assert(res@.items =~= Seq::<ItemView>::empty());
        assert(res@.collapsed_sessions =~= Set::<Seq<char>>::empty());
        assert(res@.collapsed_windows =~= Set::<Seq<char>>::empty());
        assert(res@.favorites =~= Seq::<Seq<char>>::empty());
        assert(res@.filter =~= Seq::<char>::empty());
        assert(res@.state.sessions =~= Seq::<crate::tmux::SessionView>::empty());
        assert(res@.state.diagnostics =~= Seq::<Seq<char>>::empty());
        assert(window_total(res@.state.sessions) == 0);
        res
    }

    /// The interval the application was made with.
    pub open spec fn interval(&self) -> Duration {
        self@.refresh_interval
    }

    /// How often the state is reloaded while nothing is being typed.
    pub fn refresh_interval(&self) -> (res: Duration)
        ensures
            res == self.interval(),
    {
        self.refresh_interval
    }

    /// The attach target chosen with Enter outside tmux, handed over once.
    pub fn take_attach_target(&mut self) -> (res: Option<TmuxTarget>)
        ensures
            opt_target(res) == old(self)@.attach_target,
            final(self)@ == (AppView { attach_target: None, ..old(self)@ }),
    {
        self.attach_target.take()
    }

    pub fn items(&self) -> (res: &[TreeItem])
        ensures
            res.deep_view() == self@.items,
    {
        self.items.as_slice()
    }

    pub fn selected(&self) -> (res: usize)
        ensures
            res == self@.selected,
    {
        self.selected
    }

    pub fn detail_scroll(&self) -> (res: u16)
        ensures
            res == self@.detail_scroll,
    {
        self.detail_scroll
    }

    pub fn help_scroll(&self) -> (res: u16)
        ensures
            res == self@.help_scroll,
    {
        self.help_scroll
    }

    /// The selected row, if there is one.
    pub fn selected_item(&self) -> (res: Option<&TreeItem>)
        ensures
            match res {
                Some(i) => selected_item_of(self@) == Some(i@),
                None => selected_item_of(self@) is None,
            },
    {
        if self.selected < self.items.len() {
            Some(&self.items[self.selected])
        } else {
            None
        }
    }

    pub fn status(&self) -> (res: &str)
        ensures
            res@ == self@.status,
    {
        self.status.as_str()
    }

    pub fn filter(&self) -> (res: &str)
        ensures
            res@ == self@.filter,
    {
        self.filter.as_str()
    }

    pub fn prompt(&self) -> (res: Option<&Prompt>)
        ensures
            match res {
                Some(p) => self@.prompt == Some(p@),
                None => self@.prompt is None,
            },
    {
        match &self.prompt {
            Some(p) => Some(p),
            None => None,
        }
    }

    pub fn confirm(&self) -> (res: Option<&Confirm>)
        ensures
            match res {
                Some(c) => self@.confirm == Some(c@),
                None => self@.confirm is None,
            },
    {
        match &self.confirm {
            Some(c) => Some(c),
            None => None,
        }
    }

    pub fn show_help(&self) -> (res: bool)
        ensures
            res == self@.show_help,
    {
        self.show_help
    }

    pub fn should_quit(&self) -> (res: bool)
        ensures
            res == self@.should_quit,
    {
        self.should_quit
    }

    /// The tmux state shown.
    pub fn state(&self) -> (res: &TmuxState)
        ensures
            res@ == self@.state,
    {
        &self.state
    }

    /// The client that loads go through.
    pub fn client(&self) -> (res: &TmuxClient)
        ensures
            res@ == self@.client,
    {
        &self.client
    }

    /// Number of sessions, windows and panes.
    pub fn counts(&self) -> (res: (usize, usize, usize))
        requires
            self.wf(),
        ensures
            res.0 == state_counts(self@.state.sessions).0,
            res.1 == state_counts(self@.state.sessions).1,
            res.2 == state_counts(self@.state.sessions).2,
    {
        self.state.counts()
    }

    /// `prefix: N sessions, N windows, N panes`.
    pub fn count_status(&self, prefix: &str) -> (res: String)
        requires
            self.wf(),
        ensures
            res@ == count_text(self@, prefix@),
    {
        let (sessions, windows, panes) = self.counts();
        let s = usize_text(sessions);
        let w = usize_text(windows);
        let p = usize_text(panes);
        let mut out = concat3(prefix, ": ", s.as_str());
        out.append(" sessions, ");
        out.append(w.as_str());
        out.append(" windows, ");
        out.append(p.as_str());
        out.append(" panes");
        out
    }

    /// Rebuilds the rows and keeps the selection within them: it stays where
    /// it was while that row exists, else it goes to the last row (0 when
    /// there is none); the detail scroll resets exactly when it moved, and
    /// nothing else changes.
    pub fn rebuild_items(&mut self)
        ensures
            final(self)@ == rebuilt(old(self)@),
            final(self)@.items.len() == 0 ==> final(self)@.selected == 0,
            final(self)@.items.len() > 0 ==> final(self)@.selected == if old(self)@.selected
                < final(self)@.items.len() - 1 {
                old(self)@.selected
            } else {
                (final(self)@.items.len() - 1) as nat
            },
            final(self)@.detail_scroll == if final(self)@.selected == old(self)@.selected {
                old(self)@.detail_scroll
            } else {
                0
            },
            final(self)@ == (AppView {
                items: final(self)@.items,
                selected: final(self)@.selected,
                detail_scroll: final(self)@.detail_scroll,
                ..old(self)@
            }),
            old(self).wf() ==> final(self).wf(),
    {
        let words = filter_words_of(self.filter.as_str());
        let items = build_rows(
            &self.state.sessions,
            &words,
            &self.collapsed_sessions,
            &self.collapsed_windows,
            &self.favorites,
        );
        self.items = items;
        let previous = self.selected;
        if self.items.len() == 0 {
            self.selected = 0;
        } else if self.selected >= self.items.len() {
            self.selected = self.items.len() - 1;
        }
        if self.selected != previous {
            self.detail_scroll = 0;
        }
    }

    /// Takes the result of a load: the new state (its rows rebuilt, its notice
    /// or the counts as status), or the reason it failed.
    pub fn refresh(&mut self, loaded: Result<TmuxState, String>)
        requires
            old(self).wf(),
            loaded matches Ok(st) ==> counts_fit(st@.sessions),
        ensures
            final(self).wf(),
            match loaded {
                Ok(st) => {
                    let r = rebuilt(AppView { state: st@, ..old(self)@ });
                    final(self)@ == with_status(
                        r,
                        match st@.notice {
                            Some(n) => n,
                            None => count_text(r, "Loaded"@),
                        },
                    )
                },
                Err(e) => final(self)@ == with_status(old(self)@, "Refresh failed: "@ + e@),
            },
    {
        match loaded {
            Ok(state) => {
                self.state = state;
                self.rebuild_items();
                let status = match &self.state.notice {
                    Some(n) => copy_string(n),
                    None => self.count_status("Loaded"),
                };
                self.status = status;
            },
            Err(error) => {
                self.status = concat2("Refresh failed: ", error.as_str());
            },
        }
    }

    /// Ends a load through the application's client (see `TmuxClient::load`);
    /// only the client changes.
    pub fn finish_load(&mut self, progress: LoadProgress, tmux_running: bool) -> (res: LoadOutcome)
        requires
            progress.wf(),
            progress@.next >= progress@.candidates.len(),
            progress@.pending is None,
        ensures
            final(self)@ == (AppView { client: final(self)@.client, ..old(self)@ }),
            load_settled(old(self)@.client, final(self)@.client, progress@, tmux_running, res),
    {
        self.client.load(progress, tmux_running)
    }

    /// Reports how a tmux action went in the status line.
    pub fn finish_tmux(&mut self, label: &str, result: Result<(), String>)
        ensures
            final(self)@ == with_status(
                old(self)@,
                result_status(
                    label@,
                    match result {
                        Ok(_) => None,
                        Err(e) => Some(e@),
                    },
                ),
            ),
    {
        self.status = match result {
            Ok(()) => label.to_string(),
            Err(error) => concat3(label, " failed: ", error.as_str()),
        };
    }

    fn move_selection(&mut self, delta: isize)
        ensures
            final(self)@ == moved(old(self)@, delta as int),
    {
        if self.items.len() == 0 {
            self.selected = 0;
            self.detail_scroll = 0;
            return;
        }
        let next: i128 = self.selected as i128 + delta as i128;
        let last: i128 = self.items.len() as i128 - 1;
        let previous = self.selected;
        self.selected = if next < 0 {
            0
        } else if next > last {
            self.items.len() - 1
        } else {
            next as usize
        };
        if self.selected != previous {
            self.detail_scroll = 0;
        }
    }

    fn select_index(&mut self, index: usize)
        ensures
            final(self)@ == at_index(old(self)@, index as nat),
    {
        let previous = self.selected;
        let last = if self.items.len() == 0 {
            0
        } else {
            self.items.len() - 1
        };
        self.selected = if index < last {
            index
        } else {
            last
        };
        if self.selected != previous {
            self.detail_scroll = 0;
        }
    }

    fn scroll_details(&mut self, delta: i16)
        ensures
            final(self)@ == (AppView {
                detail_scroll: scrolled(old(self)@.detail_scroll, delta as int),
                ..old(self)@
            }),
    {
        let next: i32 = self.detail_scroll as i32 + delta as i32;
        self.detail_scroll = if next < 0 {
            0
        } else if next > 0xffff {
            0xffff
        } else {
            next as u16
        };
    }

    fn scroll_help(&mut self, delta: i16)
        ensures
            final(self)@ == (AppView {
                help_scroll: scrolled(old(self)@.help_scroll, delta as int),
                ..old(self)@
            }),
    {
        let next: i32 = self.help_scroll as i32 + delta as i32;
        self.help_scroll = if next < 0 {
            0
        } else if next > 0xffff {
            0xffff
        } else {
            next as u16
        };
    }

    fn open_help(&mut self)
        ensures
            final(self)@ == help_opened(old(self)@),
    {
        self.show_help = true;
        self.help_scroll = 0;
        self.status =
            "Shortcuts page open. Scroll with j/k or arrows; close with ?/F1/q/Esc.".to_string();
    }
}


// ---------------------------------------------------------------------------
// Sets of collapsed ids
// ---------------------------------------------------------------------------

proof fn lemma_text_set_push(s: Seq<Seq<char>>, x: Seq<char>)
    ensures
        text_set(s.push(x)) == text_set(s).insert(x),
{
    assert forall|y: Seq<char>| #[trigger] text_set(s.push(x)).contains(y) <==> text_set(s).insert(
        x,
    ).contains(y) by {
        if s.contains(y) {
            let i = choose|i: int| 0 <= i < s.len() && s[i] == y;
            assert(s.push(x)[i] == y);
        }
        if s.push(x).contains(y) {
            let i = choose|i: int| 0 <= i < s.push(x).len() && s.push(x)[i] == y;
            if i < s.len() {
                assert(s[i] == y);
            }
        }
        if y == x {
            assert(s.push(x)[s.len() as int] == x);
        }
    }
    assert(text_set(s.push(x)) =~= text_set(s).insert(x));
}

/// Adds `x` to a set of ids.
fn insert_text(v: &mut Vec<String>, x: String)
    ensures
        text_set(final(v).deep_view()) == text_set(old(v).deep_view()).insert(x@),
{
    if crate::rows::holds_text(v, &x) {
        assert(text_set(v.deep_view()).insert(x@) =~= text_set(v.deep_view()));
        return;
    }
    let ghost before = v.deep_view();
    let ghost xv = x@;
    v.push(x);
    assert(v.deep_view() =~= before.push(xv));
    proof {
        lemma_text_set_push(before, xv);
    }
}

/// Removes `x` from a set of ids.
fn remove_text(v: &mut Vec<String>, x: &String)
    ensures
        text_set(final(v).deep_view()) == text_set(old(v).deep_view()).remove(x@),
{
    let ghost old_v = v.deep_view();
    let mut out: Vec<String> = Vec::new();
    let mut i: usize = 0;
    assert(out.deep_view() =~= Seq::<Seq<char>>::empty());
    while i < v.len()
        invariant
            i <= v.len(),
            old_v == v.deep_view(),
            forall|y: Seq<char>| #[trigger] out.deep_view().contains(y) <==> (exists|j: int|
                0 <= j < i && old_v[j] == y) && y != x@,
        decreases v.len() - i,
    {
        if !v[i].eq(x) {
            let ghost before = out.deep_view();
            let c = copy_string(&v[i]);
            out.push(c);
            assert(out.deep_view() =~= before.push(c@));
            assert forall|y: Seq<char>| #[trigger] out.deep_view().contains(y) <==> (exists|j: int|
                0 <= j < i + 1 && old_v[j] == y) && y != x@ by {
                if out.deep_view().contains(y) {
                    let k = choose|k: int| 0 <= k < out.deep_view().len() && out.deep_view()[k] == y;
                    if k < before.len() {
                        assert(before[k] == y);
                        assert(before.contains(y));
                    } else {
                        assert(old_v[i as int] == y);
                    }
                }
                if (exists|j: int| 0 <= j < i + 1 && old_v[j] == y) && y != x@ {
                    let j = choose|j: int| 0 <= j < i + 1 && old_v[j] == y;
                    if j < i {
                        assert(before.contains(y));
                        let k = choose|k: int| 0 <= k < before.len() && before[k] == y;
                        assert(out.deep_view()[k] == y);
                    } else {
                        assert(out.deep_view()[before.len() as int] == y);
                    }
                }
            }
        } else {
            assert(old_v[i as int] == x@);
            assert forall|y: Seq<char>| #[trigger] out.deep_view().contains(y) <==> (exists|j: int|
                0 <= j < i + 1 && old_v[j] == y) && y != x@ by {
                if (exists|j: int| 0 <= j < i + 1 && old_v[j] == y) && y != x@ {
                    let j = choose|j: int| 0 <= j < i + 1 && old_v[j] == y;
                    assert(j < i);
                }
            }
        }
        i += 1;
    }
    assert forall|y: Seq<char>| #[trigger] text_set(out.deep_view()).contains(y) <==> text_set(
        old_v,
    ).remove(x@).contains(y) by {
        if old_v.contains(y) {
            let j = choose|j: int| 0 <= j < old_v.len() && old_v[j] == y;
        }
    }
    assert(text_set(out.deep_view()) =~= text_set(old_v).remove(x@));
    *v = out;
}

/// Changes a set of ids as a collapse key asks.
fn change_text(v: &mut Vec<String>, x: String, how: SetChange)
    ensures
        text_set(final(v).deep_view()) == changed(text_set(old(v).deep_view()), x@, how),
{
    match how {
        SetChange::Insert => insert_text(v, x),
        SetChange::Remove => remove_text(v, &x),
        SetChange::Toggle => {
            if crate::rows::holds_text(v, &x) {
                remove_text(v, &x);
            } else {
                insert_text(v, x);
            }
        },
    }
}

impl App {
    /// Collapses, expands or toggles the selected session or window.
    fn change_collapsed(&mut self, how: SetChange)
        ensures
            final(self)@ == collapse_changed(old(self)@, how),
    {
        if self.selected >= self.items.len() {
            return;
        }
        let ghost item = self.items[self.selected as int]@;
        assert(self@.items[self.selected as int] == item);
        match self.items[self.selected].kind {
            TreeItemKind::Session => {
                let id = copy_string(&self.items[self.selected].target.session_id);
                change_text(&mut self.collapsed_sessions, id, how);
            },
            TreeItemKind::Window => {
                match &self.items[self.selected].target.window_id {
                    Some(w) => {
                        let id = copy_string(w);
                        change_text(&mut self.collapsed_windows, id, how);
                    },
                    None => {},
                }
            },
            TreeItemKind::Pane => {},
        }
        self.rebuild_items();
    }

    /// Runs a tmux command, or reports why there is none.
    fn tmux_effect(&mut self, label: &str, c: Result<TmuxCommand, TargetError>, refresh: bool) -> (res:
        Effect)
        ensures
            (final(self)@, res@) == tmux_action(old(self)@, label@, command_view_result(c), refresh),
    {
        match c {
            Ok(c) => {
                let mut commands: Vec<TmuxCommand> = Vec::new();
                commands.push(c);
                assert(command_views(commands@) =~= seq![c@]);
                Effect::Tmux { label: label.to_string(), commands, refresh }
            },
            Err(e) => {
                let m = e.message();
                self.status = concat3(label, " failed: ", m.as_str());
                if refresh {
                    Effect::Refresh
                } else {
                    Effect::Nothing
                }
            },
        }
    }

    fn selected_target(&self) -> (res: Option<&TmuxTarget>)
        ensures
            match res {
                Some(t) => selected_item_of(self@) matches Some(i) && i.target == t@,
                None => selected_item_of(self@) is None,
            },
    {
        if self.selected < self.items.len() {
            assert(self@.items[self.selected as int] == self.items[self.selected as int]@);
            Some(&self.items[self.selected].target)
        } else {
            None
        }
    }

    fn open_selected(&mut self, inside_tmux: bool) -> (res: Effect)
        ensures
            (final(self)@, res@) == opened_selected(old(self)@, inside_tmux),
    {
        match self.selected_target() {
            None => {
                self.status = "No tmux target selected".to_string();
                Effect::Nothing
            },
            Some(target) => {
                if inside_tmux {
                    let commands = self.client.switch_to_target(target);
                    Effect::Tmux { label: "Switched target".to_string(), commands, refresh: false }
                } else {
                    let t = target.duplicate();
                    self.attach_target = Some(t);
                    self.should_quit = true;
                    Effect::Nothing
                }
            },
        }
    }

    fn set_prompt(&mut self, title: &str, value: String, hint: &str, kind: PromptKind)
        ensures
            final(self)@ == with_prompt(
                old(self)@,
                prompt_of(
                    title@,
                    value@,
                    hint@,
                    match kind {
                        PromptKind::Filter => PromptKindView::Filter,
                        PromptKind::Rename(k, t) => PromptKindView::Rename(k, t@),
                        PromptKind::NewSession => PromptKindView::NewSession,
                        PromptKind::Launch => PromptKindView::Launch,
                        PromptKind::NewWindow(t) => PromptKindView::NewWindow(t@),
                        PromptKind::SendKeys(t) => PromptKindView::SendKeys(t@),
                        PromptKind::Command => PromptKindView::Command,
                    },
                ),
            ),
    {
        self.prompt = Some(
            Prompt { title: title.to_string(), value, hint: hint.to_string(), kind },
        );
    }

    fn open_rename_prompt(&mut self)
        ensures
            final(self)@ == rename_prompt_opened(old(self)@),
    {
        if self.selected >= self.items.len() {
            self.status = "No item selected to rename".to_string();
            return;
        }
        assert(self@.items[self.selected as int] == self.items[self.selected as int]@);
        let kind = self.items[self.selected].kind;
        let value = copy_string(&self.items[self.selected].rename_value);
        let target = self.items[self.selected].target.duplicate();
        let title = match kind {
            TreeItemKind::Session => "Rename session",
            TreeItemKind::Window => "Rename window",
            TreeItemKind::Pane => "Set pane title",
        };
        self.set_prompt(title, value, "Enter to apply, Esc to cancel", PromptKind::Rename(kind, target));
    }

    fn open_kill_confirm(&mut self)
        ensures
            final(self)@ == kill_confirm_opened(old(self)@),
    {
        if self.selected >= self.items.len() {
            self.status = "No item selected to kill".to_string();
            return;
        }
        assert(self@.items[self.selected as int] == self.items[self.selected as int]@);
        let kind = self.items[self.selected].kind;
        let word = match kind {
            TreeItemKind::Session => "session",
            TreeItemKind::Window => "window",
            TreeItemKind::Pane => "pane",
        };
        let mut message = concat3("Kill ", word, " ");
        message.append(self.items[self.selected].label.as_str());
        message.append("? Press y to confirm or n/Esc to cancel.");
        let target = self.items[self.selected].target.duplicate();
        self.confirm = Some(Confirm { message, kind, target });
    }

    fn open_new_window_prompt(&mut self)
        ensures
            old(self)@.items.len() > old(self)@.selected ==> final(self)@ == with_prompt(
                old(self)@,
                prompt_of(
                    "New window"@,
                    seq![],
                    "Enter a window name"@,
                    PromptKindView::NewWindow(old(self)@.items[old(self)@.selected as int].target),
                ),
            ),
            old(self)@.items.len() <= old(self)@.selected ==> final(self)@ == with_status(
                old(self)@,
                "Select a session/window/pane before creating a window"@,
            ),
    {
        if self.selected >= self.items.len() {
            self.status = "Select a session/window/pane before creating a window".to_string();
            return;
        }
        assert(self@.items[self.selected as int] == self.items[self.selected as int]@);
        let target = self.items[self.selected].target.duplicate();
        self.set_prompt("New window", String::new(), "Enter a window name", PromptKind::NewWindow(target));
    }

    /// A pane action on the selected row.
    fn pane_action(&mut self, missing: &str, label: &str, c: Option<Result<TmuxCommand, TargetError>>) -> (res: Effect)
        requires
            match c {
                None => !(selected_item_of(old(self)@) matches Some(i) && i.target.pane_id is Some),
                Some(r) => selected_item_of(old(self)@) matches Some(i) && i.target.pane_id is Some,
            },
        ensures
            match c {
                None => (final(self)@, res@) == (with_status(old(self)@, missing@), EffectView::Nothing),
                Some(r) => (final(self)@, res@) == tmux_action(old(self)@, label@, command_view_result(r), true),
            },
    {
        match c {
            None => {
                self.status = missing.to_string();
                Effect::Nothing
            },
            Some(r) => self.tmux_effect(label, r, true),
        }
    }

    fn selected_pane_target(&self) -> (res: Option<&TmuxTarget>)
        ensures
            match res {
                Some(t) => selected_item_of(self@) matches Some(i) && i.target == t@ && i.target.pane_id is Some,
                None => !(selected_item_of(self@) matches Some(i) && i.target.pane_id is Some),
            },
    {
        match self.selected_target() {
            Some(t) => {
                if t.pane_id.is_some() {
                    Some(t)
                } else {
                    None
                }
            },
            None => None,
        }
    }

    fn split_selected(&mut self, direction: SplitDirection) -> (res: Effect)
        ensures
            (final(self)@, res@) == on_selected_pane(
                old(self)@,
                "Select a pane before splitting"@,
                split_label(direction),
                |p: Seq<char>| seq!["split-window"@, split_flag(direction), "-t"@, p],
            ),
    {
        let label = match direction {
            SplitDirection::Horizontal => "Split pane horizontally",
            SplitDirection::Vertical => "Split pane vertically",
        };
        let c = match self.selected_pane_target() {
            Some(t) => Some(self.client.split_pane(t, direction)),
            None => None,
        };
        let res = self.pane_action("Select a pane before splitting", label, c);
        res
    }

    fn zoom_selected(&mut self) -> (res: Effect)
        ensures
            (final(self)@, res@) == on_selected_pane(
                old(self)@,
                "Select a pane before toggling zoom"@,
                "Toggled pane zoom"@,
                |p: Seq<char>| seq!["resize-pane"@, "-Z"@, "-t"@, p],
            ),
    {
        let c = match self.selected_pane_target() {
            Some(t) => Some(self.client.toggle_zoom(t)),
            None => None,
        };
        self.pane_action("Select a pane before toggling zoom", "Toggled pane zoom", c)
    }

    fn clear_filter(&mut self)
        requires
            old(self).wf(),
        ensures
            final(self).wf(),
            ({
                let r = rebuilt(AppView { filter: seq![], ..old(self)@ });
                final(self)@ == with_status(r, count_text(r, "Filter cleared"@))
            }),
    {
        self.filter = String::new();
        self.rebuild_items();
        self.status = self.count_status("Filter cleared");
    }

    fn apply_prompt(&mut self, prompt: Prompt) -> (res: Result<Effect, ArgsError>)
        requires
            old(self).wf(),
        ensures
            final(self).wf(),
            match prompt_applied(old(self)@, prompt@) {
                Ok((v, e)) => res matches Ok(eff) && final(self)@ == v && eff@ == e,
                Err(e) => res == Err::<Effect, ArgsError>(e) && final(self)@ == old(self)@,
            },
    {
        let value = trim_string(prompt.value.as_str());
        let empty = str_chars(value.as_str()).len() == 0;
        match prompt.kind {
            PromptKind::Filter => {
                self.filter = value;
                self.rebuild_items();
                self.status = self.count_status("Filter applied");
                Ok(Effect::Nothing)
            },
            PromptKind::Rename(kind, target) => {
                if empty {
                    self.status = "Name cannot be empty".to_string();
                    return Ok(Effect::Nothing);
                }
                let eff = match kind {
                    TreeItemKind::Session => {
                        let c = self.client.rename_session(&target, value.as_str());
                        self.tmux_effect("Renamed session", Ok(c), true)
                    },
                    TreeItemKind::Window => {
                        let c = self.client.rename_window(&target, value.as_str());
                        self.tmux_effect("Renamed window", c, true)
                    },
                    TreeItemKind::Pane => {
                        let c = self.client.rename_pane(&target, value.as_str());
                        self.tmux_effect("Set pane title", c, true)
                    },
                };
                Ok(eff)
            },
            PromptKind::NewSession => {
                if empty {
                    self.status = "Session name cannot be empty".to_string();
                    return Ok(Effect::Nothing);
                }
                let c = self.client.create_session(value.as_str());
                Ok(self.tmux_effect("Created session", Ok(c), true))
            },
            PromptKind::Launch => {
                let (name, dir, command) = launch_parts(value.as_str());
                if str_chars(name.as_str()).len() == 0 {
                    self.status = "Session name cannot be empty".to_string();
                    return Ok(Effect::Nothing);
                }
                let d = match &dir {
                    Some(d) => Some(d.as_str()),
                    None => None,
                };
                let c = match &command {
                    Some(c) => Some(c.as_str()),
                    None => None,
                };
                let run = self.client.create_session_with(name.as_str(), d, c);
                Ok(self.tmux_effect("Launched session", Ok(run), true))
            },
            PromptKind::SendKeys(target) => {
                if empty {
                    self.status = "Keys cannot be empty".to_string();
                    return Ok(Effect::Nothing);
                }
                let c = self.client.send_keys(&target, value.as_str());
                Ok(self.tmux_effect("Sent keys", c, true))
            },
            PromptKind::NewWindow(target) => {
                if empty {
                    self.status = "Window name cannot be empty".to_string();
                    return Ok(Effect::Nothing);
                }
                let c = self.client.create_window(&target, value.as_str());
                Ok(self.tmux_effect("Created window", Ok(c), true))
            },
            PromptKind::Command => {
                let args = split_tmux_args(value.as_str())?;
                if args.len() == 0 {
                    self.status = "No tmux command entered".to_string();
                    return Ok(Effect::Nothing);
                }
                let c = self.client.run_args(args.as_slice());
                Ok(self.tmux_effect("Ran tmux command", Ok(c), true))
            },
        }
    }

    fn apply_kill(&mut self, confirm: Confirm) -> (res: Effect)
        ensures
            (final(self)@, res@) == kill_applied(old(self)@, confirm@),
    {
        match confirm.kind {
            TreeItemKind::Session => {
                let c = self.client.kill_session(&confirm.target);
                self.tmux_effect("Killed session", Ok(c), true)
            },
            TreeItemKind::Window => {
                let c = self.client.kill_window(&confirm.target);
                self.tmux_effect("Killed window", c, true)
            },
            TreeItemKind::Pane => {
                let c = self.client.kill_pane(&confirm.target);
                self.tmux_effect("Killed pane", c, true)
            },
        }
    }
}


impl App {
    fn handle_help_key(&mut self, key: KeyEvent)
        ensures
            final(self)@ == help_key(old(self)@, key),
    {
        let closes = match key.code {
            KeyCode::F(n) => n == 1,
            KeyCode::Esc => true,
            KeyCode::Char(c) => c == '?' || c == 'q' || (c == '/' && key.shift),
            _ => false,
        };
        if closes {
            self.show_help = false;
            self.help_scroll = 0;
            return;
        }
        match key.code {
            KeyCode::Down => self.scroll_help(1),
            KeyCode::Up => self.scroll_help(-1),
            KeyCode::PageDown => self.scroll_help(8),
            KeyCode::PageUp => self.scroll_help(-8),
            KeyCode::Home => self.help_scroll = 0,
            KeyCode::Char(c) => {
                if c == 'j' {
                    self.scroll_help(1)
                } else if c == 'k' {
                    self.scroll_help(-1)
                } else if c == 'd' && key.control {
                    self.scroll_help(8)
                } else if c == 'u' && key.control {
                    self.scroll_help(-8)
                } else if c == ']' {
                    self.scroll_help(4)
                } else if c == '[' {
                    self.scroll_help(-4)
                } else if c == 'g' {
                    self.help_scroll = 0
                }
            },
            _ => {},
        }
    }

    fn handle_prompt_key(&mut self, key: KeyEvent) -> (res: Result<Effect, ArgsError>)
        requires
            old(self).wf(),
            old(self)@.prompt is Some,
        ensures
            final(self).wf(),
            match prompt_key(old(self)@, key) {
                Ok((v, e)) => res matches Ok(eff) && final(self)@ == v && eff@ == e,
                Err(e) => res == Err::<Effect, ArgsError>(e) && final(self)@ == (AppView {
                    prompt: None,
                    ..old(self)@
                }),
            },
    {
        match key.code {
            KeyCode::Esc => {
                self.prompt = None;
                Ok(Effect::Nothing)
            },
            KeyCode::Enter => {
                let prompt = self.prompt.take().unwrap();
                self.apply_prompt(prompt)
            },
            KeyCode::Backspace => {
                let mut p = self.prompt.take().unwrap();
                pop_char(&mut p.value);
                self.prompt = Some(p);
                Ok(Effect::Nothing)
            },
            KeyCode::Char(c) => {
                if c == 'u' && key.control {
                    let mut p = self.prompt.take().unwrap();
                    p.value = String::new();
                    self.prompt = Some(p);
                } else if !key.control {
                    let mut p = self.prompt.take().unwrap();
                    push_char(&mut p.value, c);
                    self.prompt = Some(p);
                }
                Ok(Effect::Nothing)
            },
            _ => Ok(Effect::Nothing),
        }
    }

    fn handle_confirm_key(&mut self, key: KeyEvent) -> (res: Effect)
        requires
            old(self)@.confirm is Some,
        ensures
            (final(self)@, res@) == confirm_key(old(self)@, key),
    {
        match key.code {
            KeyCode::Esc => {
                self.confirm = None;
                Effect::Nothing
            },
            KeyCode::Char(c) => {
                if c == 'n' || c == 'N' {
                    self.confirm = None;
                    Effect::Nothing
                } else if c == 'y' || c == 'Y' {
                    let confirm = self.confirm.take().unwrap();
                    self.apply_kill(confirm)
                } else {
                    Effect::Nothing
                }
            },
            _ => Effect::Nothing,
        }
    }

    /// A character key on the main screen.
    fn handle_main_char(&mut self, c: char, key: KeyEvent, inside_tmux: bool) -> (res: Effect)
        requires
            old(self).wf(),
            key.code == KeyCode::Char(c),
        ensures
            final(self).wf(),
            (final(self)@, res@) == main_key(old(self)@, key, inside_tmux),
    {
        if c == 'q' {
            self.should_quit = true;
        } else if c == 'j' {
            self.move_selection(1);
        } else if c == 'k' {
            self.move_selection(-1);
        } else if c == 'g' {
            self.select_index(0);
        } else if c == 'G' {
            let last = if self.items.len() == 0 {
                0
            } else {
                self.items.len() - 1
            };
            self.select_index(last);
        } else if c == 'u' && key.control {
            self.scroll_details(-8);
        } else if c == 'd' && key.control {
            self.scroll_details(8);
        } else if c == '[' {
            self.scroll_details(-4);
        } else if c == ']' {
            self.scroll_details(4);
        } else if c == ' ' {
            self.change_collapsed(SetChange::Toggle);
        } else if c == 'h' {
            self.change_collapsed(SetChange::Insert);
        } else if c == 'l' {
            self.change_collapsed(SetChange::Remove);
        } else if c == '/' && key.shift {
            self.open_help();
        } else if c == '/' {
            let value = copy_string(&self.filter);
            self.set_prompt(
                "Filter",
                value,
                "Enter to apply, Esc to cancel, Ctrl-U to clear",
                PromptKind::Filter,
            );
        } else if c == 'f' {
            self.clear_filter();
        } else if c == 'R' && key.super_key {
            self.open_rename_prompt();
        } else if c == 'R' {
            return Effect::Refresh;
        } else if c == 'n' {
            self.set_prompt(
                "New session",
                String::new(),
                "Enter a tmux session name",
                PromptKind::NewSession,
            );
        } else if c == 'w' {
            self.open_new_window_prompt();
        } else if c == '%' {
            return self.split_selected(SplitDirection::Horizontal);
        } else if c == '"' {
            return self.split_selected(SplitDirection::Vertical);
        } else if c == 'r' {
            self.open_rename_prompt();
        } else if c == 'x' {
            self.open_kill_confirm();
        } else if c == 'z' {
            return self.zoom_selected();
        } else if c == 'd' {
            let mut commands: Vec<TmuxCommand> = Vec::new();
            commands.push(self.client.detach_client());
            assert(command_views(commands@) =~= seq![commands@[0]@]);
            return Effect::Tmux { label: "Detached tmux client".to_string(), commands, refresh: false };
        } else if c == ':' {
            self.set_prompt(
                "tmux command",
                String::new(),
                "Example: rename-session work. Do not include the leading tmux word.",
                PromptKind::Command,
            );
        } else if c == '*' {
            return self.toggle_favorite();
        } else if c == 'N' {
            self.set_prompt(
                "Launch session",
                String::new(),
                "name | start-dir | command",
                PromptKind::Launch,
            );
        } else if c == 's' {
            self.open_send_keys_prompt();
        } else if c == 'y' {
            return self.copy_selected();
        } else if c == 'D' {
            self.open_diagnostics();
        } else if c == '?' {
            self.open_help();
        }
        Effect::Nothing
    }

    fn handle_main_key(&mut self, key: KeyEvent, inside_tmux: bool) -> (res: Effect)
        requires
            old(self).wf(),
        ensures
            final(self).wf(),
            (final(self)@, res@) == main_key(old(self)@, key, inside_tmux),
    {
        match key.code {
            KeyCode::Esc => {
                self.should_quit = true;
                Effect::Nothing
            },
            KeyCode::Down => {
                self.move_selection(1);
                Effect::Nothing
            },
            KeyCode::Up => {
                self.move_selection(-1);
                Effect::Nothing
            },
            KeyCode::PageDown => {
                self.move_selection(10);
                Effect::Nothing
            },
            KeyCode::PageUp => {
                self.move_selection(-10);
                Effect::Nothing
            },
            KeyCode::Left => {
                self.change_collapsed(SetChange::Insert);
                Effect::Nothing
            },
            KeyCode::Right => {
                self.change_collapsed(SetChange::Remove);
                Effect::Nothing
            },
            KeyCode::Enter => self.open_selected(inside_tmux),
            KeyCode::F(n) => {
                if n == 1 {
                    self.open_help();
                }
                Effect::Nothing
            },
            KeyCode::Char(c) => self.handle_main_char(c, key, inside_tmux),
            _ => Effect::Nothing,
        }
    }

    /// What a key does. Releases are ignored and Ctrl-C quits; otherwise an
    /// open prompt, confirmation or shortcuts page takes the key before the
    /// main screen does. `inside_tmux` says whether this program runs inside a
    /// tmux client (Enter then switches that client instead of attaching). A
    /// command typed into the command prompt that cannot be split is an
    /// error; the prompt is closed.
    pub fn handle_key(&mut self, key: KeyEvent, inside_tmux: bool) -> (res: Result<Effect, ArgsError>)
        requires
            old(self).wf(),
        ensures
            final(self).wf(),
            match key_result(old(self)@, key, inside_tmux) {
                Ok((v, e)) => res matches Ok(eff) && final(self)@ == v && eff@ == e,
                Err(e) => res == Err::<Effect, ArgsError>(e) && final(self)@ == (AppView {
                    prompt: None,
                    ..old(self)@
                }),
            },
    {
        if key.release {
            return Ok(Effect::Nothing);
        }
        if key.code == KeyCode::Char('c') && key.control {
            self.should_quit = true;
            return Ok(Effect::Nothing);
        }
        if self.prompt.is_some() {
            return self.handle_prompt_key(key);
        }
        if self.confirm.is_some() {
            return Ok(self.handle_confirm_key(key));
        }
        if self.show_help {
            self.handle_help_key(key);
            return Ok(Effect::Nothing);
        }
        if self.show_diagnostics {
            self.handle_diagnostics_key(key);
            return Ok(Effect::Nothing);
        }
        Ok(self.handle_main_key(key, inside_tmux))
    }
}


/// `String`s of a launcher line's fields.
fn launch_parts(value: &str) -> (res: (String, Option<String>, Option<String>))
    ensures
        res.0@ == launch_fields(value@).0,
        option_text(res.1) == launch_fields(value@).1,
        option_text(res.2) == launch_fields(value@).2,
{
    let v = str_chars(value);
    let k = index_of_char(v.as_slice(), '|');
    proof {
        lemma_index_of_bounds(v@, '|');
    }
    if k >= v.len() {
        let t = trim_chars(v.as_slice());
        return (chars_string(t.as_slice()), None, None);
    }
    let head = slice_chars(v.as_slice(), 0, k);
    let rest = slice_chars(v.as_slice(), k + 1, v.len());
    assert(head@ == v@.take(k as int));
    assert(rest@ == v@.skip(k + 1));
    let name = chars_string(trim_chars(head.as_slice()).as_slice());
    let j = index_of_char(rest.as_slice(), '|');
    proof {
        lemma_index_of_bounds(rest@, '|');
    }
    if j >= rest.len() {
        let dir = chars_string(trim_chars(rest.as_slice()).as_slice());
        return (name, Some(dir), None);
    }
    let d = slice_chars(rest.as_slice(), 0, j);
    let c = slice_chars(rest.as_slice(), j + 1, rest.len());
    assert(d@ == rest@.take(j as int));
    assert(c@ == rest@.skip(j + 1));
    let dir = chars_string(trim_chars(d.as_slice()).as_slice());
    let command = chars_string(trim_chars(c.as_slice()).as_slice());
    (name, Some(dir), Some(command))
}

/// Takes `key` out of the favorites when it is there, else adds it; says
/// whether it was there.
fn toggle_key(v: &mut Vec<String>, key: String) -> (was: bool)
    ensures
        was == old(v).deep_view().contains(key@),
        final(v).deep_view() == toggled(old(v).deep_view(), key@),
{
    let ghost old_v = v.deep_view();
    let held = crate::rows::holds_text(v, &key);
    if !held {
        v.push(key);
        assert(v.deep_view() =~= old_v.push(key@));
        return false;
    }
    let mut out: Vec<String> = Vec::new();
    let mut i: usize = 0;
    assert(old_v.take(0) =~= Seq::<Seq<char>>::empty());
    assert(out.deep_view() =~= Seq::<Seq<char>>::empty());
    while i < v.len()
        invariant
            i <= v.len(),
            old_v == v.deep_view(),
            out.deep_view() == without(old_v.take(i as int), key@),
        decreases v.len() - i,
    {
        assert(old_v.take(i + 1).drop_last() =~= old_v.take(i as int));
        assert(old_v.take(i + 1).last() == old_v[i as int]);
        assert(old_v[i as int] == v[i as int]@);
        if !v[i].eq(&key) {
            let ghost before = out.deep_view();
            let c = copy_string(&v[i]);
            out.push(c);
            assert(out.deep_view() =~= before.push(c@));
        }
        i += 1;
    }
    assert(old_v.take(v.len() as int) == old_v);
    *v = out;
    true
}

impl App {
    fn toggle_favorite(&mut self) -> (res: Effect)
        requires
            old(self).wf(),
        ensures
            final(self).wf(),
            (final(self)@, res@) == favorite_toggled(old(self)@),
    {
        if self.selected >= self.items.len() {
            self.status = "No item selected to favorite".to_string();
            return Effect::Nothing;
        }
        assert(self@.items[self.selected as int] == self.items[self.selected as int]@);
        let key = self.items[self.selected].target.favorite_key();
        let label = copy_string(&self.items[self.selected].label);
        let ghost before = self.favorites.deep_view();
        let was = toggle_key(&mut self.favorites, key);
        proof {
            lemma_toggled_no_duplicates(before, key@);
        }
        self.rebuild_items();
        self.status = if was {
            concat2("Removed favorite ", label.as_str())
        } else {
            concat2("Added favorite ", label.as_str())
        };
        Effect::SaveFavorites
    }

    fn open_send_keys_prompt(&mut self)
        ensures
            final(self)@ == send_keys_prompt_opened(old(self)@),
    {
        let target = match self.selected_pane_target() {
            Some(t) => Some(t.duplicate()),
            None => None,
        };
        match target {
            Some(t) => self.set_prompt(
                "Send keys",
                String::new(),
                "Keys for the selected pane; Enter is sent after them",
                PromptKind::SendKeys(t),
            ),
            None => {
                self.status = "Select a pane before sending keys".to_string();
            },
        }
    }

    fn copy_selected(&mut self) -> (res: Effect)
        ensures
            (final(self)@, res@) == copy_started(old(self)@),
    {
        let target = match self.selected_pane_target() {
            Some(t) => Some(t.duplicate()),
            None => None,
        };
        match target {
            None => {
                self.status = "Select a pane before copying its text".to_string();
                Effect::Nothing
            },
            Some(t) => match self.client.copy_pane_to_buffer(&t) {
                Ok(command) => Effect::Capture {
                    label: "Copied pane text".to_string(),
                    command,
                    target: t,
                },
                Err(e) => {
                    self.status = e.message();
                    Effect::Nothing
                },
            },
        }
    }

    /// Ends copying a pane's text: what the capture printed goes to the tmux
    /// buffer of the pane's server; a failed capture is reported in the
    /// status line.
    pub fn finish_capture(&mut self, label: &str, target: &TmuxTarget, output: &CommandOutput) -> (res:
        Effect)
        ensures
            output.success ==> final(self)@ == old(self)@ && res@ == (EffectView::Tmux {
                label: label@,
                commands: seq![
                    on_target(target@, seq!["set-buffer"@, normalized_capture(output.stdout@)]),
                ],
                refresh: false,
            }),
            !output.success ==> final(self)@ == with_status(
                old(self)@,
                result_status(
                    label@,
                    Some("tmux capture-pane failed: "@ + output_message(output.stdout@, output.stderr@)),
                ),
            ) && res@ == EffectView::Nothing,
    {
        match capture_result(output) {
            Ok(text) => {
                let c = set_buffer_command(target, text.as_str());
                let mut commands: Vec<TmuxCommand> = Vec::new();
                commands.push(c);
                assert(command_views(commands@) =~= seq![c@]);
                Effect::Tmux { label: label.to_string(), commands, refresh: false }
            },
            Err(e) => {
                self.status = concat3(label, " failed: ", e.as_str());
                Effect::Nothing
            },
        }
    }

    fn open_diagnostics(&mut self)
        ensures
            final(self)@ == diagnostics_opened(old(self)@),
    {
        self.show_diagnostics = true;
        self.diagnostics_scroll = 0;
        self.status = "Diagnostics open. Close with D/q/Esc.".to_string();
    }

    fn scroll_diagnostics(&mut self, delta: i16)
        ensures
            final(self)@ == (AppView {
                diagnostics_scroll: scrolled(old(self)@.diagnostics_scroll, delta as int),
                ..old(self)@
            }),
    {
        let next: i32 = self.diagnostics_scroll as i32 + delta as i32;
        self.diagnostics_scroll = if next < 0 {
            0
        } else if next > 0xffff {
            0xffff
        } else {
            next as u16
        };
    }

    fn handle_diagnostics_key(&mut self, key: KeyEvent)
        ensures
            final(self)@ == diagnostics_key(old(self)@, key),
    {
        let closes = match key.code {
            KeyCode::Esc => true,
            KeyCode::Char(c) => c == 'D' || c == 'q',
            _ => false,
        };
        if closes {
            self.show_diagnostics = false;
            self.diagnostics_scroll = 0;
            return;
        }
        match key.code {
            KeyCode::Down => self.scroll_diagnostics(1),
            KeyCode::Up => self.scroll_diagnostics(-1),
            KeyCode::PageDown => self.scroll_diagnostics(8),
            KeyCode::PageUp => self.scroll_diagnostics(-8),
            KeyCode::Home => self.diagnostics_scroll = 0,
            KeyCode::Char(c) => {
                if c == 'j' {
                    self.scroll_diagnostics(1)
                } else if c == 'k' {
                    self.scroll_diagnostics(-1)
                } else if c == 'd' && key.control {
                    self.scroll_diagnostics(8)
                } else if c == 'u' && key.control {
                    self.scroll_diagnostics(-8)
                } else if c == 'g' {
                    self.diagnostics_scroll = 0
                }
            },
            _ => {},
        }
    }

    /// The favorite keys, in the order they were added.
    pub fn favorites(&self) -> (res: &Vec<String>)
        ensures
            res.deep_view() == self@.favorites,
    {
        &self.favorites
    }

    /// How many favorites there are.
    pub fn favorites_count(&self) -> (res: usize)
        ensures
            res == self@.favorites.len(),
    {
        self.favorites.len()
    }

    /// Replaces the favorites with the stored keys (each kept once, in
    /// order) and rebuilds the rows.
    pub fn set_favorites(&mut self, keys: &[String])
        requires
            old(self).wf(),
        ensures
            final(self).wf(),
            final(self)@ == rebuilt(
                AppView { favorites: with_all_unique(seq![], keys.deep_view()), ..old(self)@ },
            ),
    {
        let mut favorites: Vec<String> = Vec::new();
        assert(favorites.deep_view() =~= Seq::<Seq<char>>::empty());
        push_all_paths(&mut favorites, keys);
        proof {
            lemma_with_all_unique_no_duplicates(seq![], keys.deep_view());
        }
        self.favorites = favorites;
        self.rebuild_items();
    }

    /// What the last load noted about each server.
    pub fn diagnostics(&self) -> (res: &Vec<String>)
        ensures
            res.deep_view() == self@.state.diagnostics,
    {
        &self.state.diagnostics
    }

    pub fn show_diagnostics(&self) -> (res: bool)
        ensures
            res == self@.show_diagnostics,
    {
        self.show_diagnostics
    }

    pub fn diagnostics_scroll(&self) -> (res: u16)
        ensures
            res == self@.diagnostics_scroll,
    {
        self.diagnostics_scroll
    }
}

} // verus!
