//! The rows of the session / window / pane tree, with the details and the
//! terminal-style preview shown for each.
use vstd::prelude::*;
use vstd::string::StringExecFns;

use crate::text::{
    bool_string, bool_text, concat2, concat3, concat4, copy_string, decimal, i64_text, int_decimal,
    is_blank, is_blank_str, is_subsequence, lowercase, str_chars, subsequence_chars, to_lowercase,
    trim, trim_string, u16_text, usize_text, words, words_chars,
};
use crate::tmux::{
    server_label, Pane, PaneView, Session, SessionView, TargetView, TmuxTarget, Window, WindowView,
};

verus! {

/// What a tree row stands for.
#[derive(Clone, Copy, Debug, PartialEq, Eq, Structural)]
pub enum TreeItemKind {
    Session,
    Window,
    Pane,
}

/// One row of the tree.
#[derive(Clone, Debug, PartialEq, Eq)]
pub struct TreeItem {
    pub kind: TreeItemKind,
    pub depth: usize,
    pub name: String,
    pub label: String,
    pub subtitle: String,
    pub target: TmuxTarget,
    pub rename_value: String,
    pub details: Vec<(String, String)>,
    pub preview: Option<TerminalPreview>,
    pub active: bool,
    pub dead: bool,
    pub favorite: bool,
}

/// A terminal-style picture of some panes.
#[derive(Clone, Debug, PartialEq, Eq)]
pub struct TerminalPreview {
    pub title: String,
    pub panes: Vec<TerminalPanePreview>,
}

/// One pane of a preview, placed in tmux's cell coordinates.
#[derive(Clone, Debug, PartialEq, Eq)]
pub struct TerminalPanePreview {
    pub title: String,
    pub content: String,
    pub left: u16,
    pub top: u16,
    pub width: u16,
    pub height: u16,
    pub active: bool,
    pub dead: bool,
}

pub struct PanePreviewView {
    pub title: Seq<char>,
    pub content: Seq<char>,
    pub left: u16,
    pub top: u16,
    pub width: u16,
    pub height: u16,
    pub active: bool,
    pub dead: bool,
}

pub struct PreviewView {
    pub title: Seq<char>,
    pub panes: Seq<PanePreviewView>,
}

pub struct ItemView {
    pub kind: TreeItemKind,
    pub depth: nat,
    pub name: Seq<char>,
    pub label: Seq<char>,
    pub subtitle: Seq<char>,
    pub target: TargetView,
    pub rename_value: Seq<char>,
    pub details: Seq<(Seq<char>, Seq<char>)>,
    pub preview: Option<PreviewView>,
    pub active: bool,
    pub dead: bool,
    pub favorite: bool,
}

impl View for TerminalPanePreview {
    type V = PanePreviewView;

    open spec fn view(&self) -> PanePreviewView {
        PanePreviewView {
            title: self.title@,
            content: self.content@,
            left: self.left,
            top: self.top,
            width: self.width,
            height: self.height,
            active: self.active,
            dead: self.dead,
        }
    }
}

impl DeepView for TerminalPanePreview {
    type V = PanePreviewView;

    open spec fn deep_view(&self) -> PanePreviewView {
        self@
    }
}

impl View for TerminalPreview {
    type V = PreviewView;

    open spec fn view(&self) -> PreviewView {
        PreviewView { title: self.title@, panes: self.panes.deep_view() }
    }
}

pub open spec fn preview_view(p: Option<TerminalPreview>) -> Option<PreviewView> {
    match p {
        Some(p) => Some(p@),
        None => None,
    }
}

impl View for TreeItem {
    type V = ItemView;

    open spec fn view(&self) -> ItemView {
        ItemView {
            kind: self.kind,
            depth: self.depth as nat,
            name: self.name@,
            label: self.label@,
            subtitle: self.subtitle@,
            target: self.target@,
            rename_value: self.rename_value@,
            details: self.details.deep_view(),
            preview: preview_view(self.preview),
            active: self.active,
            dead: self.dead,
            favorite: self.favorite,
        }
    }
}

impl DeepView for TreeItem {
    type V = ItemView;

    open spec fn deep_view(&self) -> ItemView {
        self@
    }
}

// ---------------------------------------------------------------------------
// Specifications
// ---------------------------------------------------------------------------

/// A pane's name: its title when not blank (trimmed), else its command when
/// not blank, else its id.
pub open spec fn pane_name_text(p: PaneView) -> Seq<char> {
    if trim(p.title).len() != 0 {
        trim(p.title)
    } else if trim(p.command).len() != 0 {
        p.command
    } else {
        p.id
    }
}

/// A pane in a preview: the whole preview area when `full`, else at its place
/// in the window; a missing or zero size counts as one cell.
pub open spec fn pane_preview_of(p: PaneView, full: bool) -> PanePreviewView {
    PanePreviewView {
        title: p.index + " "@ + pane_name_text(p),
        content: if is_blank(p.content) {
            "(no captured content)"@
        } else {
            p.content
        },
        left: if full {
            0
        } else {
            match p.left {
                Some(v) => v,
                None => 0,
            }
        },
        top: if full {
            0
        } else {
            match p.top {
                Some(v) => v,
                None => 0,
            }
        },
        width: match p.width {
            Some(w) => if w > 0 {
                w
            } else {
                1
            },
            None => 1,
        },
        height: match p.height {
            Some(h) => if h > 0 {
                h
            } else {
                1
            },
            None => 1,
        },
        active: p.active,
        dead: p.dead,
    }
}

/// A window's panes in a preview with a title.
pub open spec fn window_preview_of(title: Seq<char>, w: WindowView, full: bool) -> PreviewView {
    PreviewView { title, panes: w.panes.map_values(|p: PaneView| pane_preview_of(p, full)) }
}

/// The first active window, if any.
pub open spec fn first_active(windows: Seq<WindowView>) -> Option<WindowView>
    decreases windows.len(),
{
    if windows.len() == 0 {
        None
    } else if windows[0].active {
        Some(windows[0])
    } else {
        first_active(windows.drop_first())
    }
}

/// The window a session is previewed by: its first active window, else its
/// first window.
pub open spec fn shown_window(windows: Seq<WindowView>) -> Option<WindowView> {
    match first_active(windows) {
        Some(w) => Some(w),
        None => if windows.len() > 0 {
            Some(windows[0])
        } else {
            None
        },
    }
}

pub open spec fn count_or(c: Option<usize>, n: nat) -> nat {
    match c {
        Some(v) => v as nat,
        None => n,
    }
}

pub open spec fn window_title(w: WindowView) -> Seq<char> {
    w.index + ":"@ + w.name
}

/// The row of a session.
pub open spec fn session_item_of(s: SessionView) -> ItemView {
    let aw = shown_window(s.windows);
    let windows = decimal(count_or(s.window_count, s.windows.len()));
    ItemView {
        kind: TreeItemKind::Session,
        depth: 0,
        name: s.name,
        label: "[S] "@ + s.name,
        subtitle: windows + " windows"@ + if s.attached {
            ", attached"@
        } else {
            ""@
        },
        target: TargetView { server: s.server, session_id: s.id, window_id: None, pane_id: None },
        rename_value: s.name,
        details: seq![
            ("Type"@, "Session"@),
            ("ID"@, s.id),
            ("Server"@, server_label(s.server)),
            ("Name"@, s.name),
            ("Attached"@, bool_text(s.attached)),
            ("Windows"@, windows),
            (
                "Created"@,
                match s.created {
                    Some(c) => int_decimal(c as int),
                    None => "unknown"@,
                },
            ),
            (
                "Preview window"@,
                match aw {
                    Some(w) => window_title(w),
                    None => "none"@,
                },
            ),
        ],
        preview: match aw {
            Some(w) => Some(
                window_preview_of(
                    "Session "@ + s.name + " - window "@ + window_title(w),
                    w,
                    false,
                ),
            ),
            None => None,
        },
        active: s.attached,
        dead: false,
        favorite: false,
    }
}

/// Pane names joined with `, `.
pub open spec fn joined_names(ps: Seq<PaneView>) -> Seq<char>
    decreases ps.len(),
{
    if ps.len() == 0 {
        seq![]
    } else if ps.len() == 1 {
        pane_name_text(ps[0])
    } else {
        joined_names(ps.drop_last()) + ", "@ + pane_name_text(ps.last())
    }
}

/// The row of a window.
pub open spec fn window_item_of(s: SessionView, w: WindowView) -> ItemView {
    let names = joined_names(w.panes);
    let panes = decimal(count_or(w.pane_count, w.panes.len()));
    ItemView {
        kind: TreeItemKind::Window,
        depth: 1,
        name: w.name,
        label: "[W] "@ + window_title(w),
        subtitle: panes + " panes "@ + w.flags,
        target: TargetView {
            server: s.server,
            session_id: s.id,
            window_id: Some(w.id),
            pane_id: None,
        },
        rename_value: w.name,
        details: seq![
            ("Type"@, "Window"@),
            ("ID"@, w.id),
            ("Server"@, server_label(s.server)),
            ("Session"@, s.name),
            ("Index"@, w.index),
            ("Name"@, w.name),
            ("Active"@, bool_text(w.active)),
            ("Flags"@, w.flags),
            ("Panes"@, panes),
            (
                "Pane names"@,
                if names.len() == 0 {
                    "none"@
                } else {
                    names
                },
            ),
            ("Layout"@, w.layout),
        ],
        preview: Some(window_preview_of("Window "@ + window_title(w), w, false)),
        active: w.active,
        dead: false,
        favorite: false,
    }
}

pub open spec fn opt_u16_text(o: Option<u16>) -> Seq<char> {
    match o {
        Some(v) => decimal(v as nat),
        None => "?"@,
    }
}

/// The row of a pane.
pub open spec fn pane_item_of(s: SessionView, w: WindowView, p: PaneView) -> ItemView {
    let name = pane_name_text(p);
    let size = match (p.width, p.height) {
        (Some(a), Some(b)) => decimal(a as nat) + "x"@ + decimal(b as nat),
        _ => "unknown"@,
    };
    ItemView {
        kind: TreeItemKind::Pane,
        depth: 2,
        name,
        label: "[P] "@ + p.index + ": "@ + name,
        subtitle: if p.command.len() == 0 {
            p.path
        } else {
            p.command + " - "@ + p.path
        },
        target: TargetView {
            server: s.server,
            session_id: s.id,
            window_id: Some(w.id),
            pane_id: Some(p.id),
        },
        rename_value: if p.title.len() == 0 {
            name
        } else {
            p.title
        },
        details: seq![
            ("Type"@, "Pane"@),
            ("ID"@, p.id),
            ("Server"@, server_label(s.server)),
            ("Session"@, s.name),
            ("Window"@, window_title(w)),
            ("Name"@, name),
            ("Index"@, p.index),
            ("Active"@, bool_text(p.active)),
            ("Command"@, p.command),
            ("Title"@, p.title),
            ("Path"@, p.path),
            ("Position"@, opt_u16_text(p.left) + ","@ + opt_u16_text(p.top)),
            ("PID"@, p.pid),
            ("Size"@, size),
            ("Dead"@, bool_text(p.dead)),
            ("Copy mode"@, bool_text(p.in_mode)),
        ],
        preview: Some(
            PreviewView {
                title: "Pane "@ + p.index + " - "@ + name,
                panes: seq![pane_preview_of(p, true)],
            },
        ),
        active: p.active,
        dead: p.dead,
        favorite: false,
    }
}

/// The texts a row is searched in, lowercased: its label, name, subtitle and
/// detail values (among them its ids, command, path, title and server).
pub open spec fn item_fields(item: ItemView) -> Seq<Seq<char>> {
    seq![lowercase(item.label), lowercase(item.name), lowercase(item.subtitle)]
        + item.details.map_values(|d: (Seq<char>, Seq<char>)| lowercase(d.1))
}

/// A search word matches a row when its characters occur, in order, in one
/// of the row's texts.
pub open spec fn word_matches(fields: Seq<Seq<char>>, word: Seq<char>) -> bool {
    exists|i: int| 0 <= i < fields.len() && is_subsequence(#[trigger] fields[i], word)
}

/// A row matches a search when every (lowercase) word of it matches.
pub open spec fn item_matches(item: ItemView, words: Seq<Seq<char>>) -> bool {
    forall|j: int| 0 <= j < words.len() ==> word_matches(item_fields(item), #[trigger] words[j])
}

/// The words a filter is searched by: those of its lowercased text.
pub open spec fn filter_words(filter: Seq<char>) -> Seq<Seq<char>> {
    words(lowercase(trim(filter)))
}

// ---------------------------------------------------------------------------
// Building rows
// ---------------------------------------------------------------------------

/// The name a pane is shown by.
pub fn pane_name(pane: &Pane) -> (res: String)
    ensures
        res@ == pane_name_text(pane@),
{
    let title = trim_string(pane.title.as_str());
    let tv = str_chars(title.as_str());
    if tv.len() != 0 {
        title
    } else {
        let command = trim_string(pane.command.as_str());
        let cv = str_chars(command.as_str());
        if cv.len() != 0 {
            copy_string(&pane.command)
        } else {
            copy_string(&pane.id)
        }
    }
}

/// A pane as it appears in a preview.
pub fn pane_preview(pane: &Pane, full: bool) -> (res: TerminalPanePreview)
    ensures
        res@ == pane_preview_of(pane@, full),
{
    let name = pane_name(pane);
    let title = concat3(pane.index.as_str(), " ", name.as_str());
    let content = if is_blank_str(pane.content.as_str()) {
        "(no captured content)".to_string()
    } else {
        copy_string(&pane.content)
    };
    let left = if full {
        0
    } else {
        match pane.left {
            Some(v) => v,
            None => 0,
        }
    };
    let top = if full {
        0
    } else {
        match pane.top {
            Some(v) => v,
            None => 0,
        }
    };
    let width = match pane.width {
        Some(w) => if w > 0 {
            w
        } else {
            1
        },
        None => 1,
    };
    let height = match pane.height {
        Some(h) => if h > 0 {
            h
        } else {
            1
        },
        None => 1,
    };
    TerminalPanePreview {
        title,
        content,
        left,
        top,
        width,
        height,
        active: pane.active,
        dead: pane.dead,
    }
}

/// A window's panes as a preview with the given title.
pub fn window_preview(title: String, window: &Window, full_panes: bool) -> (res: TerminalPreview)
    ensures
        res@ == window_preview_of(title@, window@, full_panes),
{
    let ghost pv = window@.panes;
    let mut panes: Vec<TerminalPanePreview> = Vec::new();
    let mut i: usize = 0;
    while i < window.panes.len()
        invariant
            i <= window.panes.len(),
            pv == window@.panes,
            panes.deep_view() == pv.take(i as int).map_values(
                |p: PaneView| pane_preview_of(p, full_panes),
            ),
        decreases window.panes.len() - i,
    {
        let p = pane_preview(&window.panes[i], full_panes);
        let ghost before = panes.deep_view();
        panes.push(p);
        assert(pv[i as int] == window.panes[i as int]@);
        assert(panes.deep_view() =~= before.push(p@));
        assert(pv.take(i + 1) =~= pv.take(i as int).push(pv[i as int]));
        assert(panes.deep_view() =~= pv.take(i + 1).map_values(
            |p: PaneView| pane_preview_of(p, full_panes),
        ));
        i += 1;
    }
    assert(pv.take(window.panes.len() as int) == pv);
    let res = TerminalPreview { title, panes };
    assert(res@.panes =~= window_preview_of(title@, window@, full_panes).panes);
    res
}

fn push_detail(details: &mut Vec<(String, String)>, key: &str, value: String)
    ensures
        final(details).deep_view() == old(details).deep_view().push((key@, value@)),
{
    let ghost before = details.deep_view();
    details.push((key.to_string(), value));
    assert(details.deep_view() =~= before.push((key@, value@)));
}

/// The window that previews a session.
fn shown_window_index(windows: &Vec<Window>) -> (res: Option<usize>)
    ensures
        match res {
            Some(i) => i < windows.len() && shown_window(windows.deep_view()) == Some(
                windows[i as int]@,
            ),
            None => shown_window(windows.deep_view()) is None,
        },
{
    let ghost wv = windows.deep_view();
    let mut i: usize = 0;
    assert(wv.skip(0) == wv);
    while i < windows.len()
        invariant
            i <= windows.len(),
            wv == windows.deep_view(),
            first_active(wv) == first_active(wv.skip(i as int)),
        decreases windows.len() - i,
    {
        assert(wv.skip(i as int)[0] == windows[i as int]@);
        if windows[i].active {
            return Some(i);
        }
        assert(wv.skip(i as int).drop_first() == wv.skip(i + 1));
        i += 1;
    }
    assert(wv.skip(i as int).len() == 0);
    if windows.len() > 0 {
        assert(wv[0] == windows[0]@);
        Some(0)
    } else {
        None
    }
}

/// A session's count of windows: what tmux reported, else how many were
/// listed.
fn count_text(c: Option<usize>, n: usize) -> (res: String)
    ensures
        res@ == decimal(count_or(c, n as nat)),
{
    match c {
        Some(v) => usize_text(v),
        None => usize_text(n),
    }
}

fn window_title_string(w: &Window) -> (res: String)
    ensures
        res@ == window_title(w@),
{
    concat3(w.index.as_str(), ":", w.name.as_str())
}

/// The row of a session.
pub fn session_item(session: &Session) -> (res: TreeItem)
    ensures
        res@ == session_item_of(session@),
{
    let aw = shown_window_index(&session.windows);
    let windows = count_text(session.window_count, session.windows.len());
    let mut subtitle = concat2(windows.as_str(), " windows");
    if session.attached {
        subtitle.append(", attached");
    } else {
        subtitle.append("");
    }
    let mut details: Vec<(String, String)> = Vec::new();
    assert(details.deep_view() =~= Seq::<(Seq<char>, Seq<char>)>::empty());
    push_detail(&mut details, "Type", "Session".to_string());
    push_detail(&mut details, "ID", copy_string(&session.id));
    push_detail(&mut details, "Server", session.server.label());
    push_detail(&mut details, "Name", copy_string(&session.name));
    push_detail(&mut details, "Attached", bool_string(session.attached));
    push_detail(&mut details, "Windows", copy_string(&windows));
    let created = match session.created {
        Some(c) => i64_text(c),
        None => "unknown".to_string(),
    };
    push_detail(&mut details, "Created", created);
    let shown = match aw {
        Some(i) => window_title_string(&session.windows[i]),
        None => "none".to_string(),
    };
    push_detail(&mut details, "Preview window", shown);
    let preview = match aw {
        Some(i) => {
            let w = &session.windows[i];
            let wt = window_title_string(w);
            let title = concat4("Session ", session.name.as_str(), " - window ", wt.as_str());
            Some(window_preview(title, w, false))
        },
        None => None,
    };
    let target = TmuxTarget::session_on(copy_string(&session.id), session.server.duplicate());
    let res = TreeItem {
        kind: TreeItemKind::Session,
        depth: 0,
        name: copy_string(&session.name),
        label: concat2("[S] ", session.name.as_str()),
        subtitle,
        target,
        rename_value: copy_string(&session.name),
        details,
        preview,
        active: session.attached,
        dead: false,
        favorite: false,
    };
    assert(res@.details =~= session_item_of(session@).details);
    res
}

/// Pane names joined with `, `.
fn pane_names(panes: &Vec<Pane>) -> (res: String)
    ensures
        res@ == joined_names(panes.deep_view()),
{
    let ghost pv = panes.deep_view();
    let mut out = String::new();
    let mut i: usize = 0;
    while i < panes.len()
        invariant
            i <= panes.len(),
            pv == panes.deep_view(),
            out@ == joined_names(pv.take(i as int)),
        decreases panes.len() - i,
    {
        let n = pane_name(&panes[i]);
        proof {
            assert(pv[i as int] == panes[i as int]@);
            assert(pv.take(i + 1).drop_last() == pv.take(i as int));
            assert(pv.take(i + 1).last() == pv[i as int]);
        }
        if i > 0 {
            out.append(", ");
        } else {
            assert(pv.take(0) =~= Seq::<PaneView>::empty());
            assert(out@ =~= Seq::<char>::empty());
        }
        out.append(n.as_str());
        i += 1;
    }
    assert(pv.take(panes.len() as int) == pv);
    out
}

/// The row of a window of a session.
pub fn window_item(session: &Session, window: &Window) -> (res: TreeItem)
    ensures
        res@ == window_item_of(session@, window@),
{
    let names = pane_names(&window.panes);
    let panes = count_text(window.pane_count, window.panes.len());
    let wt = window_title_string(window);
    let mut details: Vec<(String, String)> = Vec::new();
    assert(details.deep_view() =~= Seq::<(Seq<char>, Seq<char>)>::empty());
    push_detail(&mut details, "Type", "Window".to_string());
    push_detail(&mut details, "ID", copy_string(&window.id));
    push_detail(&mut details, "Server", session.server.label());
    push_detail(&mut details, "Session", copy_string(&session.name));
    push_detail(&mut details, "Index", copy_string(&window.index));
    push_detail(&mut details, "Name", copy_string(&window.name));
    push_detail(&mut details, "Active", bool_string(window.active));
    push_detail(&mut details, "Flags", copy_string(&window.flags));
    push_detail(&mut details, "Panes", copy_string(&panes));
    let nv = str_chars(names.as_str());
    let shown_names = if nv.len() == 0 {
        "none".to_string()
    } else {
        names
    };
    push_detail(&mut details, "Pane names", shown_names);
    push_detail(&mut details, "Layout", copy_string(&window.layout));
    let target = TmuxTarget::window_on(
        copy_string(&session.id),
        copy_string(&window.id),
        session.server.duplicate(),
    );
    let res = TreeItem {
        kind: TreeItemKind::Window,
        depth: 1,
        name: copy_string(&window.name),
        label: concat2("[W] ", wt.as_str()),
        subtitle: concat3(panes.as_str(), " panes ", window.flags.as_str()),
        target,
        rename_value: copy_string(&window.name),
        details,
        preview: Some(window_preview(concat2("Window ", wt.as_str()), window, false)),
        active: window.active,
        dead: false,
        favorite: false,
    };
    assert(res@.details =~= window_item_of(session@, window@).details);
    res
}

fn opt_u16_string(o: Option<u16>) -> (res: String)
    ensures
        res@ == opt_u16_text(o),
{
    match o {
        Some(v) => u16_text(v),
        None => "?".to_string(),
    }
}

/// The row of a pane of a window of a session.
pub fn pane_item(session: &Session, window: &Window, pane: &Pane) -> (res: TreeItem)
    ensures
        res@ == pane_item_of(session@, window@, pane@),
{
    let size = match (pane.width, pane.height) {
        (Some(w), Some(h)) => {
            let ws = u16_text(w);
            let hs = u16_text(h);
            concat3(ws.as_str(), "x", hs.as_str())
        },
        _ => "unknown".to_string(),
    };
    let name = pane_name(pane);
    let cv = str_chars(pane.command.as_str());
    let subtitle = if cv.len() == 0 {
        copy_string(&pane.path)
    } else {
        concat3(pane.command.as_str(), " - ", pane.path.as_str())
    };
    let tv = str_chars(pane.title.as_str());
    let rename_value = if tv.len() == 0 {
        copy_string(&name)
    } else {
        copy_string(&pane.title)
    };
    let wt = window_title_string(window);
    let left = opt_u16_string(pane.left);
    let top = opt_u16_string(pane.top);
    let mut details: Vec<(String, String)> = Vec::new();
    assert(details.deep_view() =~= Seq::<(Seq<char>, Seq<char>)>::empty());
    push_detail(&mut details, "Type", "Pane".to_string());
    push_detail(&mut details, "ID", copy_string(&pane.id));
    push_detail(&mut details, "Server", session.server.label());
    push_detail(&mut details, "Session", copy_string(&session.name));
    push_detail(&mut details, "Window", wt);
    push_detail(&mut details, "Name", copy_string(&name));
    push_detail(&mut details, "Index", copy_string(&pane.index));
    push_detail(&mut details, "Active", bool_string(pane.active));
    push_detail(&mut details, "Command", copy_string(&pane.command));
    push_detail(&mut details, "Title", copy_string(&pane.title));
    push_detail(&mut details, "Path", copy_string(&pane.path));
    push_detail(&mut details, "Position", concat3(left.as_str(), ",", top.as_str()));
    push_detail(&mut details, "PID", copy_string(&pane.pid));
    push_detail(&mut details, "Size", size);
    push_detail(&mut details, "Dead", bool_string(pane.dead));
    push_detail(&mut details, "Copy mode", bool_string(pane.in_mode));
    let mut panes: Vec<TerminalPanePreview> = Vec::new();
    let pp = pane_preview(pane, true);
    panes.push(pp);
    let preview = TerminalPreview {
        title: concat4("Pane ", pane.index.as_str(), " - ", name.as_str()),
        panes,
    };
    assert(preview@.panes =~= seq![pane_preview_of(pane@, true)]);
    let target = TmuxTarget::pane_on(
        copy_string(&session.id),
        copy_string(&window.id),
        copy_string(&pane.id),
        session.server.duplicate(),
    );
    let res = TreeItem {
        kind: TreeItemKind::Pane,
        depth: 2,
        name: copy_string(&name),
        label: concat4("[P] ", pane.index.as_str(), ": ", name.as_str()),
        subtitle,
        target,
        rename_value,
        details,
        preview: Some(preview),
        active: pane.active,
        dead: pane.dead,
        favorite: false,
    };
    assert(res@.details =~= pane_item_of(session@, window@, pane@).details);
    res
}

/// The lowercased characters of a text.
fn lower_chars(text: &String) -> (res: Vec<char>)
    ensures
        res@ == lowercase(text@),
{
    let l = to_lowercase(text.as_str());
    str_chars(l.as_str())
}

/// The texts a row is searched in.
pub fn search_fields(item: &TreeItem) -> (res: Vec<Vec<char>>)
    ensures
        res.deep_view() == item_fields(item@),
{
    let a = lower_chars(&item.label);
    let b = lower_chars(&item.name);
    let c = lower_chars(&item.subtitle);
    assert(a.deep_view() =~= a@);
    assert(b.deep_view() =~= b@);
    assert(c.deep_view() =~= c@);
    let mut res: Vec<Vec<char>> = Vec::new();
    res.push(a);
    res.push(b);
    res.push(c);
    let ghost head = res.deep_view();
    let ghost dv = item.details.deep_view();
    let ghost f = |d: (Seq<char>, Seq<char>)| lowercase(d.1);
    assert(head =~= seq![lowercase(item@.label), lowercase(item@.name), lowercase(item@.subtitle)]);
    let mut i: usize = 0;
    while i < item.details.len()
        invariant
            i <= item.details.len(),
            dv == item.details.deep_view(),
            f == (|d: (Seq<char>, Seq<char>)| lowercase(d.1)),
            res.deep_view() == head + dv.take(i as int).map_values(f),
        decreases item.details.len() - i,
    {
        let ghost before = res.deep_view();
        let c = lower_chars(&item.details[i].1);
        assert(c.deep_view() =~= c@);
        res.push(c);
        assert(dv[i as int].1 == item.details[i as int].1@);
        assert(dv.take(i + 1).map_values(f) =~= dv.take(i as int).map_values(f).push(f(dv[i as int])));
        assert(res.deep_view() =~= before.push(c@));
        i += 1;
    }
    assert(dv.take(item.details.len() as int) == dv);
    res
}

/// Whether a word occurs, in order, in one of the texts.
fn word_in(fields: &Vec<Vec<char>>, word: &Vec<char>) -> (res: bool)
    ensures
        res == word_matches(fields.deep_view(), word@),
{
    let ghost fv = fields.deep_view();
    let mut i: usize = 0;
    while i < fields.len()
        invariant
            i <= fields.len(),
            fv == fields.deep_view(),
            forall|k: int| 0 <= k < i ==> !is_subsequence(#[trigger] fv[k], word@),
        decreases fields.len() - i,
    {
        assert(fv[i as int] == fields[i as int]@);
        if subsequence_chars(fields[i].as_slice(), word.as_slice()) {
            return true;
        }
        i += 1;
    }
    false
}

/// The words of a filter, lowercased.
pub fn filter_words_of(filter: &str) -> (res: Vec<Vec<char>>)
    ensures
        res.deep_view() == filter_words(filter@),
{
    let trimmed = trim_string(filter);
    let lower = to_lowercase(trimmed.as_str());
    let v = str_chars(lower.as_str());
    words_chars(v.as_slice())
}

/// Whether a row matches every word of a search.
pub fn matches_filter(item: &TreeItem, words: &Vec<Vec<char>>) -> (res: bool)
    ensures
        res == item_matches(item@, words.deep_view()),
{
    let fields = search_fields(item);
    let ghost wv = words.deep_view();
    let mut j: usize = 0;
    while j < words.len()
        invariant
            j <= words.len(),
            wv == words.deep_view(),
            fields.deep_view() == item_fields(item@),
            forall|k: int| 0 <= k < j ==> word_matches(item_fields(item@), #[trigger] wv[k]),
        decreases words.len() - j,
    {
        assert(wv[j as int] == words[j as int]@);
        if !word_in(&fields, &words[j]) {
            return false;
        }
        j += 1;
    }
    true
}

} // verus!
