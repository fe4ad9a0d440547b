//! Reading the output of `tmux list-panes -a -F ...` into sessions, windows
//! and panes, and the order in which they are shown.
use vstd::prelude::*;
use vstd::string::StringExecFns;

use crate::text::{
    push_char, chars_are, chars_string, is_blank, lemma_chars_deep_view, lines, lines_chars,
    parse_i64, parse_i64_chars, parse_u16, parse_unsigned, parse_usize, split, split_chars,
    str_chars, blank_chars,
};
use crate::tmux::{
    Pane, PaneView, ServerView, Session, SessionView, TmuxServer, TmuxState, Window, WindowView,
};

verus! {

broadcast use lemma_chars_deep_view;

/// The separator tmux is first asked to put between fields (unit separator).
pub const PRIMARY_SEP: char = '\u{1f}';

/// The separator tried when the first one gives nothing readable.
pub const FALLBACK_SEP: char = '\t';

/// Fewest fields a line needs to describe a pane.
pub const REQUIRED_FIELD_COUNT: usize = 23;

/// The fields asked of tmux, in the order they come on each line.
pub open spec fn tmux_fields() -> Seq<Seq<char>> {
    seq![
        "session_id"@,
        "session_name"@,
        "session_attached"@,
        "session_created"@,
        "session_windows"@,
        "window_id"@,
        "window_index"@,
        "window_name"@,
        "window_active"@,
        "window_panes"@,
        "window_layout"@,
        "window_flags"@,
        "pane_id"@,
        "pane_index"@,
        "pane_active"@,
        "pane_current_command"@,
        "pane_current_path"@,
        "pane_title"@,
        "pane_left"@,
        "pane_top"@,
        "pane_width"@,
        "pane_height"@,
        "pane_pid"@,
        "pane_dead"@,
        "pane_in_mode"@,
    ]
}

// ---------------------------------------------------------------------------
// Field values
// ---------------------------------------------------------------------------

/// tmux flags read as true: `1`, `true`, `yes`, `on`.
pub open spec fn flag_value(s: Seq<char>) -> bool {
    s == "1"@ || s == "true"@ || s == "yes"@ || s == "on"@
}

pub open spec fn opt_i64(s: Seq<char>) -> Option<i64> {
    match parse_i64(s) {
        Some(v) => Some(v as i64),
        None => None,
    }
}

pub open spec fn opt_usize(s: Seq<char>) -> Option<usize> {
    match parse_unsigned(s, usize::MAX as nat) {
        Some(v) => Some(v as usize),
        None => None,
    }
}

pub open spec fn opt_u16(s: Seq<char>) -> Option<u16> {
    match parse_unsigned(s, 0xffff) {
        Some(v) => Some(v as u16),
        None => None,
    }
}

/// Reads a tmux flag.
pub fn parse_bool(value: &[char]) -> (res: bool)
    ensures
        res == flag_value(value@),
{
    chars_are(value, "1") || chars_are(value, "true") || chars_are(value, "yes") || chars_are(
        value,
        "on",
    )
}

// ---------------------------------------------------------------------------
// Grouping lines into sessions, windows and panes
// ---------------------------------------------------------------------------

/// The first position of `x` in `s`, or `s.len()`.
pub open spec fn first_index<A>(s: Seq<A>, x: A) -> int
    decreases s.len(),
{
    if s.len() == 0 {
        0
    } else if s[0] == x {
        0
    } else {
        1 + first_index(s.drop_first(), x)
    }
}

pub proof fn lemma_first_index<A>(s: Seq<A>, x: A, k: int)
    requires
        0 <= k <= s.len(),
        forall|j: int| 0 <= j < k ==> s[j] != x,
        k == s.len() || s[k] == x,
    ensures
        first_index(s, x) == k,
    decreases s.len(),
{
    if s.len() > 0 && k > 0 {
        assert forall|j: int| 0 <= j < k - 1 implies s.drop_first()[j] != x by {
            assert(s.drop_first()[j] == s[j + 1]);
        }
        lemma_first_index(s.drop_first(), x, k - 1);
    }
}

pub open spec fn session_ids(ss: Seq<SessionView>) -> Seq<Seq<char>> {
    ss.map_values(|s: SessionView| s.id)
}

pub open spec fn window_ids(ws: Seq<WindowView>) -> Seq<Seq<char>> {
    ws.map_values(|w: WindowView| w.id)
}

pub open spec fn pane_ids(ps: Seq<PaneView>) -> Seq<Seq<char>> {
    ps.map_values(|p: PaneView| p.id)
}

/// The session a line starts.
pub open spec fn new_session(server: ServerView, f: Seq<Seq<char>>) -> SessionView {
    SessionView {
        server,
        id: f[0],
        name: f[1],
        attached: flag_value(f[2]),
        created: opt_i64(f[3]),
        window_count: opt_usize(f[4]),
        windows: seq![],
    }
}

/// The window a line starts.
pub open spec fn new_window(f: Seq<Seq<char>>) -> WindowView {
    WindowView {
        id: f[5],
        index: f[6],
        name: f[7],
        active: flag_value(f[8]),
        pane_count: opt_usize(f[9]),
        layout: f[10],
        flags: f[11],
        panes: seq![],
    }
}

/// The pane a line describes; the last two fields are optional.
pub open spec fn new_pane(f: Seq<Seq<char>>) -> PaneView {
    PaneView {
        id: f[12],
        index: f[13],
        active: flag_value(f[14]),
        command: f[15],
        path: f[16],
        title: f[17],
        left: opt_u16(f[18]),
        top: opt_u16(f[19]),
        width: opt_u16(f[20]),
        height: opt_u16(f[21]),
        pid: f[22],
        dead: f.len() > 23 && flag_value(f[23]),
        in_mode: f.len() > 24 && flag_value(f[24]),
        content: seq![],
    }
}

/// A line's pane added to a window, unless the window has a pane of that id.
pub open spec fn add_pane_row(w: WindowView, f: Seq<Seq<char>>) -> WindowView {
    if pane_ids(w.panes).contains(f[12]) {
        w
    } else {
        WindowView { panes: w.panes.push(new_pane(f)), ..w }
    }
}

/// A line added to a session: to its window of that id, or to a new window.
pub open spec fn add_window_row(s: SessionView, f: Seq<Seq<char>>) -> SessionView {
    let j = first_index(window_ids(s.windows), f[5]);
    let ws = if j < s.windows.len() {
        s.windows
    } else {
        s.windows.push(new_window(f))
    };
    SessionView { windows: ws.update(j, add_pane_row(ws[j], f)), ..s }
}

/// A line added to the sessions: to the session of that id, or to a new one.
pub open spec fn add_row(ss: Seq<SessionView>, server: ServerView, f: Seq<Seq<char>>) -> Seq<
    SessionView,
> {
    let i = first_index(session_ids(ss), f[0]);
    let ss2 = if i < ss.len() {
        ss
    } else {
        ss.push(new_session(server, f))
    };
    ss2.update(i, add_window_row(ss2[i], f))
}

/// A line that describes a pane: not blank, with enough fields.
pub open spec fn is_row(line: Seq<char>, sep: char) -> bool {
    !is_blank(line) && split(line, sep).len() >= 23
}

/// Sessions in the order their ids first appear in the lines.
pub open spec fn group_rows(ls: Seq<Seq<char>>, server: ServerView, sep: char) -> Seq<SessionView>
    decreases ls.len(),
{
    if ls.len() == 0 {
        seq![]
    } else {
        let g = group_rows(ls.drop_last(), server, sep);
        if is_row(ls.last(), sep) {
            add_row(g, server, split(ls.last(), sep))
        } else {
            g
        }
    }
}

// ---------------------------------------------------------------------------
// Order
// ---------------------------------------------------------------------------

/// `a` comes strictly before `b` in `str`'s order (by character codes).
pub open spec fn text_before(a: Seq<char>, b: Seq<char>) -> bool
    decreases a.len(),
{
    if a.len() == 0 {
        b.len() > 0
    } else if b.len() == 0 {
        false
    } else if a[0] != b[0] {
        (a[0] as u32) < (b[0] as u32)
    } else {
        text_before(a.drop_first(), b.drop_first())
    }
}

/// Sessions are ordered by name, then by id.
pub open spec fn session_le(a: SessionView, b: SessionView) -> bool {
    text_before(a.name, b.name) || (a.name == b.name && !text_before(b.id, a.id))
}

/// The number an index sorts by: its value, or `usize::MAX` when it is not a
/// number.
pub open spec fn index_key(s: Seq<char>) -> nat {
    match parse_unsigned(s, usize::MAX as nat) {
        Some(v) => v,
        None => usize::MAX as nat,
    }
}

pub open spec fn window_le(a: WindowView, b: WindowView) -> bool {
    index_key(a.index) <= index_key(b.index)
}

pub open spec fn pane_le(a: PaneView, b: PaneView) -> bool {
    index_key(a.index) <= index_key(b.index)
}

/// `x` put after every element of `s` that may precede it.
pub open spec fn insert_sorted<A>(s: Seq<A>, x: A, le: spec_fn(A, A) -> bool) -> Seq<A>
    decreases s.len(),
{
    if s.len() == 0 {
        seq![x]
    } else if le(s.last(), x) {
        s.push(x)
    } else {
        insert_sorted(s.drop_last(), x, le).push(s.last())
    }
}

/// A stable sort: equal elements keep their order.
pub open spec fn sort_by<A>(s: Seq<A>, le: spec_fn(A, A) -> bool) -> Seq<A>
    decreases s.len(),
{
    if s.len() == 0 {
        seq![]
    } else {
        insert_sorted(sort_by(s.drop_last(), le), s.last(), le)
    }
}

pub open spec fn session_order() -> spec_fn(SessionView, SessionView) -> bool {
    |a: SessionView, b: SessionView| session_le(a, b)
}

pub open spec fn window_order() -> spec_fn(WindowView, WindowView) -> bool {
    |a: WindowView, b: WindowView| window_le(a, b)
}

pub open spec fn pane_order() -> spec_fn(PaneView, PaneView) -> bool {
    |a: PaneView, b: PaneView| pane_le(a, b)
}

pub open spec fn sort_window_panes(w: WindowView) -> WindowView {
    WindowView { panes: sort_by(w.panes, pane_order()), ..w }
}

/// Windows by index, each with its panes by index.
pub open spec fn windows_in_order(ws: Seq<WindowView>) -> Seq<WindowView> {
    sort_by(ws, window_order()).map_values(|w: WindowView| sort_window_panes(w))
}

pub open spec fn sort_session_windows(s: SessionView) -> SessionView {
    SessionView { windows: windows_in_order(s.windows), ..s }
}

/// Sessions by name and id; in each, windows by index; in each window, panes
/// by index.
pub open spec fn sorted_sessions(ss: Seq<SessionView>) -> Seq<SessionView> {
    sort_by(ss, session_order()).map_values(|s: SessionView| sort_session_windows(s))
}

/// The sessions that a `list-panes` output describes.
pub open spec fn parsed_sessions(output: Seq<char>, server: ServerView, sep: char) -> Seq<
    SessionView,
> {
    sorted_sessions(group_rows(lines(output), server, sep))
}

/// Inserting at the position after the last element that may precede `x`.
pub proof fn lemma_insert_at<A>(s: Seq<A>, x: A, le: spec_fn(A, A) -> bool, p: int)
    requires
        0 <= p <= s.len(),
        forall|j: int| p <= j < s.len() ==> !le(#[trigger] s[j], x),
        p == 0 || le(s[p - 1], x),
    ensures
        insert_sorted(s, x, le) == s.insert(p, x),
    decreases s.len(),
{
    if s.len() > p {
        assert forall|j: int| p <= j < s.drop_last().len() implies !le(
            #[trigger] s.drop_last()[j],
            x,
        ) by {
            assert(s.drop_last()[j] == s[j]);
        }
        if p > 0 {
            assert(s.drop_last()[p - 1] == s[p - 1]);
        }
        lemma_insert_at(s.drop_last(), x, le, p);
        assert(s.drop_last().insert(p, x).push(s.last()) =~= s.insert(p, x));
    } else {
        if s.len() > 0 {
            assert(s.last() == s[p - 1]);
        }
        assert(s.push(x) =~= s.insert(p, x));
    }
}

// ---------------------------------------------------------------------------
// Executable reading
// ---------------------------------------------------------------------------

fn field_string(f: &Vec<Vec<char>>, i: usize) -> (res: String)
    requires
        i < f.len(),
    ensures
        res@ == f.deep_view()[i as int],
{
    chars_string(f[i].as_slice())
}

fn field_usize(f: &Vec<Vec<char>>, i: usize) -> (res: Option<usize>)
    requires
        i < f.len(),
    ensures
        res == opt_usize(f.deep_view()[i as int]),
{
    match parse_usize(f[i].as_slice()) {
        Some(v) => Some(v),
        None => None,
    }
}

fn field_u16(f: &Vec<Vec<char>>, i: usize) -> (res: Option<u16>)
    requires
        i < f.len(),
    ensures
        res == opt_u16(f.deep_view()[i as int]),
{
    match parse_u16(f[i].as_slice()) {
        Some(v) => Some(v),
        None => None,
    }
}

fn field_flag(f: &Vec<Vec<char>>, i: usize) -> (res: bool)
    requires
        i < f.len(),
    ensures
        res == flag_value(f.deep_view()[i as int]),
{
    parse_bool(f[i].as_slice())
}

fn make_session(server: &TmuxServer, f: &Vec<Vec<char>>) -> (res: Session)
    requires
        f.len() >= 23,
    ensures
        res@ == new_session(server@, f.deep_view()),
{
    let created = match parse_i64_chars(f[3].as_slice()) {
        Some(v) => Some(v),
        None => None,
    };
    let res = Session {
        server: server.duplicate(),
        id: field_string(f, 0),
        name: field_string(f, 1),
        attached: field_flag(f, 2),
        created,
        window_count: field_usize(f, 4),
        windows: Vec::new(),
    };
    assert(res.windows.deep_view() =~= Seq::<WindowView>::empty());
    res
}

fn make_window(f: &Vec<Vec<char>>) -> (res: Window)
    requires
        f.len() >= 23,
    ensures
        res@ == new_window(f.deep_view()),
{
    let res = Window {
        id: field_string(f, 5),
        index: field_string(f, 6),
        name: field_string(f, 7),
        active: field_flag(f, 8),
        pane_count: field_usize(f, 9),
        layout: field_string(f, 10),
        flags: field_string(f, 11),
        panes: Vec::new(),
    };
    assert(res.panes.deep_view() =~= Seq::<PaneView>::empty());
    res
}

fn make_pane(f: &Vec<Vec<char>>) -> (res: Pane)
    requires
        f.len() >= 23,
    ensures
        res@ == new_pane(f.deep_view()),
{
    let dead = if f.len() > 23 {
        field_flag(f, 23)
    } else {
        false
    };
    let in_mode = if f.len() > 24 {
        field_flag(f, 24)
    } else {
        false
    };
    Pane {
        id: field_string(f, 12),
        index: field_string(f, 13),
        active: field_flag(f, 14),
        command: field_string(f, 15),
        path: field_string(f, 16),
        title: field_string(f, 17),
        left: field_u16(f, 18),
        top: field_u16(f, 19),
        width: field_u16(f, 20),
        height: field_u16(f, 21),
        pid: field_string(f, 22),
        dead,
        in_mode,
        content: String::new(),
    }
}

/// Adds a line's pane to a window unless the window already has it.
fn add_pane(w: &mut Window, f: &Vec<Vec<char>>)
    requires
        f.len() >= 23,
    ensures
        final(w)@ == add_pane_row(old(w)@, f.deep_view()),
{
    let id = field_string(f, 12);
    let ghost ids = pane_ids(w@.panes);
    let mut k: usize = 0;
    while k < w.panes.len()
        invariant
            k <= w.panes.len(),
            ids == pane_ids(w@.panes),
            f.len() >= 23,
            id@ == f.deep_view()[12],
            forall|j: int| 0 <= j < k ==> ids[j] != id@,
        decreases w.panes.len() - k,
    {
        if w.panes[k].id.eq(&id) {
            assert(w@.panes[k as int] == w.panes[k as int]@);
            assert(ids[k as int] == id@);
            assert(ids.contains(id@));
            assert(id@ == f.deep_view()[12]);
            assert(add_pane_row(w@, f.deep_view()) == w@);
            return;
        }
        assert(w@.panes[k as int] == w.panes[k as int]@);
        k += 1;
    }
    assert(!ids.contains(id@));
    let ghost before = w.panes.deep_view();
    let p = make_pane(f);
    w.panes.push(p);
    assert(w.panes.deep_view() =~= before.push(p@));
}

/// Adds a line to a session, starting a window when its id is new.
fn add_window(s: &mut Session, f: &Vec<Vec<char>>)
    requires
        f.len() >= 23,
    ensures
        final(s)@ == add_window_row(old(s)@, f.deep_view()),
{
    let id = field_string(f, 5);
    let ghost ids = window_ids(s@.windows);
    let ghost ws0 = s@.windows;
    let mut k: usize = 0;
    while k < s.windows.len() && !s.windows[k].id.eq(&id)
        invariant
            k <= s.windows.len(),
            ids == window_ids(s@.windows),
            forall|j: int| 0 <= j < k ==> ids[j] != id@,
        decreases s.windows.len() - k,
    {
        k += 1;
    }
    proof {
        lemma_first_index(ids, id@, k as int);
    }
    if k == s.windows.len() {
        let ghost before = s.windows.deep_view();
        let w = make_window(f);
        s.windows.push(w);
        assert(s.windows.deep_view() =~= before.push(w@));
    }
    let ghost mid = s.windows.deep_view();
    let w = &mut s.windows[k];
    add_pane(w, f);
    assert(s.windows.deep_view() =~= mid.update(k as int, add_pane_row(mid[k as int], f.deep_view())));
}

/// Adds a line to the sessions, starting a session when its id is new.
fn add_session_row(sessions: &mut Vec<Session>, server: &TmuxServer, f: &Vec<Vec<char>>)
    requires
        f.len() >= 23,
    ensures
        final(sessions).deep_view() == add_row(old(sessions).deep_view(), server@, f.deep_view()),
{
    let id = field_string(f, 0);
    let ghost ids = session_ids(sessions.deep_view());
    let mut k: usize = 0;
    while k < sessions.len() && !sessions[k].id.eq(&id)
        invariant
            k <= sessions.len(),
            ids == session_ids(sessions.deep_view()),
            forall|j: int| 0 <= j < k ==> ids[j] != id@,
        decreases sessions.len() - k,
    {
        k += 1;
    }
    proof {
        lemma_first_index(ids, id@, k as int);
    }
    if k == sessions.len() {
        let ghost before = sessions.deep_view();
        let s = make_session(server, f);
        sessions.push(s);
        assert(sessions.deep_view() =~= before.push(s@));
    }
    let ghost mid = sessions.deep_view();
    let s = &mut sessions[k];
    add_window(s, f);
    assert(sessions.deep_view() =~= mid.update(k as int, add_window_row(mid[k as int], f.deep_view())));
}

// ---------------------------------------------------------------------------
// Executable order
// ---------------------------------------------------------------------------

proof fn lemma_text_before_skip(a: Seq<char>, b: Seq<char>, i: int)
    requires
        0 <= i <= a.len(),
        i <= b.len(),
        a.take(i) == b.take(i),
    ensures
        text_before(a, b) == text_before(a.skip(i), b.skip(i)),
    decreases i,
{
    if i > 0 {
        assert(a[0] == a.take(i)[0]);
        assert(b[0] == b.take(i)[0]);
        assert(a.drop_first().take(i - 1) =~= a.take(i).drop_first());
        assert(b.drop_first().take(i - 1) =~= b.take(i).drop_first());
        lemma_text_before_skip(a.drop_first(), b.drop_first(), i - 1);
        assert(a.drop_first().skip(i - 1) == a.skip(i));
        assert(b.drop_first().skip(i - 1) == b.skip(i));
    } else {
        assert(a.skip(0) == a);
        assert(b.skip(0) == b);
    }
}

/// Whether `a` comes strictly before `b` in `str`'s order.
pub fn text_before_chars(a: &[char], b: &[char]) -> (res: bool)
    ensures
        res == text_before(a@, b@),
{
    let mut i: usize = 0;
    while i < a.len() && i < b.len() && a[i] == b[i]
        invariant
            i <= a.len(),
            i <= b.len(),
            a@.take(i as int) == b@.take(i as int),
        decreases a.len() - i,
    {
        assert(a@.take(i + 1) == a@.take(i as int).push(a@[i as int]));
        assert(b@.take(i + 1) == b@.take(i as int).push(b@[i as int]));
        i += 1;
    }
    proof {
        lemma_text_before_skip(a@, b@, i as int);
        if i < a.len() && i < b.len() {
            assert(a@.skip(i as int)[0] == a@[i as int]);
            assert(b@.skip(i as int)[0] == b@[i as int]);
        }
    }
    if i == a.len() {
        i < b.len()
    } else if i == b.len() {
        false
    } else {
        (a[i] as u32) < (b[i] as u32)
    }
}

/// Elements that can be put in order by a stable insertion sort.
pub trait SortKey: DeepView + Sized {
    /// Whether `a` may come before `b`.
    spec fn precedes(a: Self::V, b: Self::V) -> bool;

    fn precedes_exec(&self, other: &Self) -> (res: bool)
        ensures
            res == Self::precedes(self.deep_view(), other.deep_view()),
    ;
}

pub open spec fn order_of<T: SortKey>() -> spec_fn(T::V, T::V) -> bool {
    |a: T::V, b: T::V| T::precedes(a, b)
}

/// Numeric value of an index field, `usize::MAX` when it is not a number.
fn index_key_exec(index: &String) -> (res: usize)
    ensures
        res == index_key(index@),
{
    let v = str_chars(index.as_str());
    match parse_usize(v.as_slice()) {
        Some(n) => n,
        None => usize::MAX,
    }
}

impl SortKey for Session {
    open spec fn precedes(a: SessionView, b: SessionView) -> bool {
        session_le(a, b)
    }

    fn precedes_exec(&self, other: &Self) -> (res: bool) {
        let an = str_chars(self.name.as_str());
        let bn = str_chars(other.name.as_str());
        if text_before_chars(an.as_slice(), bn.as_slice()) {
            return true;
        }
        if !self.name.eq(&other.name) {
            return false;
        }
        let ai = str_chars(self.id.as_str());
        let bi = str_chars(other.id.as_str());
        !text_before_chars(bi.as_slice(), ai.as_slice())
    }
}

impl SortKey for Window {
    open spec fn precedes(a: WindowView, b: WindowView) -> bool {
        window_le(a, b)
    }

    fn precedes_exec(&self, other: &Self) -> (res: bool) {
        index_key_exec(&self.index) <= index_key_exec(&other.index)
    }
}

impl SortKey for Pane {
    open spec fn precedes(a: PaneView, b: PaneView) -> bool {
        pane_le(a, b)
    }

    fn precedes_exec(&self, other: &Self) -> (res: bool) {
        index_key_exec(&self.index) <= index_key_exec(&other.index)
    }
}

/// A stable insertion sort.
pub fn sort_stable<T: SortKey>(v: Vec<T>) -> (res: Vec<T>)
    ensures
        res.deep_view() == sort_by(v.deep_view(), order_of::<T>()),
{
    let ghost orig = v.deep_view();
    let mut rest = v;
    let mut out: Vec<T> = Vec::new();
    let mut i: usize = 0;
    assert(orig.len() == rest.len());
    assert(orig.take(0) =~= Seq::<T::V>::empty());
    assert(out.deep_view() =~= Seq::<T::V>::empty());
    assert(orig.skip(0) == orig);
    while rest.len() > 0
        invariant
            i <= orig.len(),
            orig.len() <= usize::MAX,
            rest.deep_view() == orig.skip(i as int),
            out.deep_view() == sort_by(orig.take(i as int), order_of::<T>()),
        decreases rest.len(),
    {
        let ghost rv = rest.deep_view();
        let x = rest.remove(0);
        assert(rest.deep_view() =~= rv.drop_first());
        assert(x.deep_view() == orig[i as int]) by {
            assert(rv[0] == orig[i as int]);
        }
        assert(orig.skip(i as int).drop_first() == orig.skip(i + 1));
        let ghost ov = out.deep_view();
        let mut p: usize = out.len();
        while p > 0 && !out[p - 1].precedes_exec(&x)
            invariant
                p <= out.len(),
                ov == out.deep_view(),
                forall|j: int| p <= j < ov.len() ==> !T::precedes(#[trigger] ov[j], x.deep_view()),
            decreases p,
        {
            p -= 1;
        }
        proof {
            lemma_insert_at(ov, x.deep_view(), order_of::<T>(), p as int);
            assert(orig.take(i + 1).drop_last() == orig.take(i as int));
            assert(orig.take(i + 1).last() == orig[i as int]);
        }
        out.insert(p, x);
        assert(out.deep_view() =~= ov.insert(p as int, x.deep_view()));
        i += 1;
    }
    assert(orig.take(i as int) == orig);
    out
}

/// Puts sessions, and the windows and panes in each, in display order.
pub fn sort_sessions(sessions: Vec<Session>) -> (res: Vec<Session>)
    ensures
        res.deep_view() == sorted_sessions(sessions.deep_view()),
{
    let sorted = sort_stable(sessions);
    proof {
        assert(order_of::<Session>() =~= session_order());
    }
    let ghost sv = sorted.deep_view();
    let mut rest = sorted;
    let mut out: Vec<Session> = Vec::new();
    let mut i: usize = 0;
    assert(sv.len() == rest.len());
    assert(out.deep_view() =~= Seq::<SessionView>::empty());
    assert(sv.skip(0) == sv);
    while rest.len() > 0
        invariant
            i <= sv.len(),
            sv.len() <= usize::MAX,
            rest.deep_view() == sv.skip(i as int),
            out.deep_view() == sv.take(i as int).map_values(|s: SessionView| sort_session_windows(s)),
        decreases rest.len(),
    {
        let ghost rv = rest.deep_view();
        let s = rest.remove(0);
        assert(rest.deep_view() =~= rv.drop_first());
        assert(s@ == sv[i as int]) by {
            assert(rv[0] == sv[i as int]);
        }
        assert(sv.skip(i as int).drop_first() == sv.skip(i + 1));
        let sorted_windows = sort_windows(s.windows);
        let t = Session {
            server: s.server,
            id: s.id,
            name: s.name,
            attached: s.attached,
            created: s.created,
            window_count: s.window_count,
            windows: sorted_windows,
        };
        let ghost ov = out.deep_view();
        assert(t@ == sort_session_windows(sv[i as int]));
        out.push(t);
        assert(out.deep_view() =~= ov.push(t@));
        assert(out.deep_view() =~= sv.take(i + 1).map_values(|s: SessionView| sort_session_windows(s)));
        i += 1;
    }
    assert(sv.take(i as int) == sv);
    out
}

fn sort_windows(windows: Vec<Window>) -> (res: Vec<Window>)
    ensures
        res.deep_view() == windows_in_order(windows.deep_view()),
{
    let sorted = sort_stable(windows);
    proof {
        assert(order_of::<Window>() =~= window_order());
    }
    let ghost sv = sorted.deep_view();
    let mut rest = sorted;
    let mut out: Vec<Window> = Vec::new();
    let mut i: usize = 0;
    assert(sv.len() == rest.len());
    assert(out.deep_view() =~= Seq::<WindowView>::empty());
    assert(sv.skip(0) == sv);
    while rest.len() > 0
        invariant
            i <= sv.len(),
            sv.len() <= usize::MAX,
            rest.deep_view() == sv.skip(i as int),
            out.deep_view() == sv.take(i as int).map_values(|w: WindowView| sort_window_panes(w)),
        decreases rest.len(),
    {
        let ghost rv = rest.deep_view();
        let w = rest.remove(0);
        assert(rest.deep_view() =~= rv.drop_first());
        assert(w@ == sv[i as int]) by {
            assert(rv[0] == sv[i as int]);
        }
        assert(sv.skip(i as int).drop_first() == sv.skip(i + 1));
        let panes = sort_stable(w.panes);
        proof {
            assert(order_of::<Pane>() =~= pane_order());
        }
        let t = Window {
            id: w.id,
            index: w.index,
            name: w.name,
            active: w.active,
            pane_count: w.pane_count,
            layout: w.layout,
            flags: w.flags,
            panes,
        };
        let ghost ov = out.deep_view();
        assert(t@ == sort_window_panes(sv[i as int]));
        out.push(t);
        assert(out.deep_view() =~= ov.push(t@));
        assert(out.deep_view() =~= sv.take(i + 1).map_values(|w: WindowView| sort_window_panes(w)));
        i += 1;
    }
    assert(sv.take(i as int) == sv);
    out
}

/// Reads `tmux list-panes -a -F ...` output whose fields are separated by
/// `separator`: one pane per line, grouped into windows and sessions by id,
/// in display order. Lines that are blank or have too few fields are skipped.
pub fn parse_list_panes(output: &str, server: TmuxServer, separator: char) -> (res: TmuxState)
    ensures
        res@.sessions == parsed_sessions(output@, server@, separator),
        res@.notice is None,
        res@.diagnostics.len() == 0,
{
    let chars = str_chars(output);
    let ls = lines_chars(chars.as_slice());
    let ghost lv = ls.deep_view();
    let mut sessions: Vec<Session> = Vec::new();
    let mut i: usize = 0;
    assert(sessions.deep_view() =~= Seq::<SessionView>::empty());
    assert(lv.take(0) =~= Seq::<Seq<char>>::empty());
    while i < ls.len()
        invariant
            i <= ls.len(),
            lv == ls.deep_view(),
            lv == lines(output@),
            sessions.deep_view() == group_rows(lv.take(i as int), server@, separator),
        decreases ls.len() - i,
    {
        let line = &ls[i];
        assert(lv[i as int] == line@);
        assert(lv.take(i + 1).drop_last() == lv.take(i as int));
        assert(lv.take(i + 1).last() == line@);
        if !blank_chars(line.as_slice()) {
            let fields = split_chars(line.as_slice(), separator);
            if fields.len() >= REQUIRED_FIELD_COUNT {
                add_session_row(&mut sessions, &server, &fields);
            }
        }
        i += 1;
    }
    assert(lv.take(ls.len() as int) == lv);
    let sorted = sort_sessions(sessions);
    let res = TmuxState { sessions: sorted, notice: None, diagnostics: Vec::new() };
    assert(res@.diagnostics =~= Seq::<Seq<char>>::empty());
    res
}


/// Parts joined with a separator.
pub open spec fn join_with(parts: Seq<Seq<char>>, sep: char) -> Seq<char>
    decreases parts.len(),
{
    if parts.len() == 0 {
        seq![]
    } else if parts.len() == 1 {
        parts[0]
    } else {
        join_with(parts.drop_last(), sep) + seq![sep] + parts.last()
    }
}

/// `#{field}`.
pub open spec fn field_ref(f: Seq<char>) -> Seq<char> {
    "#{"@ + f + "}"@
}

/// The `-F` format of `list-panes`: every field as `#{field}`, separated by
/// `separator`.
pub open spec fn format_text(separator: char) -> Seq<char> {
    join_with(tmux_fields().map_values(|f: Seq<char>| field_ref(f)), separator)
}

/// The `-F` format of `list-panes` for a separator.
pub fn tmux_format(separator: char) -> (res: String)
    ensures
        res@ == format_text(separator),
{
    let fields: [&str; 25] = [
        "session_id",
        "session_name",
        "session_attached",
        "session_created",
        "session_windows",
        "window_id",
        "window_index",
        "window_name",
        "window_active",
        "window_panes",
        "window_layout",
        "window_flags",
        "pane_id",
        "pane_index",
        "pane_active",
        "pane_current_command",
        "pane_current_path",
        "pane_title",
        "pane_left",
        "pane_top",
        "pane_width",
        "pane_height",
        "pane_pid",
        "pane_dead",
        "pane_in_mode",
    ];
    let ghost names = tmux_fields();
    assert(fields@.map_values(|f: &str| f@) =~= names);
    let ghost parts = names.map_values(|f: Seq<char>| field_ref(f));
    let mut res = String::new();
    let mut i: usize = 0;
    while i < 25
        invariant
            i <= 25,
            fields@.map_values(|f: &str| f@) == names,
            names == tmux_fields(),
            parts == names.map_values(|f: Seq<char>| field_ref(f)),
            res@ == join_with(parts.take(i as int), separator),
        decreases 25 - i,
    {
        assert(fields[i as int]@ == names[i as int]);
        assert(parts.take(i + 1).drop_last() == parts.take(i as int));
        assert(parts.take(i + 1).last() == field_ref(names[i as int]));
        if i > 0 {
            push_char(&mut res, separator);
        } else {
            assert(parts.take(0) =~= Seq::<Seq<char>>::empty());
        }
        res.append("#{");
        res.append(fields[i]);
        res.append("}");
        i += 1;
    }
    assert(parts.take(25) == parts);
    res
}

} // verus!
