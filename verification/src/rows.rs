//! Which tree rows are shown, and in what order.
//!
//! Without a filter: every session with its windows and panes, minus what is
//! collapsed. Under a filter: the rows that match, with their context. At
//! every level favorites come first, each group in tmux's order, and each row
//! says whether it is a favorite.
use vstd::prelude::*;

use crate::tmux::{target_favorite_key, PaneView, Session, SessionView, TmuxTarget, Window, WindowView};
use crate::tree::{
    item_matches, matches_filter, pane_item, pane_item_of, session_item, session_item_of,
    window_item, window_item_of, ItemView, TreeItem,
};

verus! {

// ---------------------------------------------------------------------------
// Ordering
// ---------------------------------------------------------------------------

/// The rows of each element, one after the other.
pub open spec fn blocks<A>(s: Seq<A>, f: spec_fn(A) -> Seq<ItemView>) -> Seq<ItemView>
    decreases s.len(),
{
    if s.len() == 0 {
        seq![]
    } else {
        blocks(s.drop_last(), f) + f(s.last())
    }
}

/// The elements for which `fav` is `want`, in order.
pub open spec fn keep<A>(s: Seq<A>, fav: spec_fn(A) -> bool, want: bool) -> Seq<A>
    decreases s.len(),
{
    if s.len() == 0 {
        seq![]
    } else {
        let rest = keep(s.drop_last(), fav, want);
        if fav(s.last()) == want {
            rest.push(s.last())
        } else {
            rest
        }
    }
}

/// Favorites first, then the others, each group in the order given.
pub open spec fn pinned<A>(s: Seq<A>, fav: spec_fn(A) -> bool) -> Seq<A> {
    keep(s, fav, true) + keep(s, fav, false)
}

pub proof fn lemma_blocks_push<A>(a: Seq<A>, x: A, f: spec_fn(A) -> Seq<ItemView>)
    ensures
        blocks(a.push(x), f) == blocks(a, f) + f(x),
{
    assert(a.push(x).drop_last() =~= a);
}

pub proof fn lemma_blocks_append<A>(a: Seq<A>, b: Seq<A>, f: spec_fn(A) -> Seq<ItemView>)
    ensures
        blocks(a + b, f) == blocks(a, f) + blocks(b, f),
    decreases b.len(),
{
    if b.len() == 0 {
        assert(a + b =~= a);
        assert(blocks(a, f) + blocks(b, f) =~= blocks(a, f));
    } else {
        lemma_blocks_append(a, b.drop_last(), f);
        assert((a + b).drop_last() =~= a + b.drop_last());
        assert((a + b).last() == b.last());
        assert(blocks(a + b, f) =~= blocks(a, f) + blocks(b, f));
    }
}

pub proof fn lemma_keep_step<A>(s: Seq<A>, fav: spec_fn(A) -> bool, want: bool, i: int)
    requires
        0 <= i < s.len(),
    ensures
        keep(s.take(i + 1), fav, want) == if fav(s[i]) == want {
            keep(s.take(i), fav, want).push(s[i])
        } else {
            keep(s.take(i), fav, want)
        },
{
    assert(s.take(i + 1).drop_last() =~= s.take(i));
    assert(s.take(i + 1).last() == s[i]);
}

// ---------------------------------------------------------------------------
// Favorites
// ---------------------------------------------------------------------------

/// A row is a favorite when its target's key is among the favorites.
pub open spec fn is_favorite(item: ItemView, favorites: Set<Seq<char>>) -> bool {
    favorites.contains(target_favorite_key(item.target))
}

/// A row with its favorite mark set.
pub open spec fn marked(item: ItemView, favorites: Set<Seq<char>>) -> ItemView {
    ItemView { favorite: is_favorite(item, favorites), ..item }
}

pub open spec fn session_fav(favorites: Set<Seq<char>>) -> spec_fn(SessionView) -> bool {
    |s: SessionView| is_favorite(session_item_of(s), favorites)
}

pub open spec fn window_fav(s: SessionView, favorites: Set<Seq<char>>) -> spec_fn(WindowView) -> bool {
    |w: WindowView| is_favorite(window_item_of(s, w), favorites)
}

pub open spec fn pane_fav(s: SessionView, w: WindowView, favorites: Set<Seq<char>>) -> spec_fn(
    PaneView,
) -> bool {
    |p: PaneView| is_favorite(pane_item_of(s, w, p), favorites)
}

// ---------------------------------------------------------------------------
// Rows
// ---------------------------------------------------------------------------

/// A pane's row when it matches the search words or `keep_all`.
pub open spec fn pane_block(
    s: SessionView,
    w: WindowView,
    words: Seq<Seq<char>>,
    keep_all: bool,
    favorites: Set<Seq<char>>,
) -> spec_fn(PaneView) -> Seq<ItemView> {
    |p: PaneView|
        {
            let item = pane_item_of(s, w, p);
            if keep_all || item_matches(item, words) {
                seq![marked(item, favorites)]
            } else {
                seq![]
            }
        }
}

/// The rows of the panes that match the words (all of them when
/// `keep_all`), favorites first.
pub open spec fn matching_panes(
    s: SessionView,
    w: WindowView,
    ps: Seq<PaneView>,
    words: Seq<Seq<char>>,
    keep_all: bool,
    favorites: Set<Seq<char>>,
) -> Seq<ItemView> {
    blocks(pinned(ps, pane_fav(s, w, favorites)), pane_block(s, w, words, keep_all, favorites))
}

/// A window's row followed by its panes unless it is collapsed.
pub open spec fn open_window_block(
    s: SessionView,
    collapsed_windows: Set<Seq<char>>,
    favorites: Set<Seq<char>>,
) -> spec_fn(WindowView) -> Seq<ItemView> {
    |w: WindowView|
        seq![marked(window_item_of(s, w), favorites)] + if collapsed_windows.contains(w.id) {
            seq![]
        } else {
            matching_panes(s, w, w.panes, seq![], true, favorites)
        }
}

/// The rows of some windows, each followed by its panes unless collapsed.
pub open spec fn window_rows(
    s: SessionView,
    ws: Seq<WindowView>,
    collapsed_windows: Set<Seq<char>>,
    favorites: Set<Seq<char>>,
) -> Seq<ItemView> {
    blocks(pinned(ws, window_fav(s, favorites)), open_window_block(s, collapsed_windows, favorites))
}

/// A session's row, followed by its windows unless it is collapsed.
pub open spec fn unfiltered_rows(
    s: SessionView,
    collapsed_sessions: Set<Seq<char>>,
    collapsed_windows: Set<Seq<char>>,
    favorites: Set<Seq<char>>,
) -> Seq<ItemView> {
    seq![marked(session_item_of(s), favorites)] + if collapsed_sessions.contains(s.id) {
        seq![]
    } else {
        window_rows(s, s.windows, collapsed_windows, favorites)
    }
}

/// A window's rows under a search: the window and its matching panes (all of
/// them when the session or the window matches), or nothing when neither it
/// nor a pane matches.
pub open spec fn window_block(
    s: SessionView,
    w: WindowView,
    words: Seq<Seq<char>>,
    session_match: bool,
    favorites: Set<Seq<char>>,
) -> Seq<ItemView> {
    let wi = window_item_of(s, w);
    let window_match = item_matches(wi, words);
    let panes = matching_panes(s, w, w.panes, words, session_match || window_match, favorites);
    if session_match || window_match || panes.len() > 0 {
        seq![marked(wi, favorites)] + panes
    } else {
        seq![]
    }
}

pub open spec fn searched_window_block(
    s: SessionView,
    words: Seq<Seq<char>>,
    session_match: bool,
    favorites: Set<Seq<char>>,
) -> spec_fn(WindowView) -> Seq<ItemView> {
    |w: WindowView| window_block(s, w, words, session_match, favorites)
}

pub open spec fn filtered_windows(
    s: SessionView,
    ws: Seq<WindowView>,
    words: Seq<Seq<char>>,
    session_match: bool,
    favorites: Set<Seq<char>>,
) -> Seq<ItemView> {
    blocks(
        pinned(ws, window_fav(s, favorites)),
        searched_window_block(s, words, session_match, favorites),
    )
}

/// A session's rows under a search: the session and its window blocks, or
/// nothing when neither it nor anything in it matches.
pub open spec fn filtered_rows(s: SessionView, words: Seq<Seq<char>>, favorites: Set<Seq<char>>) -> Seq<
    ItemView,
> {
    let si = session_item_of(s);
    let session_match = item_matches(si, words);
    let block = filtered_windows(s, s.windows, words, session_match, favorites);
    if session_match || block.len() > 0 {
        seq![marked(si, favorites)] + block
    } else {
        seq![]
    }
}

pub open spec fn session_block(
    words: Seq<Seq<char>>,
    collapsed_sessions: Set<Seq<char>>,
    collapsed_windows: Set<Seq<char>>,
    favorites: Set<Seq<char>>,
) -> spec_fn(SessionView) -> Seq<ItemView> {
    |s: SessionView|
        if words.len() == 0 {
            unfiltered_rows(s, collapsed_sessions, collapsed_windows, favorites)
        } else {
            filtered_rows(s, words, favorites)
        }
}

/// All rows: without search words, every session with what is not
/// collapsed; with some, the matching rows and their context. Favorite
/// sessions come first.
pub open spec fn all_rows(
    ss: Seq<SessionView>,
    words: Seq<Seq<char>>,
    collapsed_sessions: Set<Seq<char>>,
    collapsed_windows: Set<Seq<char>>,
    favorites: Set<Seq<char>>,
) -> Seq<ItemView> {
    blocks(
        pinned(ss, session_fav(favorites)),
        session_block(words, collapsed_sessions, collapsed_windows, favorites),
    )
}

/// The strings of a list, as a set.
pub open spec fn text_set(v: Seq<Seq<char>>) -> Set<Seq<char>> {
    Set::new(|x: Seq<char>| v.contains(x))
}

// ---------------------------------------------------------------------------
// Building rows
// ---------------------------------------------------------------------------

/// Whether a list of strings holds `x`.
pub fn holds_text(v: &Vec<String>, x: &String) -> (res: bool)
    ensures
        res == text_set(v.deep_view()).contains(x@),
{
    let ghost vv = v.deep_view();
    let mut i: usize = 0;
    while i < v.len()
        invariant
            i <= v.len(),
            vv == v.deep_view(),
            forall|j: int| 0 <= j < i ==> vv[j] != x@,
        decreases v.len() - i,
    {
        if v[i].eq(x) {
            assert(vv[i as int] == x@);
            return true;
        }
        i += 1;
    }
    assert(!vv.contains(x@));
    false
}

/// Whether a target is among the favorites.
fn favorite_target(favorites: &Vec<String>, target: &TmuxTarget) -> (res: bool)
    ensures
        res == text_set(favorites.deep_view()).contains(target_favorite_key(target@)),
{
    let key = target.favorite_key();
    holds_text(favorites, &key)
}

fn push_item(items: &mut Vec<TreeItem>, item: TreeItem)
    ensures
        final(items).deep_view() == old(items).deep_view().push(item@),
{
    let ghost before = items.deep_view();
    items.push(item);
    assert(items.deep_view() =~= before.push(item@));
}

/// Appends a row with its favorite mark.
fn push_marked(items: &mut Vec<TreeItem>, item: TreeItem, favorite: bool)
    ensures
        final(items).deep_view() == old(items).deep_view().push(ItemView { favorite, ..item@ }),
{
    let mut item = item;
    item.favorite = favorite;
    push_item(items, item);
}

fn append_items(items: &mut Vec<TreeItem>, more: Vec<TreeItem>)
    ensures
        final(items).deep_view() == old(items).deep_view() + more.deep_view(),
{
    let ghost before = items.deep_view();
    let ghost extra = more.deep_view();
    let mut more = more;
    items.append(&mut more);
    assert(items.deep_view() =~= before + extra);
}

/// Appends the rows of a window's panes whose favorite mark is `want`.
fn push_panes_pass(
    items: &mut Vec<TreeItem>,
    session: &Session,
    window: &Window,
    words: &Vec<Vec<char>>,
    keep_all: bool,
    favorites: &Vec<String>,
    want: bool,
)
    ensures
        final(items).deep_view() == old(items).deep_view() + blocks(
            keep(window@.panes, pane_fav(session@, window@, text_set(favorites.deep_view())), want),
            pane_block(session@, window@, words.deep_view(), keep_all, text_set(favorites.deep_view())),
        ),
{
    let ghost ps = window@.panes;
    let ghost fs = text_set(favorites.deep_view());
    let ghost fav = pane_fav(session@, window@, fs);
    let ghost f = pane_block(session@, window@, words.deep_view(), keep_all, fs);
    let ghost start = items.deep_view();
    let mut k: usize = 0;
    assert(ps.take(0) =~= Seq::<PaneView>::empty());
    assert(start + blocks(keep(ps.take(0), fav, want), f) =~= start);
    while k < window.panes.len()
        invariant
            k <= window.panes.len(),
            ps == window@.panes,
            fs == text_set(favorites.deep_view()),
            fav == pane_fav(session@, window@, fs),
            f == pane_block(session@, window@, words.deep_view(), keep_all, fs),
            items.deep_view() == start + blocks(keep(ps.take(k as int), fav, want), f),
        decreases window.panes.len() - k,
    {
        let ghost before = items.deep_view();
        let ghost kept = keep(ps.take(k as int), fav, want);
        assert(ps[k as int] == window.panes[k as int]@);
        proof {
            lemma_keep_step(ps, fav, want, k as int);
        }
        let item = pane_item(session, window, &window.panes[k]);
        let favorite = favorite_target(favorites, &item.target);
        if favorite == want {
            proof {
                lemma_blocks_push(kept, ps[k as int], f);
            }
            if keep_all || matches_filter(&item, words) {
                push_marked(items, item, favorite);
                assert(items.deep_view() =~= start + blocks(keep(ps.take(k + 1), fav, want), f));
            } else {
                assert(items.deep_view() =~= start + blocks(keep(ps.take(k + 1), fav, want), f));
            }
        }
        k += 1;
    }
    assert(ps.take(window.panes.len() as int) == ps);
}

/// Appends the rows of a window's panes that match the words (all of them
/// when `keep_all`), favorites first.
fn push_panes(
    items: &mut Vec<TreeItem>,
    session: &Session,
    window: &Window,
    words: &Vec<Vec<char>>,
    keep_all: bool,
    favorites: &Vec<String>,
)
    ensures
        final(items).deep_view() == old(items).deep_view() + matching_panes(
            session@,
            window@,
            window@.panes,
            words.deep_view(),
            keep_all,
            text_set(favorites.deep_view()),
        ),
{
    let ghost fs = text_set(favorites.deep_view());
    let ghost fav = pane_fav(session@, window@, fs);
    let ghost f = pane_block(session@, window@, words.deep_view(), keep_all, fs);
    let ghost start = items.deep_view();
    push_panes_pass(items, session, window, words, keep_all, favorites, true);
    push_panes_pass(items, session, window, words, keep_all, favorites, false);
    proof {
        lemma_blocks_append(keep(window@.panes, fav, true), keep(window@.panes, fav, false), f);
    }
    assert(items.deep_view() =~= start + matching_panes(
        session@,
        window@,
        window@.panes,
        words.deep_view(),
        keep_all,
        fs,
    ));
}

/// Appends the unfiltered rows of a session's windows whose favorite mark is
/// `want`.
fn push_open_windows_pass(
    items: &mut Vec<TreeItem>,
    session: &Session,
    no_words: &Vec<Vec<char>>,
    collapsed_windows: &Vec<String>,
    favorites: &Vec<String>,
    want: bool,
)
    requires
        no_words@.len() == 0,
    ensures
        final(items).deep_view() == old(items).deep_view() + blocks(
            keep(session@.windows, window_fav(session@, text_set(favorites.deep_view())), want),
            open_window_block(
                session@,
                text_set(collapsed_windows.deep_view()),
                text_set(favorites.deep_view()),
            ),
        ),
{
    let ghost ws = session@.windows;
    let ghost fs = text_set(favorites.deep_view());
    let ghost cw = text_set(collapsed_windows.deep_view());
    let ghost fav = window_fav(session@, fs);
    let ghost f = open_window_block(session@, cw, fs);
    let ghost start = items.deep_view();
    assert(no_words.deep_view() =~= Seq::<Seq<char>>::empty());
    let mut i: usize = 0;
    assert(ws.take(0) =~= Seq::<WindowView>::empty());
    assert(start + blocks(keep(ws.take(0), fav, want), f) =~= start);
    while i < session.windows.len()
        invariant
            i <= session.windows.len(),
            ws == session@.windows,
            fs == text_set(favorites.deep_view()),
            cw == text_set(collapsed_windows.deep_view()),
            fav == window_fav(session@, fs),
            f == open_window_block(session@, cw, fs),
            no_words.deep_view() == Seq::<Seq<char>>::empty(),
            items.deep_view() == start + blocks(keep(ws.take(i as int), fav, want), f),
        decreases session.windows.len() - i,
    {
        let window = &session.windows[i];
        let ghost kept = keep(ws.take(i as int), fav, want);
        let ghost before = items.deep_view();
        assert(ws[i as int] == window@);
        proof {
            lemma_keep_step(ws, fav, want, i as int);
        }
        let item = window_item(session, window);
        let favorite = favorite_target(favorites, &item.target);
        if favorite == want {
            proof {
                lemma_blocks_push(kept, window@, f);
            }
            push_marked(items, item, favorite);
            let ghost mid = items.deep_view();
            if !holds_text(collapsed_windows, &window.id) {
                push_panes(items, session, window, no_words, true, favorites);
            }
            assert(items.deep_view() =~= start + blocks(keep(ws.take(i + 1), fav, want), f));
        }
        i += 1;
    }
    assert(ws.take(session.windows.len() as int) == ws);
}

/// Appends a session's rows, without a filter.
fn push_unfiltered_session(
    items: &mut Vec<TreeItem>,
    session: &Session,
    favorite: bool,
    no_words: &Vec<Vec<char>>,
    collapsed_sessions: &Vec<String>,
    collapsed_windows: &Vec<String>,
    favorites: &Vec<String>,
)
    requires
        no_words@.len() == 0,
        favorite == is_favorite(session_item_of(session@), text_set(favorites.deep_view())),
    ensures
        final(items).deep_view() == old(items).deep_view() + unfiltered_rows(
            session@,
            text_set(collapsed_sessions.deep_view()),
            text_set(collapsed_windows.deep_view()),
            text_set(favorites.deep_view()),
        ),
{
    let ghost start = items.deep_view();
    let ghost fs = text_set(favorites.deep_view());
    let ghost cw = text_set(collapsed_windows.deep_view());
    let ghost fav = window_fav(session@, fs);
    let ghost f = open_window_block(session@, cw, fs);
    push_marked(items, session_item(session), favorite);
    if holds_text(collapsed_sessions, &session.id) {
        assert(items.deep_view() =~= start + unfiltered_rows(
            session@,
            text_set(collapsed_sessions.deep_view()),
            cw,
            fs,
        ));
        return;
    }
    let ghost mid = items.deep_view();
    push_open_windows_pass(items, session, no_words, collapsed_windows, favorites, true);
    push_open_windows_pass(items, session, no_words, collapsed_windows, favorites, false);
    proof {
        lemma_blocks_append(keep(session@.windows, fav, true), keep(session@.windows, fav, false), f);
    }
    assert(items.deep_view() =~= start + unfiltered_rows(
        session@,
        text_set(collapsed_sessions.deep_view()),
        cw,
        fs,
    ));
}

/// Appends the searched rows of a session's windows whose favorite mark is
/// `want`.
fn push_searched_windows_pass(
    items: &mut Vec<TreeItem>,
    session: &Session,
    words: &Vec<Vec<char>>,
    session_match: bool,
    favorites: &Vec<String>,
    want: bool,
)
    ensures
        final(items).deep_view() == old(items).deep_view() + blocks(
            keep(session@.windows, window_fav(session@, text_set(favorites.deep_view())), want),
            searched_window_block(
                session@,
                words.deep_view(),
                session_match,
                text_set(favorites.deep_view()),
            ),
        ),
{
    let ghost ws = session@.windows;
    let ghost fs = text_set(favorites.deep_view());
    let ghost wv = words.deep_view();
    let ghost fav = window_fav(session@, fs);
    let ghost f = searched_window_block(session@, wv, session_match, fs);
    let ghost start = items.deep_view();
    let mut i: usize = 0;
    assert(ws.take(0) =~= Seq::<WindowView>::empty());
    assert(start + blocks(keep(ws.take(0), fav, want), f) =~= start);
    while i < session.windows.len()
        invariant
            i <= session.windows.len(),
            ws == session@.windows,
            fs == text_set(favorites.deep_view()),
            wv == words.deep_view(),
            fav == window_fav(session@, fs),
            f == searched_window_block(session@, wv, session_match, fs),
            items.deep_view() == start + blocks(keep(ws.take(i as int), fav, want), f),
        decreases session.windows.len() - i,
    {
        let window = &session.windows[i];
        let ghost kept = keep(ws.take(i as int), fav, want);
        let ghost before = items.deep_view();
        assert(ws[i as int] == window@);
        proof {
            lemma_keep_step(ws, fav, want, i as int);
        }
        let wi = window_item(session, window);
        let favorite = favorite_target(favorites, &wi.target);
        if favorite == want {
            proof {
                lemma_blocks_push(kept, window@, f);
            }
            let window_match = matches_filter(&wi, words);
            let mut pane_block: Vec<TreeItem> = Vec::new();
            assert(pane_block.deep_view() =~= Seq::<ItemView>::empty());
            push_panes(&mut pane_block, session, window, words, session_match || window_match, favorites);
            let ghost pb = pane_block.deep_view();
            assert(pb =~= matching_panes(
                session@,
                window@,
                window@.panes,
                wv,
                session_match || window_match,
                fs,
            ));
            if session_match || window_match || pane_block.len() > 0 {
                push_marked(items, wi, favorite);
                append_items(items, pane_block);
                assert(items.deep_view() =~= before + window_block(
                    session@,
                    window@,
                    wv,
                    session_match,
                    fs,
                ));
            } else {
                assert(items.deep_view() =~= before + window_block(
                    session@,
                    window@,
                    wv,
                    session_match,
                    fs,
                ));
            }
            assert(items.deep_view() =~= start + blocks(keep(ws.take(i + 1), fav, want), f));
        }
        i += 1;
    }
    assert(ws.take(session.windows.len() as int) == ws);
}

/// Appends a session's rows under search words.
fn push_filtered_session(
    items: &mut Vec<TreeItem>,
    session: &Session,
    favorite: bool,
    words: &Vec<Vec<char>>,
    favorites: &Vec<String>,
)
    requires
        favorite == is_favorite(session_item_of(session@), text_set(favorites.deep_view())),
    ensures
        final(items).deep_view() == old(items).deep_view() + filtered_rows(
            session@,
            words.deep_view(),
            text_set(favorites.deep_view()),
        ),
{
    let ghost fs = text_set(favorites.deep_view());
    let ghost wv = words.deep_view();
    let si = session_item(session);
    let session_match = matches_filter(&si, words);
    let ghost fav = window_fav(session@, fs);
    let ghost f = searched_window_block(session@, wv, session_match, fs);
    let mut block: Vec<TreeItem> = Vec::new();
    assert(block.deep_view() =~= Seq::<ItemView>::empty());
    push_searched_windows_pass(&mut block, session, words, session_match, favorites, true);
    push_searched_windows_pass(&mut block, session, words, session_match, favorites, false);
    proof {
        lemma_blocks_append(keep(session@.windows, fav, true), keep(session@.windows, fav, false), f);
    }
    let ghost bv = block.deep_view();
    assert(bv =~= filtered_windows(session@, session@.windows, wv, session_match, fs));
    let ghost start = items.deep_view();
    if session_match || block.len() > 0 {
        push_marked(items, si, favorite);
        append_items(items, block);
        assert(items.deep_view() =~= start + filtered_rows(session@, wv, fs));
    } else {
        assert(items.deep_view() =~= start + filtered_rows(session@, wv, fs));
    }
}

/// Appends the rows of the sessions whose favorite mark is `want`.
fn push_sessions_pass(
    items: &mut Vec<TreeItem>,
    sessions: &Vec<Session>,
    words: &Vec<Vec<char>>,
    no_words: &Vec<Vec<char>>,
    collapsed_sessions: &Vec<String>,
    collapsed_windows: &Vec<String>,
    favorites: &Vec<String>,
    want: bool,
)
    requires
        no_words@.len() == 0,
    ensures
        final(items).deep_view() == old(items).deep_view() + blocks(
            keep(sessions.deep_view(), session_fav(text_set(favorites.deep_view())), want),
            session_block(
                words.deep_view(),
                text_set(collapsed_sessions.deep_view()),
                text_set(collapsed_windows.deep_view()),
                text_set(favorites.deep_view()),
            ),
        ),
{
    let ghost ss = sessions.deep_view();
    let ghost fs = text_set(favorites.deep_view());
    let ghost cs = text_set(collapsed_sessions.deep_view());
    let ghost cw = text_set(collapsed_windows.deep_view());
    let ghost wv = words.deep_view();
    let ghost fav = session_fav(fs);
    let ghost f = session_block(wv, cs, cw, fs);
    let ghost start = items.deep_view();
    let searching = words.len() > 0;
    let mut i: usize = 0;
    assert(ss.take(0) =~= Seq::<SessionView>::empty());
    assert(start + blocks(keep(ss.take(0), fav, want), f) =~= start);
    while i < sessions.len()
        invariant
            i <= sessions.len(),
            ss == sessions.deep_view(),
            fs == text_set(favorites.deep_view()),
            cs == text_set(collapsed_sessions.deep_view()),
            cw == text_set(collapsed_windows.deep_view()),
            wv == words.deep_view(),
            searching == (wv.len() > 0),
            no_words@.len() == 0,
            fav == session_fav(fs),
            f == session_block(wv, cs, cw, fs),
            items.deep_view() == start + blocks(keep(ss.take(i as int), fav, want), f),
        decreases sessions.len() - i,
    {
        let session = &sessions[i];
        let ghost kept = keep(ss.take(i as int), fav, want);
        let ghost before = items.deep_view();
        assert(ss[i as int] == session@);
        proof {
            lemma_keep_step(ss, fav, want, i as int);
        }
        let target = TmuxTarget::session_on(
            crate::text::copy_string(&session.id),
            session.server.duplicate(),
        );
        let favorite = favorite_target(favorites, &target);
        assert(target@ == session_item_of(session@).target);
        if favorite == want {
            proof {
                lemma_blocks_push(kept, session@, f);
            }
            if searching {
                push_filtered_session(items, session, favorite, words, favorites);
            } else {
                push_unfiltered_session(
                    items,
                    session,
                    favorite,
                    no_words,
                    collapsed_sessions,
                    collapsed_windows,
                    favorites,
                );
            }
            assert(items.deep_view() =~= start + blocks(keep(ss.take(i + 1), fav, want), f));
        }
        i += 1;
    }
    assert(ss.take(sessions.len() as int) == ss);
}

/// All rows for the sessions, the search words, the collapsed sessions and
/// windows and the favorites.
pub fn build_rows(
    sessions: &Vec<Session>,
    words: &Vec<Vec<char>>,
    collapsed_sessions: &Vec<String>,
    collapsed_windows: &Vec<String>,
    favorites: &Vec<String>,
) -> (res: Vec<TreeItem>)
    ensures
        res.deep_view() == all_rows(
            sessions.deep_view(),
            words.deep_view(),
            text_set(collapsed_sessions.deep_view()),
            text_set(collapsed_windows.deep_view()),
            text_set(favorites.deep_view()),
        ),
{
    let ghost fs = text_set(favorites.deep_view());
    let ghost f = session_block(
        words.deep_view(),
        text_set(collapsed_sessions.deep_view()),
        text_set(collapsed_windows.deep_view()),
        fs,
    );
    let no_words: Vec<Vec<char>> = Vec::new();
    let mut items: Vec<TreeItem> = Vec::new();
    assert(items.deep_view() =~= Seq::<ItemView>::empty());
    push_sessions_pass(
        &mut items,
        sessions,
        words,
        &no_words,
        collapsed_sessions,
        collapsed_windows,
        favorites,
        true,
    );
    push_sessions_pass(
        &mut items,
        sessions,
        words,
        &no_words,
        collapsed_sessions,
        collapsed_windows,
        favorites,
        false,
    );
    proof {
        lemma_blocks_append(
            keep(sessions.deep_view(), session_fav(fs), true),
            keep(sessions.deep_view(), session_fav(fs), false),
            f,
        );
    }
    assert(items.deep_view() =~= all_rows(
        sessions.deep_view(),
        words.deep_view(),
        text_set(collapsed_sessions.deep_view()),
        text_set(collapsed_windows.deep_view()),
        fs,
    ));
    items
}

} // verus!
