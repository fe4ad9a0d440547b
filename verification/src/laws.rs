//! Properties of the library as a whole: what holds of every input, or
//! relates several operations.
use vstd::prelude::*;

use crate::args::{is_quote, split_command_line, split_run, split_step, ArgsError};
use crate::client::{candidate_list, push_all_unique, push_unique};
use crate::controller::{
    changed, key_result, lemma_toggled_no_duplicates, lemma_without_contains, moved, toggled,
    without, AppView, EffectView, KeyCode, KeyEvent, PromptView, SetChange,
};
use crate::discovery::{with_all_unique, with_unique};
use crate::favorites::{nonblank_lines, storable, stored_keys, stored_text};
use crate::layout::{source_height_of, source_width_of};
use crate::controller::rebuilt;
use crate::listing::{
    flag_value, opt_i64, opt_u16, opt_usize, tmux_fields, add_pane_row, add_row, add_window_row, first_index, group_rows, is_row, new_pane, new_session,
    new_window, pane_ids, session_ids, window_ids, insert_sorted, pane_le, pane_order, parsed_sessions, session_le, session_order, sort_by,
    sort_session_windows, sort_window_panes, text_before, window_le, window_order, windows_in_order,
};
use crate::load::{identified, LoadView};
use crate::rows::{
    all_rows, blocks, filtered_rows, filtered_windows, keep, marked, matching_panes, pane_block,
    pane_fav, pinned, searched_window_block, session_block, session_fav, text_set, window_block,
    window_fav,
};
use crate::text::{
    has_infix, is_blank, is_subsequence, is_ws, lemma_index_of, lines, occurs_at, split, strip_cr,
    trim, trim_end, trim_start, words, words_from,
};
use crate::tmux::{kept_count, normalized_lines, PaneView, ServerView, SessionView, WindowView};
use crate::tree::{
    filter_words, item_fields, item_matches, pane_item_of, pane_preview_of, session_item_of,
    window_item_of, window_title, word_matches, ItemView, PanePreviewView, PreviewView,
};

verus! {

// ---------------------------------------------------------------------------
// Sorting
// ---------------------------------------------------------------------------

/// Every element may precede every later one.
pub open spec fn sorted_with<A>(s: Seq<A>, le: spec_fn(A, A) -> bool) -> bool {
    forall|i: int, j: int| 0 <= i < j < s.len() ==> le(#[trigger] s[i], #[trigger] s[j])
}

/// `le` compares any two elements, and transitively.
pub open spec fn total_preorder<A>(le: spec_fn(A, A) -> bool) -> bool {
    &&& forall|a: A, b: A| #[trigger] le(a, b) || le(b, a)
    &&& forall|a: A, b: A, c: A| #[trigger] le(a, b) && #[trigger] le(b, c) ==> le(a, c)
}

proof fn lemma_insert_sorted_contains<A>(s: Seq<A>, x: A, le: spec_fn(A, A) -> bool, y: A)
    ensures
        insert_sorted(s, x, le).contains(y) <==> s.contains(y) || y == x,
    decreases s.len(),
{
    let r = insert_sorted(s, x, le);
    if s.len() == 0 {
        assert(r[0] == x);
    } else if le(s.last(), x) {
        if s.contains(y) {
            let i = choose|i: int| 0 <= i < s.len() && s[i] == y;
            assert(r[i] == y);
        }
        if r.contains(y) && y != x {
            let i = choose|i: int| 0 <= i < r.len() && r[i] == y;
            assert(s[i] == y);
        }
        assert(r[s.len() as int] == x);
    } else {
        let t = insert_sorted(s.drop_last(), x, le);
        lemma_insert_sorted_contains(s.drop_last(), x, le, y);
        if s.contains(y) {
            let i = choose|i: int| 0 <= i < s.len() && s[i] == y;
            if i < s.len() - 1 {
                assert(s.drop_last()[i] == y);
                let k = choose|k: int| 0 <= k < t.len() && t[k] == y;
                assert(r[k] == y);
            } else {
                assert(r[t.len() as int] == y);
            }
        }
        if y == x {
            let k = choose|k: int| 0 <= k < t.len() && t[k] == y;
            assert(r[k] == y);
        }
        if r.contains(y) {
            let i = choose|i: int| 0 <= i < r.len() && r[i] == y;
            if i < t.len() {
                assert(t[i] == y);
                if s.drop_last().contains(y) {
                    let k = choose|k: int| 0 <= k < s.drop_last().len() && s.drop_last()[k] == y;
                    assert(s[k] == y);
                }
            } else {
                assert(s[s.len() - 1] == y);
            }
        }
    }
}

proof fn lemma_insert_sorted_sorted<A>(s: Seq<A>, x: A, le: spec_fn(A, A) -> bool)
    requires
        sorted_with(s, le),
        total_preorder(le),
    ensures
        sorted_with(insert_sorted(s, x, le), le),
    decreases s.len(),
{
    let r = insert_sorted(s, x, le);
    if s.len() == 0 {
    } else if le(s.last(), x) {
        assert forall|i: int, j: int| 0 <= i < j < r.len() implies le(#[trigger] r[i], #[trigger] r[j]) by {
            if j == s.len() {
                if i < s.len() - 1 {
                    assert(le(s[i], s[s.len() - 1]));
                }
            } else {
                assert(le(s[i], s[j]));
            }
        }
    } else {
        let d = s.drop_last();
        assert(sorted_with(d, le)) by {
            assert forall|i: int, j: int| 0 <= i < j < d.len() implies le(#[trigger] d[i], #[trigger] d[j]) by {
                assert(le(s[i], s[j]));
            }
        }
        lemma_insert_sorted_sorted(d, x, le);
        let t = insert_sorted(d, x, le);
        assert(le(x, s.last()));
        assert forall|i: int, j: int| 0 <= i < j < r.len() implies le(#[trigger] r[i], #[trigger] r[j]) by {
            if j == t.len() {
                assert(t.contains(t[i]));
                lemma_insert_sorted_contains(d, x, le, t[i]);
                if t[i] != x {
                    let k = choose|k: int| 0 <= k < d.len() && d[k] == t[i];
                    assert(le(s[k], s[s.len() - 1]));
                }
            } else {
                assert(le(t[i], t[j]));
            }
        }
    }
}

proof fn lemma_sort_by_sorted<A>(s: Seq<A>, le: spec_fn(A, A) -> bool)
    requires
        total_preorder(le),
    ensures
        sorted_with(sort_by(s, le), le),
    decreases s.len(),
{
    if s.len() > 0 {
        lemma_sort_by_sorted(s.drop_last(), le);
        lemma_insert_sorted_sorted(sort_by(s.drop_last(), le), s.last(), le);
    }
}

proof fn lemma_char_code_injective(x: char, y: char)
    ensures
        x != y ==> (x as u32) != (y as u32),
{
    if (x as u32) == (y as u32) {
        assert(((x as u32) as char) == x);
        assert(((y as u32) as char) == y);
    }
}

proof fn lemma_text_before_irreflexive(a: Seq<char>)
    ensures
        !text_before(a, a),
    decreases a.len(),
{
    if a.len() > 0 {
        lemma_text_before_irreflexive(a.drop_first());
    }
}

proof fn lemma_text_before_total(a: Seq<char>, b: Seq<char>)
    ensures
        a == b || text_before(a, b) || text_before(b, a),
    decreases a.len(),
{
    if a.len() > 0 && b.len() > 0 && a[0] == b[0] {
        lemma_text_before_total(a.drop_first(), b.drop_first());
        if a.drop_first() == b.drop_first() {
            assert(a =~= seq![a[0]] + a.drop_first());
            assert(b =~= seq![b[0]] + b.drop_first());
        }
    } else if a.len() > 0 && b.len() > 0 {
        lemma_char_code_injective(a[0], b[0]);
    } else if a.len() == 0 && b.len() == 0 {
        assert(a =~= b);
    }
}

proof fn lemma_text_before_asymmetric(a: Seq<char>, b: Seq<char>)
    ensures
        !(text_before(a, b) && text_before(b, a)),
    decreases a.len(),
{
    if a.len() > 0 && b.len() > 0 && a[0] == b[0] {
        lemma_text_before_asymmetric(a.drop_first(), b.drop_first());
    }
}

proof fn lemma_text_before_transitive(a: Seq<char>, b: Seq<char>, c: Seq<char>)
    requires
        text_before(a, b),
        text_before(b, c),
    ensures
        text_before(a, c),
    decreases a.len(),
{
    if a.len() > 0 && b.len() > 0 && c.len() > 0 && a[0] == b[0] && b[0] == c[0] {
        lemma_text_before_transitive(a.drop_first(), b.drop_first(), c.drop_first());
    }
}

proof fn lemma_session_order_total()
    ensures
        total_preorder(session_order()),
{
    let le = session_order();
    assert forall|a: SessionView, b: SessionView| #[trigger] le(a, b) || le(b, a) by {
        lemma_text_before_total(a.name, b.name);
        lemma_text_before_total(a.id, b.id);
        lemma_text_before_asymmetric(a.id, b.id);
    }
    assert forall|a: SessionView, b: SessionView, c: SessionView|
        #[trigger] le(a, b) && #[trigger] le(b, c) implies le(a, c) by {
        if text_before(a.name, b.name) && text_before(b.name, c.name) {
            lemma_text_before_transitive(a.name, b.name, c.name);
        }
        if a.name == b.name && b.name == c.name && text_before(c.id, a.id) {
            lemma_text_before_total(a.id, b.id);
            if text_before(a.id, b.id) {
                lemma_text_before_transitive(c.id, a.id, b.id);
            }
        }
    }
}

proof fn lemma_index_orders_total()
    ensures
        total_preorder(window_order()),
        total_preorder(pane_order()),
{
}

/// Parsed `list-panes` output is in order: sessions by name (then id), each
/// session's windows by index, and each window's panes by index.
pub proof fn law_parsed_sessions_sorted(output: Seq<char>, server: ServerView, sep: char)
    ensures
        ({
            let ss = parsed_sessions(output, server, sep);
            &&& forall|i: int, j: int|
                0 <= i < j < ss.len() ==> session_le(#[trigger] ss[i], #[trigger] ss[j])
            &&& forall|k: int, i: int, j: int|
                0 <= k < ss.len() && 0 <= i < j < ss[k].windows.len() ==> window_le(
                    #[trigger] ss[k].windows[i],
                    #[trigger] ss[k].windows[j],
                )
            &&& forall|k: int, m: int, i: int, j: int|
                0 <= k < ss.len() && 0 <= m < ss[k].windows.len() && 0 <= i < j
                    < ss[k].windows[m].panes.len() ==> pane_le(
                    #[trigger] ss[k].windows[m].panes[i],
                    #[trigger] ss[k].windows[m].panes[j],
                )
        }),
{
    let g = crate::listing::group_rows(lines(output), server, sep);
    let sorted = sort_by(g, session_order());
    lemma_session_order_total();
    lemma_index_orders_total();
    lemma_sort_by_sorted(g, session_order());
    let ss = parsed_sessions(output, server, sep);
    assert(ss == sorted.map_values(|s: SessionView| sort_session_windows(s)));
    assert forall|i: int, j: int| 0 <= i < j < ss.len() implies session_le(
        #[trigger] ss[i],
        #[trigger] ss[j],
    ) by {
        assert(session_order()(sorted[i], sorted[j]));
    }
    assert forall|k: int, i: int, j: int|
        0 <= k < ss.len() && 0 <= i < j < ss[k].windows.len() implies window_le(
        #[trigger] ss[k].windows[i],
        #[trigger] ss[k].windows[j],
    ) by {
        let ws = sorted[k].windows;
        lemma_sort_by_sorted(ws, window_order());
        let sw = sort_by(ws, window_order());
        assert(ss[k].windows == windows_in_order(ws));
        assert(window_order()(sw[i], sw[j]));
    }
    assert forall|k: int, m: int, i: int, j: int|
        0 <= k < ss.len() && 0 <= m < ss[k].windows.len() && 0 <= i < j
            < ss[k].windows[m].panes.len() implies pane_le(
        #[trigger] ss[k].windows[m].panes[i],
        #[trigger] ss[k].windows[m].panes[j],
    ) by {
        let ws = sorted[k].windows;
        let sw = sort_by(ws, window_order());
        assert(ss[k].windows == windows_in_order(ws));
        let w = sw[m];
        assert(ss[k].windows[m] == sort_window_panes(w));
        lemma_sort_by_sorted(w.panes, pane_order());
        let sp = sort_by(w.panes, pane_order());
        assert(pane_order()(sp[i], sp[j]));
    }
}

// ---------------------------------------------------------------------------
// Candidate servers
// ---------------------------------------------------------------------------

proof fn lemma_push_unique_facts(s: Seq<ServerView>, x: ServerView)
    ensures
        push_unique(s, x).len() >= s.len(),
        push_unique(s, x).subrange(0, s.len() as int) == s,
        forall|y: ServerView| push_unique(s, x).contains(y) <==> s.contains(y) || y == x,
        s.no_duplicates() ==> push_unique(s, x).no_duplicates(),
{
    let r = push_unique(s, x);
    assert(r.subrange(0, s.len() as int) =~= s);
    assert forall|y: ServerView| r.contains(y) <==> s.contains(y) || y == x by {
        if !s.contains(x) {
            if s.contains(y) {
                let i = choose|i: int| 0 <= i < s.len() && s[i] == y;
                assert(r[i] == y);
            }
            if r.contains(y) && y != x {
                let i = choose|i: int| 0 <= i < r.len() && r[i] == y;
                assert(s[i] == y);
            }
            assert(r[s.len() as int] == x);
        }
    }
    if s.no_duplicates() && !s.contains(x) {
        assert forall|i: int, j: int| 0 <= i < r.len() && 0 <= j < r.len() && i != j implies r[i]
            != r[j] by {
            if i == s.len() {
                assert(s.contains(s[j]));
            } else if j == s.len() {
                assert(s.contains(s[i]));
            }
        }
    }
}

proof fn lemma_push_all_unique_facts(s: Seq<ServerView>, xs: Seq<ServerView>)
    ensures
        push_all_unique(s, xs).len() >= s.len(),
        push_all_unique(s, xs).subrange(0, s.len() as int) == s,
        forall|y: ServerView| push_all_unique(s, xs).contains(y) <==> s.contains(y) || xs.contains(y),
        s.no_duplicates() ==> push_all_unique(s, xs).no_duplicates(),
    decreases xs.len(),
{
    if xs.len() > 0 {
        let t = push_all_unique(s, xs.drop_last());
        lemma_push_all_unique_facts(s, xs.drop_last());
        lemma_push_unique_facts(t, xs.last());
        let r = push_all_unique(s, xs);
        assert(r.subrange(0, s.len() as int) =~= t.subrange(0, t.len() as int).subrange(0, s.len() as int));
        assert(t.subrange(0, t.len() as int) =~= t);
        assert forall|y: ServerView| r.contains(y) <==> s.contains(y) || xs.contains(y) by {
            if xs.drop_last().contains(y) {
                let i = choose|i: int| 0 <= i < xs.drop_last().len() && xs.drop_last()[i] == y;
                assert(xs[i] == y);
            }
            if xs.contains(y) && y != xs.last() {
                let i = choose|i: int| 0 <= i < xs.len() && xs[i] == y;
                assert(xs.drop_last()[i] == y);
            }
            assert(xs[xs.len() - 1] == xs.last());
        }
    } else {
        assert(s.subrange(0, s.len() as int) =~= s);
    }
}

/// The servers a load tries hold each server once, start with the explicitly
/// requested ones in the order given, and include every requested server and
/// the default one.
pub proof fn law_candidates_explicit_first(
    active: ServerView,
    extra: Seq<ServerView>,
    env_server: Option<ServerView>,
    discovered: Seq<Seq<char>>,
)
    ensures
        ({
            let c = candidate_list(active, extra, env_server, discovered);
            let e = push_all_unique(seq![], extra);
            &&& c.no_duplicates()
            &&& e.len() <= c.len()
            &&& c.subrange(0, e.len() as int) == e
            &&& forall|i: int| 0 <= i < extra.len() ==> c.contains(#[trigger] extra[i])
            &&& c.contains(ServerView::Default)
        }),
{
    let s0 = push_all_unique(seq![], extra);
    lemma_push_all_unique_facts(seq![], extra);
    let s1 = if active != ServerView::Default {
        push_unique(s0, active)
    } else {
        s0
    };
    lemma_push_unique_facts(s0, active);
    let s2 = match env_server {
        Some(e) => push_unique(s1, e),
        None => s1,
    };
    match env_server {
        Some(e) => lemma_push_unique_facts(s1, e),
        None => {},
    }
    let s3 = push_unique(s2, ServerView::Default);
    lemma_push_unique_facts(s2, ServerView::Default);
    let ds = crate::client::socket_servers(discovered);
    lemma_push_all_unique_facts(s3, ds);
    let c = push_all_unique(s3, ds);
    assert(c.subrange(0, s0.len() as int) =~= c.subrange(0, s3.len() as int).subrange(
        0,
        s0.len() as int,
    ));
    assert(s3.subrange(0, s0.len() as int) =~= s3.subrange(0, s2.len() as int).subrange(
        0,
        s0.len() as int,
    ));
    assert(s2.subrange(0, s0.len() as int) =~= s2.subrange(0, s1.len() as int).subrange(
        0,
        s0.len() as int,
    ));
    assert(s1.subrange(0, s0.len() as int) =~= s0);
    assert(Seq::<ServerView>::empty().no_duplicates());
    assert forall|i: int| 0 <= i < extra.len() implies c.contains(#[trigger] extra[i]) by {
        assert(extra.contains(extra[i]));
    }
}

// ---------------------------------------------------------------------------
// Captured pane text
// ---------------------------------------------------------------------------

proof fn lemma_trim_end_idempotent(s: Seq<char>)
    ensures
        trim_end(trim_end(s)) == trim_end(s),
    decreases s.len(),
{
    if s.len() > 0 && is_ws(s.last()) {
        lemma_trim_end_idempotent(s.drop_last());
    }
}

proof fn lemma_kept_last(ls: Seq<Seq<char>>)
    ensures
        kept_count(ls) <= ls.len(),
        kept_count(ls) > 0 ==> trim_end(ls[kept_count(ls) - 1]).len() > 0,
    decreases ls.len(),
{
    if ls.len() > 0 && trim_end(ls.last()).len() == 0 {
        lemma_kept_last(ls.drop_last());
        if kept_count(ls) > 0 {
            assert(ls.drop_last()[kept_count(ls) - 1] == ls[kept_count(ls) - 1]);
        }
    }
}

/// The lines of captured pane text as shown end in no whitespace, and the
/// last one is not empty.
pub proof fn law_captured_lines_trimmed(content: Seq<char>)
    ensures
        ({
            let ls = normalized_lines(lines(content));
            &&& forall|i: int| 0 <= i < ls.len() ==> trim_end(#[trigger] ls[i]) == ls[i]
            &&& ls.len() > 0 ==> ls.last().len() > 0
        }),
{
    let raw = lines(content);
    let ls = normalized_lines(raw);
    lemma_kept_last(raw);
    assert forall|i: int| 0 <= i < ls.len() implies trim_end(#[trigger] ls[i]) == ls[i] by {
        lemma_trim_end_idempotent(raw[i]);
    }
    if ls.len() > 0 {
        assert(ls.last() == trim_end(raw[kept_count(raw) - 1]));
    }
}

// ---------------------------------------------------------------------------
// Favorites
// ---------------------------------------------------------------------------

proof fn lemma_keep_all<A>(s: Seq<A>, fav: spec_fn(A) -> bool, want: bool)
    ensures
        forall|i: int| 0 <= i < keep(s, fav, want).len() ==> fav(#[trigger] keep(s, fav, want)[i])
            == want,
        keep(s, fav, true).len() + keep(s, fav, false).len() == s.len(),
    decreases s.len(),
{
    if s.len() > 0 {
        lemma_keep_all(s.drop_last(), fav, want);
        lemma_keep_all(s.drop_last(), fav, !want);
        let r = keep(s.drop_last(), fav, want);
        assert forall|i: int| 0 <= i < keep(s, fav, want).len() implies fav(
            #[trigger] keep(s, fav, want)[i],
        ) == want by {
            if i < r.len() {
                assert(keep(s, fav, want)[i] == r[i]);
            }
        }
    }
}

proof fn lemma_keep_multiset<A>(s: Seq<A>, fav: spec_fn(A) -> bool)
    ensures
        keep(s, fav, true).to_multiset().add(keep(s, fav, false).to_multiset()) =~= s.to_multiset(),
    decreases s.len(),
{
    broadcast use vstd::seq_lib::group_to_multiset_ensures, vstd::multiset::group_multiset_axioms;

    if s.len() > 0 {
        lemma_keep_multiset(s.drop_last(), fav);
        assert(s.drop_last().push(s.last()) =~= s);
    } else {
        assert(keep(s, fav, true) =~= s);
        assert(keep(s, fav, false) =~= s);
    }
}

/// Favorites are pinned to the top: pinning rearranges the elements (the
/// same elements, as often each) so that no favorite comes after an element
/// that is not one.
pub proof fn law_pinned_favorites_first<A>(s: Seq<A>, fav: spec_fn(A) -> bool)
    ensures
        pinned(s, fav).to_multiset() == s.to_multiset(),
        forall|i: int, j: int|
            0 <= i < j < pinned(s, fav).len() && !fav(#[trigger] pinned(s, fav)[i]) ==> !fav(
                #[trigger] pinned(s, fav)[j],
            ),
{
    broadcast use vstd::seq_lib::group_to_multiset_ensures;

    lemma_keep_multiset(s, fav);
    vstd::seq_lib::lemma_multiset_commutative(keep(s, fav, true), keep(s, fav, false));
    lemma_keep_all(s, fav, true);
    lemma_keep_all(s, fav, false);
    let t = keep(s, fav, true);
    let f = keep(s, fav, false);
    let p = pinned(s, fav);
    assert forall|i: int, j: int| 0 <= i < j < p.len() && !fav(#[trigger] p[i]) implies !fav(
        #[trigger] p[j],
    ) by {
        if i < t.len() {
            assert(p[i] == t[i]);
        } else {
            assert(p[j] == f[j - t.len()]);
        }
    }
}

/// Toggling a favorite twice leaves the same favorites, and toggling never
/// makes a key appear twice.
pub proof fn law_favorite_toggle_twice(favorites: Seq<Seq<char>>, key: Seq<char>)
    ensures
        text_set(toggled(toggled(favorites, key), key)) == text_set(favorites),
        favorites.no_duplicates() ==> toggled(favorites, key).no_duplicates(),
{
    if favorites.no_duplicates() {
        lemma_toggled_no_duplicates(favorites, key);
    }
    let once = toggled(favorites, key);
    let twice = toggled(once, key);
    assert forall|y: Seq<char>| #[trigger] text_set(twice).contains(y) <==> text_set(
        favorites,
    ).contains(y) by {
        lemma_without_contains(favorites, key, y);
        lemma_without_contains(favorites.push(key), key, y);
        lemma_without_contains(favorites, key, key);
        if favorites.contains(y) {
            let i = choose|i: int| 0 <= i < favorites.len() && favorites[i] == y;
            assert(favorites.push(key)[i] == y);
        }
        if favorites.push(key).contains(y) && y != key {
            let i = choose|i: int| 0 <= i < favorites.push(key).len() && favorites.push(key)[i] == y;
            assert(favorites[i] == y);
        }
        assert(favorites.push(key)[favorites.len() as int] == key);
        assert(without(favorites, key).push(key)[without(favorites, key).len() as int] == key);
        if without(favorites, key).push(key).contains(y) && y != key {
            let i = choose|i: int|
                0 <= i < without(favorites, key).push(key).len() && without(favorites, key).push(
                    key,
                )[i] == y;
            assert(without(favorites, key)[i] == y);
        }
        if without(favorites, key).contains(y) {
            let i = choose|i: int|
                0 <= i < without(favorites, key).len() && without(favorites, key)[i] == y;
            assert(without(favorites, key).push(key)[i] == y);
        }
    }
    assert(text_set(twice) =~= text_set(favorites));
}

/// Stored favorites read back give the same list: adding each stored key
/// unless held, starting from none, rebuilds a list that holds each key once.
pub proof fn law_favorites_reload(favorites: Seq<Seq<char>>)
    requires
        favorites.no_duplicates(),
    ensures
        with_all_unique(seq![], favorites) == favorites,
    decreases favorites.len(),
{
    if favorites.len() > 0 {
        let d = favorites.drop_last();
        assert(d.no_duplicates());
        law_favorites_reload(d);
        assert(!d.contains(favorites.last())) by {
            if d.contains(favorites.last()) {
                let i = choose|i: int| 0 <= i < d.len() && d[i] == favorites.last();
                assert(favorites[i] == favorites[favorites.len() - 1]);
            }
        }
        assert(with_unique(d, favorites.last()) == d.push(favorites.last()));
        assert(d.push(favorites.last()) =~= favorites);
    } else {
        assert(favorites =~= Seq::<Seq<char>>::empty());
    }
}

// ---------------------------------------------------------------------------
// Keys
// ---------------------------------------------------------------------------

/// Collapsing with Space twice leaves the set of collapsed ids as it was.
pub proof fn law_collapse_toggle_twice(collapsed: Set<Seq<char>>, id: Seq<char>)
    ensures
        changed(changed(collapsed, id, SetChange::Toggle), id, SetChange::Toggle) == collapsed,
{
    assert(changed(changed(collapsed, id, SetChange::Toggle), id, SetChange::Toggle) =~= collapsed);
}

/// Ctrl-C quits from every screen, changing nothing else.
pub proof fn law_ctrl_c_quits(v: AppView, key: KeyEvent, inside_tmux: bool)
    requires
        key.code == KeyCode::Char('c'),
        key.control,
        !key.release,
    ensures
        key_result(v, key, inside_tmux) == Ok::<(AppView, EffectView), ArgsError>(
            (AppView { should_quit: true, ..v }, EffectView::Nothing),
        ),
{
}

/// Key releases change nothing.
pub proof fn law_release_ignored(v: AppView, key: KeyEvent, inside_tmux: bool)
    requires
        key.release,
    ensures
        key_result(v, key, inside_tmux) == Ok::<(AppView, EffectView), ArgsError>(
            (v, EffectView::Nothing),
        ),
{
}

/// No key changes how often the state is reloaded.
pub proof fn law_keys_keep_interval(v: AppView, key: KeyEvent, inside_tmux: bool)
    ensures
        key_result(v, key, inside_tmux) matches Ok((w, _)) ==> w.refresh_interval
            == v.refresh_interval,
{
}

/// In a prompt, typing a character and then Backspace gives back the state
/// from before.
pub proof fn law_type_then_erase(v: AppView, typed: KeyEvent, erase: KeyEvent, inside_tmux: bool)
    requires
        v.prompt is Some,
        typed.code is Char,
        !typed.control,
        !typed.release,
        erase.code == KeyCode::Backspace,
        !erase.release,
    ensures
        key_result(v, typed, inside_tmux) matches Ok((w, e)) && e == EffectView::Nothing
            && key_result(w, erase, inside_tmux) == Ok::<(AppView, EffectView), ArgsError>(
            (v, EffectView::Nothing),
        ),
{
    let p = v.prompt->Some_0;
    let c = typed.code->Char_0;
    let w = AppView { prompt: Some(PromptView { value: p.value.push(c), ..p }), ..v };
    assert(key_result(v, typed, inside_tmux) == Ok::<(AppView, EffectView), ArgsError>(
        (w, EffectView::Nothing),
    ));
    assert(p.value.push(c).drop_last() =~= p.value);
    assert(PromptView { value: p.value.push(c).drop_last(), ..p } == p);
}


// ---------------------------------------------------------------------------
// Search
// ---------------------------------------------------------------------------

/// A match in the rest of a text is a match in the text.
proof fn lemma_subsequence_cons(s: Seq<char>, p: Seq<char>)
    requires
        s.len() > 0,
        is_subsequence(s.drop_first(), p),
    ensures
        is_subsequence(s, p),
    decreases 2 * s.len(),
{
    if p.len() > 0 && s[0] == p[0] {
        lemma_subsequence_weaken(s.drop_first(), p);
    }
}

/// Dropping the first character of the pattern keeps a match.
proof fn lemma_subsequence_weaken(s: Seq<char>, p: Seq<char>)
    requires
        p.len() > 0,
        is_subsequence(s, p),
    ensures
        is_subsequence(s, p.drop_first()),
    decreases 2 * s.len() + 1,
{
    if s.len() > 0 {
        if s[0] == p[0] {
            lemma_subsequence_cons(s, p.drop_first());
        } else {
            lemma_subsequence_weaken(s.drop_first(), p);
            lemma_subsequence_cons(s, p.drop_first());
        }
    }
}

proof fn lemma_subsequence_skip(s: Seq<char>, p: Seq<char>, i: int)
    requires
        0 <= i <= s.len(),
        is_subsequence(s.skip(i), p),
    ensures
        is_subsequence(s, p),
    decreases i,
{
    if i > 0 {
        assert(s.skip(i - 1).drop_first() =~= s.skip(i));
        lemma_subsequence_cons(s.skip(i - 1), p);
        lemma_subsequence_skip(s, p, i - 1);
    } else {
        assert(s.skip(0) =~= s);
    }
}

proof fn lemma_prefix_subsequence(s: Seq<char>, p: Seq<char>)
    requires
        p.len() <= s.len(),
        s.subrange(0, p.len() as int) == p,
    ensures
        is_subsequence(s, p),
    decreases p.len(),
{
    if p.len() > 0 {
        assert(s[0] == p[0]);
        assert(s.drop_first().subrange(0, p.drop_first().len() as int) =~= p.drop_first());
        lemma_prefix_subsequence(s.drop_first(), p.drop_first());
    }
}

/// A word found as a whole in a text also matches it fuzzily: the search
/// finds everything a plain substring search would.
pub proof fn law_substring_matches(s: Seq<char>, p: Seq<char>)
    requires
        has_infix(s, p),
    ensures
        is_subsequence(s, p),
{
    let i = choose|i: int| occurs_at(s, p, i);
    assert(s.skip(i).subrange(0, p.len() as int) =~= s.subrange(i, i + p.len()));
    lemma_prefix_subsequence(s.skip(i), p);
    lemma_subsequence_skip(s, p, i);
}

/// A search with several words shows a row exactly when each of its words
/// would.
pub proof fn law_search_words_all_match(item: ItemView, a: Seq<Seq<char>>, b: Seq<Seq<char>>)
    ensures
        item_matches(item, a + b) <==> item_matches(item, a) && item_matches(item, b),
{
    if item_matches(item, a + b) {
        assert forall|j: int| 0 <= j < a.len() implies word_matches(item_fields(item), #[trigger] a[j]) by {
            assert((a + b)[j] == a[j]);
        }
        assert forall|j: int| 0 <= j < b.len() implies word_matches(item_fields(item), #[trigger] b[j]) by {
            assert((a + b)[a.len() + j] == b[j]);
        }
    }
    if item_matches(item, a) && item_matches(item, b) {
        assert forall|j: int| 0 <= j < (a + b).len() implies word_matches(
            item_fields(item),
            #[trigger] (a + b)[j],
        ) by {
            if j < a.len() {
                assert((a + b)[j] == a[j]);
            } else {
                assert((a + b)[j] == b[j - a.len()]);
            }
        }
    }
}


proof fn lemma_blocks_contains<A>(s: Seq<A>, f: spec_fn(A) -> Seq<ItemView>, x: A, y: ItemView)
    requires
        s.contains(x),
        f(x).contains(y),
    ensures
        blocks(s, f).contains(y),
    decreases s.len(),
{
    let fx = f(x);
    let k = choose|k: int| 0 <= k < fx.len() && fx[k] == y;
    if s.last() == x {
        let b = blocks(s.drop_last(), f);
        assert((b + fx)[b.len() + k] == y);
    } else {
        let i = choose|i: int| 0 <= i < s.len() && s[i] == x;
        assert(s.drop_last()[i] == x);
        lemma_blocks_contains(s.drop_last(), f, x, y);
        let b = blocks(s.drop_last(), f);
        let j = choose|j: int| 0 <= j < b.len() && b[j] == y;
        assert((b + f(s.last()))[j] == y);
    }
}

proof fn lemma_keep_contains<A>(s: Seq<A>, fav: spec_fn(A) -> bool, x: A)
    requires
        s.contains(x),
    ensures
        keep(s, fav, fav(x)).contains(x),
    decreases s.len(),
{
    let r = keep(s.drop_last(), fav, fav(x));
    if s.last() == x {
        assert(keep(s, fav, fav(x))[r.len() as int] == x);
    } else {
        let i = choose|i: int| 0 <= i < s.len() && s[i] == x;
        assert(s.drop_last()[i] == x);
        lemma_keep_contains(s.drop_last(), fav, x);
        let j = choose|j: int| 0 <= j < r.len() && r[j] == x;
        if fav(s.last()) == fav(x) {
            assert(r.push(s.last())[j] == x);
        }
    }
}

proof fn lemma_pinned_contains<A>(s: Seq<A>, fav: spec_fn(A) -> bool, x: A)
    requires
        s.contains(x),
    ensures
        pinned(s, fav).contains(x),
{
    lemma_keep_contains(s, fav, x);
    let t = keep(s, fav, true);
    let f = keep(s, fav, false);
    if fav(x) {
        let j = choose|j: int| 0 <= j < t.len() && t[j] == x;
        assert((t + f)[j] == x);
    } else {
        let j = choose|j: int| 0 <= j < f.len() && f[j] == x;
        assert((t + f)[t.len() + j] == x);
    }
}

/// A search shows every pane that matches it (with its favorite mark), in
/// every session and window, whatever is collapsed.
pub proof fn law_search_shows_matching_panes(
    ss: Seq<SessionView>,
    words: Seq<Seq<char>>,
    collapsed_sessions: Set<Seq<char>>,
    collapsed_windows: Set<Seq<char>>,
    favorites: Set<Seq<char>>,
    s: SessionView,
    w: WindowView,
    p: PaneView,
)
    requires
        words.len() > 0,
        ss.contains(s),
        s.windows.contains(w),
        w.panes.contains(p),
        item_matches(pane_item_of(s, w, p), words),
    ensures
        all_rows(ss, words, collapsed_sessions, collapsed_windows, favorites).contains(
            marked(pane_item_of(s, w, p), favorites),
        ),
{
    let row = marked(pane_item_of(s, w, p), favorites);
    let wi = window_item_of(s, w);
    let si = session_item_of(s);
    let session_match = item_matches(si, words);
    let window_match = item_matches(wi, words);
    let keep_all = session_match || window_match;
    let pb = pane_block(s, w, words, keep_all, favorites);
    assert(pb(p) == seq![row]);
    assert(pb(p)[0] == row);
    lemma_pinned_contains(w.panes, pane_fav(s, w, favorites), p);
    lemma_blocks_contains(pinned(w.panes, pane_fav(s, w, favorites)), pb, p, row);
    let panes = matching_panes(s, w, w.panes, words, keep_all, favorites);
    assert(panes.contains(row));
    let wb = window_block(s, w, words, session_match, favorites);
    let j = choose|j: int| 0 <= j < panes.len() && panes[j] == row;
    assert(wb == seq![marked(wi, favorites)] + panes);
    assert(wb[1 + j] == row);
    let swb = searched_window_block(s, words, session_match, favorites);
    assert(swb(w) == wb);
    lemma_pinned_contains(s.windows, window_fav(s, favorites), w);
    lemma_blocks_contains(pinned(s.windows, window_fav(s, favorites)), swb, w, row);
    let block = filtered_windows(s, s.windows, words, session_match, favorites);
    let k = choose|k: int| 0 <= k < block.len() && block[k] == row;
    let fr = filtered_rows(s, words, favorites);
    assert(fr == seq![marked(si, favorites)] + block);
    assert(fr[1 + k] == row);
    let sb = session_block(words, collapsed_sessions, collapsed_windows, favorites);
    assert(sb(s) == fr);
    lemma_pinned_contains(ss, session_fav(favorites), s);
    lemma_blocks_contains(pinned(ss, session_fav(favorites)), sb, s, row);
}


/// Without a search every session has its row, collapsed or not.
pub proof fn law_every_session_shown(
    ss: Seq<SessionView>,
    collapsed_sessions: Set<Seq<char>>,
    collapsed_windows: Set<Seq<char>>,
    favorites: Set<Seq<char>>,
    s: SessionView,
)
    requires
        ss.contains(s),
    ensures
        all_rows(ss, seq![], collapsed_sessions, collapsed_windows, favorites).contains(
            marked(session_item_of(s), favorites),
        ),
{
    let row = marked(session_item_of(s), favorites);
    let sb = session_block(seq![], collapsed_sessions, collapsed_windows, favorites);
    let ur = crate::rows::unfiltered_rows(s, collapsed_sessions, collapsed_windows, favorites);
    assert(sb(s) == ur);
    assert(ur[0] == row);
    lemma_pinned_contains(ss, session_fav(favorites), s);
    lemma_blocks_contains(pinned(ss, session_fav(favorites)), sb, s, row);
}

// ---------------------------------------------------------------------------
// Loading
// ---------------------------------------------------------------------------

/// A server reached under several names is loaded once: handing over an
/// identity already loaded adds no session, and the loaded identities stay
/// distinct.
pub proof fn law_server_identities_loaded_once(pre: LoadView, identity: Seq<char>)
    requires
        pre.loaded.no_duplicates(),
    ensures
        identified(pre, identity).loaded.no_duplicates(),
        pre.loaded.contains(identity) ==> identified(pre, identity).sessions == pre.sessions,
{
    let post = identified(pre, identity);
    if !pre.loaded.contains(identity) {
        let l = pre.loaded.push(identity);
        assert forall|i: int, j: int| 0 <= i < l.len() && 0 <= j < l.len() && i != j implies l[i]
            != l[j] by {
            if i == pre.loaded.len() {
                assert(pre.loaded.contains(l[j]));
            } else if j == pre.loaded.len() {
                assert(pre.loaded.contains(l[i]));
            }
        }
    }
}


// ---------------------------------------------------------------------------
// Typed commands
// ---------------------------------------------------------------------------

/// No quote or backslash.
pub open spec fn is_plain(s: Seq<char>) -> bool {
    forall|i: int| 0 <= i < s.len() ==> !is_quote(#[trigger] s[i]) && s[i] != '\\'
}

proof fn lemma_plain_split_prefix(s: Seq<char>, k: int)
    requires
        is_plain(s),
        0 <= k <= s.len(),
    ensures
        ({
            let st = split_run(s.take(k));
            &&& st.quote is None
            &&& !st.escaped
            &&& st.in_arg == (st.current.len() > 0)
            &&& words(s) == st.args + words_from(s.skip(k), st.current)
        }),
    decreases k,
{
    if k == 0 {
        assert(s.take(0) =~= Seq::<char>::empty());
        assert(s.skip(0) =~= s);
        assert(split_run(s.take(0)).args + words_from(s, seq![]) =~= words_from(s, seq![]));
    } else {
        lemma_plain_split_prefix(s, k - 1);
        let prev = split_run(s.take(k - 1));
        let c = s[k - 1];
        assert(s.take(k).drop_last() =~= s.take(k - 1));
        assert(s.take(k).last() == c);
        let t = s.skip(k - 1);
        assert(t[0] == c);
        assert(t.drop_first() =~= s.skip(k));
        let st = split_run(s.take(k));
        assert(st == split_step(prev, c));
        assert(!is_quote(c) && c != '\\');
        if is_ws(c) {
            if prev.in_arg {
                assert(prev.args + (seq![prev.current] + words_from(s.skip(k), seq![])) =~= prev.args.push(
                    prev.current,
                ) + words_from(s.skip(k), seq![]));
            } else {
                assert(prev.current =~= Seq::<char>::empty());
                assert(prev.args + (Seq::<Seq<char>>::empty() + words_from(s.skip(k), seq![]))
                    =~= prev.args + words_from(s.skip(k), prev.current));
            }
        }
    }
}

/// A typed command with no quote or backslash splits into its
/// whitespace-separated words (unless the first is `tmux`, which is
/// refused).
pub proof fn law_plain_command_splits_into_words(s: Seq<char>)
    requires
        is_plain(s),
    ensures
        split_command_line(s) == if words(s).len() > 0 && words(s)[0] == "tmux"@ {
            Err::<Seq<Seq<char>>, ArgsError>(ArgsError::LeadingTmuxWord)
        } else {
            Ok::<Seq<Seq<char>>, ArgsError>(words(s))
        },
{
    lemma_plain_split_prefix(s, s.len() as int);
    assert(s.take(s.len() as int) =~= s);
    let st = split_run(s);
    assert(s.skip(s.len() as int) =~= Seq::<char>::empty());
    if st.in_arg {
        assert(st.args + words_from(Seq::<char>::empty(), st.current) =~= st.args.push(st.current));
    } else {
        assert(st.args + words_from(Seq::<char>::empty(), st.current) =~= st.args);
    }
}


// ---------------------------------------------------------------------------
// Selection and preview
// ---------------------------------------------------------------------------

/// Moving the selection down and back up returns to the same row when there
/// is a row below.
pub proof fn law_down_then_up(v: AppView)
    requires
        v.selected + 1 < v.items.len(),
    ensures
        moved(moved(v, 1), -1).selected == v.selected,
{
}

/// The size a preview is scaled from reaches every pane's right and bottom
/// edge, so no pane starts outside the preview.
pub proof fn law_source_covers_panes(panes: Seq<PanePreviewView>, i: int)
    requires
        0 <= i < panes.len(),
    ensures
        panes[i].left.saturating_add(panes[i].width) <= source_width_of(panes),
        panes[i].top.saturating_add(panes[i].height) <= source_height_of(panes),
    decreases panes.len(),
{
    if i < panes.len() - 1 {
        law_source_covers_panes(panes.drop_last(), i);
        assert(panes.drop_last()[i] == panes[i]);
    }
}


// ---------------------------------------------------------------------------
// Parsed sessions are well formed
// ---------------------------------------------------------------------------

/// No two elements share a key.
pub open spec fn distinct_keys<A>(s: Seq<A>, key: spec_fn(A) -> Seq<char>) -> bool {
    forall|i: int, j: int| 0 <= i < j < s.len() ==> key(#[trigger] s[i]) != key(#[trigger] s[j])
}

pub open spec fn window_key() -> spec_fn(WindowView) -> Seq<char> {
    |w: WindowView| w.id
}

pub open spec fn pane_key() -> spec_fn(PaneView) -> Seq<char> {
    |p: PaneView| p.id
}

pub open spec fn session_key() -> spec_fn(SessionView) -> Seq<char> {
    |s: SessionView| s.id
}

/// A session on `server` whose windows have distinct ids, each with panes of
/// distinct ids.
pub open spec fn session_ok(s: SessionView, server: ServerView) -> bool {
    &&& s.server == server
    &&& distinct_keys(s.windows, window_key())
    &&& forall|m: int| 0 <= m < s.windows.len() ==> distinct_keys(#[trigger] s.windows[m].panes, pane_key())
}

proof fn lemma_first_index_facts<A>(s: Seq<A>, x: A)
    ensures
        0 <= first_index(s, x) <= s.len(),
        first_index(s, x) < s.len() ==> s[first_index(s, x)] == x,
        first_index(s, x) == s.len() ==> !s.contains(x),
    decreases s.len(),
{
    if s.len() > 0 && s[0] != x {
        lemma_first_index_facts(s.drop_first(), x);
        if first_index(s, x) == s.len() && s.contains(x) {
            let k = choose|k: int| 0 <= k < s.len() && s[k] == x;
            assert(s.drop_first()[k - 1] == x);
        }
    }
}

proof fn lemma_push_distinct<A>(s: Seq<A>, key: spec_fn(A) -> Seq<char>, x: A)
    requires
        distinct_keys(s, key),
        forall|k: int| 0 <= k < s.len() ==> key(#[trigger] s[k]) != key(x),
    ensures
        distinct_keys(s.push(x), key),
{
    assert forall|i: int, j: int| 0 <= i < j < s.push(x).len() implies key(
        #[trigger] s.push(x)[i],
    ) != key(#[trigger] s.push(x)[j]) by {
        if j == s.len() {
            assert(key(s[i]) != key(x));
        } else {
            assert(key(s[i]) != key(s[j]));
        }
    }
}

proof fn lemma_add_pane_row_ok(w: WindowView, f: Seq<Seq<char>>)
    requires
        distinct_keys(w.panes, pane_key()),
    ensures
        distinct_keys(add_pane_row(w, f).panes, pane_key()),
        add_pane_row(w, f).id == w.id,
{
    if !pane_ids(w.panes).contains(f[12]) {
        assert forall|k: int| 0 <= k < w.panes.len() implies pane_key()(#[trigger] w.panes[k])
            != pane_key()(new_pane(f)) by {
            assert(pane_ids(w.panes)[k] == w.panes[k].id);
        }
        lemma_push_distinct(w.panes, pane_key(), new_pane(f));
    }
}

proof fn lemma_add_window_row_ok(s: SessionView, server: ServerView, f: Seq<Seq<char>>)
    requires
        session_ok(s, server),
    ensures
        session_ok(add_window_row(s, f), server),
        add_window_row(s, f).id == s.id,
{
    let ids = window_ids(s.windows);
    let j = first_index(ids, f[5]);
    lemma_first_index_facts(ids, f[5]);
    let ws = if j < s.windows.len() {
        s.windows
    } else {
        s.windows.push(new_window(f))
    };
    if j >= s.windows.len() {
        assert forall|k: int| 0 <= k < s.windows.len() implies window_key()(
            #[trigger] s.windows[k],
        ) != window_key()(new_window(f)) by {
            assert(ids[k] == s.windows[k].id);
        }
        lemma_push_distinct(s.windows, window_key(), new_window(f));
        assert(new_window(f).panes =~= Seq::<PaneView>::empty());
    }
    assert(forall|m: int| 0 <= m < ws.len() ==> distinct_keys(#[trigger] ws[m].panes, pane_key()));
    lemma_add_pane_row_ok(ws[j], f);
    let r = add_window_row(s, f);
    assert(r.windows == ws.update(j, add_pane_row(ws[j], f)));
    assert forall|a: int, b: int| 0 <= a < b < r.windows.len() implies window_key()(
        #[trigger] r.windows[a],
    ) != window_key()(#[trigger] r.windows[b]) by {
        assert(window_key()(ws[a]) != window_key()(ws[b]));
    }
    assert forall|m: int| 0 <= m < r.windows.len() implies distinct_keys(
        #[trigger] r.windows[m].panes,
        pane_key(),
    ) by {
        if m != j {
            assert(r.windows[m] == ws[m]);
        }
    }
}

proof fn lemma_add_row_ok(ss: Seq<SessionView>, server: ServerView, f: Seq<Seq<char>>)
    requires
        distinct_keys(ss, session_key()),
        forall|k: int| 0 <= k < ss.len() ==> session_ok(#[trigger] ss[k], server),
    ensures
        distinct_keys(add_row(ss, server, f), session_key()),
        forall|k: int| 0 <= k < add_row(ss, server, f).len() ==> session_ok(
            #[trigger] add_row(ss, server, f)[k],
            server,
        ),
{
    let ids = session_ids(ss);
    let i = first_index(ids, f[0]);
    lemma_first_index_facts(ids, f[0]);
    let ss2 = if i < ss.len() {
        ss
    } else {
        ss.push(new_session(server, f))
    };
    if i >= ss.len() {
        assert forall|k: int| 0 <= k < ss.len() implies session_key()(#[trigger] ss[k])
            != session_key()(new_session(server, f)) by {
            assert(ids[k] == ss[k].id);
        }
        lemma_push_distinct(ss, session_key(), new_session(server, f));
        assert(new_session(server, f).windows =~= Seq::<WindowView>::empty());
    }
    assert(forall|k: int| 0 <= k < ss2.len() ==> session_ok(#[trigger] ss2[k], server));
    lemma_add_window_row_ok(ss2[i], server, f);
    let r = add_row(ss, server, f);
    assert(r == ss2.update(i, add_window_row(ss2[i], f)));
    assert forall|a: int, b: int| 0 <= a < b < r.len() implies session_key()(#[trigger] r[a])
        != session_key()(#[trigger] r[b]) by {
        assert(session_key()(ss2[a]) != session_key()(ss2[b]));
    }
    assert forall|k: int| 0 <= k < r.len() implies session_ok(#[trigger] r[k], server) by {
        if k != i {
            assert(r[k] == ss2[k]);
        }
    }
}

proof fn lemma_group_rows_ok(ls: Seq<Seq<char>>, server: ServerView, sep: char)
    ensures
        distinct_keys(group_rows(ls, server, sep), session_key()),
        forall|k: int| 0 <= k < group_rows(ls, server, sep).len() ==> session_ok(
            #[trigger] group_rows(ls, server, sep)[k],
            server,
        ),
    decreases ls.len(),
{
    if ls.len() > 0 {
        lemma_group_rows_ok(ls.drop_last(), server, sep);
        if is_row(ls.last(), sep) {
            lemma_add_row_ok(group_rows(ls.drop_last(), server, sep), server, split(ls.last(), sep));
        }
    }
}

/// `insert_sorted` puts `x` somewhere among the elements, which keep their
/// order.
proof fn lemma_insert_sorted_is_insert<A>(s: Seq<A>, x: A, le: spec_fn(A, A) -> bool)
    ensures
        exists|p: int| 0 <= p <= s.len() && insert_sorted(s, x, le) == s.insert(p, x),
    decreases s.len(),
{
    if s.len() == 0 {
        assert(insert_sorted(s, x, le) =~= s.insert(0, x));
    } else if le(s.last(), x) {
        assert(insert_sorted(s, x, le) =~= s.insert(s.len() as int, x));
    } else {
        lemma_insert_sorted_is_insert(s.drop_last(), x, le);
        let p = choose|p: int|
            0 <= p <= s.drop_last().len() && insert_sorted(s.drop_last(), x, le)
                == s.drop_last().insert(p, x);
        assert(s.drop_last().insert(p, x).push(s.last()) =~= s.insert(p, x));
    }
}

proof fn lemma_sort_by_keeps<A>(s: Seq<A>, le: spec_fn(A, A) -> bool, key: spec_fn(A) -> Seq<char>)
    ensures
        sort_by(s, le).len() == s.len(),
        forall|y: A| sort_by(s, le).contains(y) <==> s.contains(y),
        distinct_keys(s, key) ==> distinct_keys(sort_by(s, le), key),
    decreases s.len(),
{
    if s.len() > 0 {
        let d = s.drop_last();
        let x = s.last();
        lemma_sort_by_keeps(d, le, key);
        let t = sort_by(d, le);
        lemma_insert_sorted_is_insert(t, x, le);
        let p = choose|p: int| 0 <= p <= t.len() && insert_sorted(t, x, le) == t.insert(p, x);
        let r = t.insert(p, x);
        assert forall|y: A| r.contains(y) <==> s.contains(y) by {
            lemma_insert_sorted_contains(t, x, le, y);
            if d.contains(y) {
                let k = choose|k: int| 0 <= k < d.len() && d[k] == y;
                assert(s[k] == y);
            }
            if s.contains(y) && y != x {
                let k = choose|k: int| 0 <= k < s.len() && s[k] == y;
                assert(d[k] == y);
            }
            assert(s[s.len() - 1] == x);
        }
        if distinct_keys(s, key) {
            assert(distinct_keys(d, key)) by {
                assert forall|i: int, j: int| 0 <= i < j < d.len() implies key(#[trigger] d[i])
                    != key(#[trigger] d[j]) by {
                    assert(key(s[i]) != key(s[j]));
                }
            }
            assert forall|i: int, j: int| 0 <= i < j < r.len() implies key(#[trigger] r[i]) != key(
                #[trigger] r[j],
            ) by {
                assert forall|k: int| 0 <= k < t.len() implies key(#[trigger] t[k]) != key(x) by {
                    assert(t.contains(t[k]));
                    assert(d.contains(t[k]));
                    let m = choose|m: int| 0 <= m < d.len() && d[m] == t[k];
                    assert(s[m] == d[m]);
                    assert(key(s[m]) != key(s[s.len() - 1]));
                }
                if i < p && j < p {
                    assert(key(t[i]) != key(t[j]));
                } else if i < p && j == p {
                    assert(key(t[i]) != key(x));
                } else if i < p {
                    assert(r[j] == t[j - 1]);
                    assert(key(t[i]) != key(t[j - 1]));
                } else if i == p {
                    assert(r[j] == t[j - 1]);
                    assert(key(t[j - 1]) != key(x));
                } else {
                    assert(r[i] == t[i - 1] && r[j] == t[j - 1]);
                    assert(key(t[i - 1]) != key(t[j - 1]));
                }
            }
        }
    }
}

proof fn lemma_sorted_session_ok(s: SessionView, server: ServerView)
    requires
        session_ok(s, server),
    ensures
        session_ok(sort_session_windows(s), server),
{
    let ws = s.windows;
    lemma_sort_by_keeps(ws, window_order(), window_key());
    let sw = sort_by(ws, window_order());
    let r = sort_session_windows(s);
    assert(r.windows == windows_in_order(ws));
    assert forall|a: int, b: int| 0 <= a < b < r.windows.len() implies window_key()(
        #[trigger] r.windows[a],
    ) != window_key()(#[trigger] r.windows[b]) by {
        assert(window_key()(sw[a]) != window_key()(sw[b]));
    }
    assert forall|m: int| 0 <= m < r.windows.len() implies distinct_keys(
        #[trigger] r.windows[m].panes,
        pane_key(),
    ) by {
        let w = sw[m];
        assert(sw.contains(w));
        assert(ws.contains(w));
        let k = choose|k: int| 0 <= k < ws.len() && ws[k] == w;
        assert(distinct_keys(ws[k].panes, pane_key()));
        lemma_sort_by_keeps(w.panes, pane_order(), pane_key());
        assert(r.windows[m] == sort_window_panes(w));
    }
}

/// Parsed `list-panes` output is well formed: every session is on the server
/// that was asked, no two sessions share an id, and within a session no two
/// windows, within a window no two panes.
pub proof fn law_parsed_sessions_distinct(output: Seq<char>, server: ServerView, sep: char)
    ensures
        ({
            let ss = parsed_sessions(output, server, sep);
            &&& forall|k: int| 0 <= k < ss.len() ==> (#[trigger] ss[k]).server == server
            &&& forall|i: int, j: int| 0 <= i < j < ss.len() ==> (#[trigger] ss[i]).id != (
            #[trigger] ss[j]).id
            &&& forall|k: int, i: int, j: int|
                0 <= k < ss.len() && 0 <= i < j < ss[k].windows.len() ==> (
                #[trigger] ss[k].windows[i]).id != (#[trigger] ss[k].windows[j]).id
            &&& forall|k: int, m: int, i: int, j: int|
                0 <= k < ss.len() && 0 <= m < ss[k].windows.len() && 0 <= i < j
                    < ss[k].windows[m].panes.len() ==> (#[trigger] ss[k].windows[m].panes[i]).id
                    != (#[trigger] ss[k].windows[m].panes[j]).id
        }),
{
    let g = group_rows(lines(output), server, sep);
    lemma_group_rows_ok(lines(output), server, sep);
    lemma_sort_by_keeps(g, session_order(), session_key());
    let sorted = sort_by(g, session_order());
    let ss = parsed_sessions(output, server, sep);
    assert(ss == sorted.map_values(|s: SessionView| sort_session_windows(s)));
    assert forall|k: int| 0 <= k < ss.len() implies session_ok(#[trigger] ss[k], server) by {
        assert(sorted.contains(sorted[k]));
        assert(g.contains(sorted[k]));
        let m = choose|m: int| 0 <= m < g.len() && g[m] == sorted[k];
        assert(session_ok(g[m], server));
        lemma_sorted_session_ok(sorted[k], server);
    }
    assert forall|i: int, j: int| 0 <= i < j < ss.len() implies (#[trigger] ss[i]).id != (
    #[trigger] ss[j]).id by {
        assert(session_key()(sorted[i]) != session_key()(sorted[j]));
    }
    assert forall|k: int, i: int, j: int|
        0 <= k < ss.len() && 0 <= i < j < ss[k].windows.len() implies (
        #[trigger] ss[k].windows[i]).id != (#[trigger] ss[k].windows[j]).id by {
        assert(session_ok(ss[k], server));
        assert(window_key()(ss[k].windows[i]) != window_key()(ss[k].windows[j]));
    }
    assert forall|k: int, m: int, i: int, j: int|
        0 <= k < ss.len() && 0 <= m < ss[k].windows.len() && 0 <= i < j
            < ss[k].windows[m].panes.len() implies (#[trigger] ss[k].windows[m].panes[i]).id != (
    #[trigger] ss[k].windows[m].panes[j]).id by {
        assert(session_ok(ss[k], server));
        assert(distinct_keys(ss[k].windows[m].panes, pane_key()));
        assert(pane_key()(ss[k].windows[m].panes[i]) != pane_key()(ss[k].windows[m].panes[j]));
    }
}

// ---------------------------------------------------------------------------
// Rebuilding the rows
// ---------------------------------------------------------------------------

/// Rebuilding the rows keeps the selection where it was when that row still
/// exists, else on the last row (or 0 when there is none); the detail scroll
/// resets exactly when the selection moved; the state, filter, status,
/// collapsed sets and favorites stay as they were.
pub proof fn law_rebuild_keeps_selection(v: AppView)
    ensures
        ({
            let r = rebuilt(v);
            &&& r.items == all_rows(
                v.state.sessions,
                filter_words(v.filter),
                v.collapsed_sessions,
                v.collapsed_windows,
                text_set(v.favorites),
            )
            &&& r.items.len() == 0 ==> r.selected == 0
            &&& r.items.len() > 0 ==> r.selected == if v.selected < r.items.len() - 1 {
                v.selected
            } else {
                (r.items.len() - 1) as nat
            }
            &&& r.detail_scroll == if r.selected == v.selected {
                v.detail_scroll
            } else {
                0
            }
            &&& r.state == v.state && r.filter == v.filter && r.status == v.status
            &&& r.collapsed_sessions == v.collapsed_sessions
            &&& r.collapsed_windows == v.collapsed_windows
            &&& r.favorites == v.favorites
        }),
{
}

// ---------------------------------------------------------------------------
// The favorites file
// ---------------------------------------------------------------------------

proof fn lemma_stored_lines(keys: Seq<Seq<char>>)
    requires
        forall|k: int| 0 <= k < keys.len() ==> storable(#[trigger] keys[k]),
    ensures
        lines(stored_text(keys)) == keys,
    decreases keys.len(),
{
    if keys.len() > 0 {
        let k0 = keys[0];
        let rest = keys.drop_first();
        assert forall|k: int| 0 <= k < rest.len() implies storable(#[trigger] rest[k]) by {
            assert(rest[k] == keys[k + 1]);
        }
        lemma_stored_lines(rest);
        let s = stored_text(keys);
        assert(storable(k0));
        assert(k0.len() > 0);
        assert(s == k0 + seq!['\n'] + stored_text(rest));
        assert(s[k0.len() as int] == '\n');
        assert forall|j: int| 0 <= j < k0.len() implies s[j] != '\n' by {
            assert(s[j] == k0[j]);
        }
        lemma_index_of(s, '\n', k0.len() as int);
        assert(s.take(k0.len() as int) =~= k0);
        assert(s.skip(k0.len() + 1int) =~= stored_text(rest));
        assert(strip_cr(k0) == k0);
        assert(lines(s) == seq![k0] + lines(stored_text(rest)));
        assert(seq![k0] + rest =~= keys);
    }
}

proof fn lemma_nonblank_keeps(ls: Seq<Seq<char>>)
    requires
        forall|k: int| 0 <= k < ls.len() ==> !is_blank(#[trigger] ls[k]),
    ensures
        nonblank_lines(ls) == ls,
    decreases ls.len(),
{
    if ls.len() > 0 {
        let d = ls.drop_last();
        assert forall|k: int| 0 <= k < d.len() implies !is_blank(#[trigger] d[k]) by {
            assert(d[k] == ls[k]);
        }
        lemma_nonblank_keeps(d);
        assert(!is_blank(ls[ls.len() - 1]));
        assert(d.push(ls.last()) =~= ls);
    }
}

/// Reading back the favorites file gives the keys that were written, in
/// order, when each key is not blank, holds no newline and does not end in a
/// carriage return.
pub proof fn law_favorites_file_round_trip(keys: Seq<Seq<char>>)
    requires
        forall|k: int| 0 <= k < keys.len() ==> storable(#[trigger] keys[k]),
    ensures
        stored_keys(stored_text(keys)) == keys,
{
    lemma_stored_lines(keys);
    assert forall|k: int| 0 <= k < keys.len() implies !is_blank(#[trigger] keys[k]) by {
        assert(storable(keys[k]));
    }
    lemma_nonblank_keeps(keys);
}

// ---------------------------------------------------------------------------
// Pane names
// ---------------------------------------------------------------------------

proof fn lemma_trim_end_nonblank(s: Seq<char>)
    requires
        !is_blank(s),
    ensures
        !is_blank(trim_end(s)),
    decreases s.len(),
{
    let i = choose|i: int| 0 <= i < s.len() && !is_ws(s[i]);
    if s.len() > 0 && is_ws(s.last()) {
        assert(s.drop_last()[i] == s[i]);
        lemma_trim_end_nonblank(s.drop_last());
    }
}

proof fn lemma_trim_start_nonblank(s: Seq<char>)
    requires
        !is_blank(s),
    ensures
        !is_blank(trim_start(s)),
    decreases s.len(),
{
    let i = choose|i: int| 0 <= i < s.len() && !is_ws(s[i]);
    if s.len() > 0 && is_ws(s[0]) {
        assert(s.drop_first()[i - 1] == s[i]);
        lemma_trim_start_nonblank(s.drop_first());
    }
}

/// Text that is not blank keeps some character when trimmed.
pub proof fn lemma_trim_nonblank(s: Seq<char>)
    requires
        !is_blank(s),
    ensures
        trim(s).len() > 0,
{
    lemma_trim_end_nonblank(s);
    lemma_trim_start_nonblank(trim_end(s));
}

/// A pane whose title is not blank is shown by its trimmed title, whatever
/// its command: the row's name, its label `[P] <index>: <title>`, its
/// details and its preview all use it.
pub proof fn law_pane_named_by_title(s: SessionView, w: WindowView, p: PaneView)
    requires
        !is_blank(p.title),
    ensures
        pane_item_of(s, w, p).name == trim(p.title),
        pane_item_of(s, w, p).label == "[P] "@ + p.index + ": "@ + trim(p.title),
        pane_item_of(s, w, p).details[5] == ("Name"@, trim(p.title)),
        pane_item_of(s, w, p).preview == Some(
            PreviewView {
                title: "Pane "@ + p.index + " - "@ + trim(p.title),
                panes: seq![pane_preview_of(p, true)],
            },
        ),
{
    lemma_trim_nonblank(p.title);
}

/// A pane with a blank title is named by its command when that is not blank,
/// else by its id.
pub proof fn law_pane_named_by_command_or_id(s: SessionView, w: WindowView, p: PaneView)
    requires
        is_blank(p.title),
    ensures
        pane_item_of(s, w, p).name == if !is_blank(p.command) {
            p.command
        } else {
            p.id
        },
{
    assert(trim(p.title).len() == 0) by {
        if trim(p.title).len() != 0 {
            lemma_blank_trim_empty(p.title);
        }
    }
    if !is_blank(p.command) {
        lemma_trim_nonblank(p.command);
    } else {
        lemma_blank_trim_empty(p.command);
    }
}

proof fn lemma_blank_trim_end(s: Seq<char>)
    requires
        is_blank(s),
    ensures
        trim_end(s).len() == 0,
    decreases s.len(),
{
    if s.len() > 0 {
        assert(is_ws(s[s.len() - 1]));
        lemma_blank_trim_end(s.drop_last());
    }
}

/// Blank text trims to nothing.
pub proof fn lemma_blank_trim_empty(s: Seq<char>)
    requires
        is_blank(s),
    ensures
        trim(s).len() == 0,
{
    lemma_blank_trim_end(s);
}

// ---------------------------------------------------------------------------
// Moving the selection
// ---------------------------------------------------------------------------

/// On the main screen, Up (or `k`) moves the selection one row up, staying
/// on the first row; the detail scroll resets when the selection moved;
/// nothing else changes.
pub proof fn law_up_moves_up(v: AppView, key: KeyEvent, inside_tmux: bool)
    requires
        key.code == KeyCode::Up || (key.code == KeyCode::Char('k') && !key.control),
        !key.release,
        v.prompt is None,
        v.confirm is None,
        !v.show_help,
        !v.show_diagnostics,
        v.selected < v.items.len(),
    ensures
        key_result(v, key, inside_tmux) == Ok::<(AppView, EffectView), ArgsError>(
            (
                AppView {
                    selected: if v.selected > 0 {
                        (v.selected - 1) as nat
                    } else {
                        0
                    },
                    detail_scroll: if v.selected > 0 {
                        0
                    } else {
                        v.detail_scroll
                    },
                    ..v
                },
                EffectView::Nothing,
            ),
        ),
{
}

/// On the main screen, Down (or `j`) moves the selection one row down,
/// staying on the last row; the detail scroll resets when the selection
/// moved; nothing else changes.
pub proof fn law_down_moves_down(v: AppView, key: KeyEvent, inside_tmux: bool)
    requires
        key.code == KeyCode::Down || (key.code == KeyCode::Char('j') && !key.control),
        !key.release,
        v.prompt is None,
        v.confirm is None,
        !v.show_help,
        !v.show_diagnostics,
        v.selected < v.items.len(),
    ensures
        key_result(v, key, inside_tmux) == Ok::<(AppView, EffectView), ArgsError>(
            (
                AppView {
                    selected: if v.selected + 1 < v.items.len() {
                        v.selected + 1
                    } else {
                        v.selected
                    },
                    detail_scroll: if v.selected + 1 < v.items.len() {
                        0
                    } else {
                        v.detail_scroll
                    },
                    ..v
                },
                EffectView::Nothing,
            ),
        ),
{
}

// ---------------------------------------------------------------------------
// The window a session is previewed by
// ---------------------------------------------------------------------------

proof fn lemma_first_active_at(ws: Seq<WindowView>, k: int)
    requires
        0 <= k < ws.len(),
        ws[k].active,
        forall|j: int| 0 <= j < k ==> !(#[trigger] ws[j]).active,
    ensures
        crate::tree::first_active(ws) == Some(ws[k]),
    decreases k,
{
    if k > 0 {
        assert(!ws[0].active);
        let d = ws.drop_first();
        assert forall|j: int| 0 <= j < k - 1 implies !(#[trigger] d[j]).active by {
            assert(d[j] == ws[j + 1]);
        }
        lemma_first_active_at(d, k - 1);
    }
}

proof fn lemma_first_active_none(ws: Seq<WindowView>)
    requires
        forall|j: int| 0 <= j < ws.len() ==> !(#[trigger] ws[j]).active,
    ensures
        crate::tree::first_active(ws) is None,
    decreases ws.len(),
{
    if ws.len() > 0 {
        assert(!ws[0].active);
        let d = ws.drop_first();
        assert forall|j: int| 0 <= j < d.len() implies !(#[trigger] d[j]).active by {
            assert(d[j] == ws[j + 1]);
        }
        lemma_first_active_none(d);
    }
}

/// A session is previewed by its first active window, or by its first window
/// when none is active: the row's `Preview window` detail names that window
/// and the preview shows its panes at their places.
pub proof fn law_session_previews_active_window(s: SessionView, k: int)
    requires
        0 <= k < s.windows.len(),
        s.windows[k].active || forall|j: int| 0 <= j < s.windows.len() ==> !(
        #[trigger] s.windows[j]).active,
        s.windows[k].active ==> forall|j: int| 0 <= j < k ==> !(#[trigger] s.windows[j]).active,
        !s.windows[k].active ==> k == 0,
    ensures
        ({
            let w = s.windows[k];
            let item = session_item_of(s);
            &&& item.details[7] == ("Preview window"@, window_title(w))
            &&& item.preview == Some(
                PreviewView {
                    title: "Session "@ + s.name + " - window "@ + window_title(w),
                    panes: w.panes.map_values(|p: PaneView| pane_preview_of(p, false)),
                },
            )
        }),
{
    if s.windows[k].active {
        lemma_first_active_at(s.windows, k);
    } else {
        lemma_first_active_none(s.windows);
    }
}

// ---------------------------------------------------------------------------
// Quoted arguments
// ---------------------------------------------------------------------------

/// Inside an open quote `q`, characters other than `q` and the backslash are
/// taken into the argument as they are, whitespace included.
proof fn lemma_quoted_run(p: Seq<char>, q: char, c: Seq<char>, k: int)
    requires
        split_run(p).quote == Some(q),
        !split_run(p).escaped,
        split_run(p).in_arg,
        forall|j: int| 0 <= j < c.len() ==> #[trigger] c[j] != q && c[j] != '\\',
        0 <= k <= c.len(),
    ensures
        split_run(p + c.take(k)) == (crate::args::SplitState {
            args: split_run(p).args,
            current: split_run(p).current + c.take(k),
            quote: Some(q),
            escaped: false,
            in_arg: true,
        }),
    decreases k,
{
    if k == 0 {
        assert(p + c.take(0) =~= p);
        assert(split_run(p).current + c.take(0) =~= split_run(p).current);
    } else {
        lemma_quoted_run(p, q, c, k - 1);
        let t = p + c.take(k);
        assert(t.drop_last() =~= p + c.take(k - 1));
        assert(t.last() == c[k - 1]);
        assert(c[k - 1] != q && c[k - 1] != '\\');
        assert(split_run(p).current + c.take(k - 1).push(c[k - 1]) =~= split_run(p).current
            + c.take(k));
        assert(c.take(k - 1).push(c[k - 1]) =~= c.take(k));
    }
}

/// A quoted argument after plain words is taken whole: for plain text `w`
/// ending in whitespace, a quote `q` (`'` or `"`) and text `c` with no `q`
/// and no backslash, `w q c q` splits into the words of `w` followed by `c`
/// exactly, whitespace and the other kind of quote included (unless the
/// first argument is `tmux`).
pub proof fn law_quoted_argument_kept_whole(w: Seq<char>, q: char, c: Seq<char>)
    requires
        is_plain(w),
        w.len() > 0 ==> is_ws(w.last()),
        is_quote(q),
        forall|j: int| 0 <= j < c.len() ==> #[trigger] c[j] != q && c[j] != '\\',
    ensures
        ({
            let args = words(w).push(c);
            split_command_line(w + seq![q] + c + seq![q]) == if args[0] == "tmux"@ {
                Err::<Seq<Seq<char>>, ArgsError>(ArgsError::LeadingTmuxWord)
            } else {
                Ok::<Seq<Seq<char>>, ArgsError>(args)
            }
        }),
{
    lemma_plain_split_prefix(w, w.len() as int);
    assert(w.take(w.len() as int) =~= w);
    assert(w.skip(w.len() as int) =~= Seq::<char>::empty());
    let st = split_run(w);
    if w.len() > 0 {
        assert(w.drop_last() =~= w.take(w.len() - 1));
        lemma_plain_split_prefix(w, w.len() - 1);
        let prev = split_run(w.drop_last());
        assert(st == split_step(prev, w.last()));
        assert(!is_quote(w[w.len() - 1]) && w[w.len() - 1] != '\\');
    }
    assert(!st.in_arg);
    assert(st.current.len() == 0);
    assert(st.args + words_from(Seq::<char>::empty(), st.current) =~= st.args);
    assert(words(w) == st.args);
    let p = w + seq![q];
    assert(p.drop_last() =~= w);
    assert(p.last() == q);
    assert(split_run(p) == split_step(st, q));
    lemma_quoted_run(p, q, c, c.len() as int);
    assert(c.take(c.len() as int) =~= c);
    let whole = w + seq![q] + c + seq![q];
    assert(whole.drop_last() =~= p + c);
    assert(whole.last() == q);
    assert(st.current + c =~= c);
    let fin = split_run(whole);
    assert(fin == split_step(split_run(p + c), q));
    assert(fin.args == words(w) && fin.current == c && fin.quote is None && !fin.escaped
        && fin.in_arg);
}

/// A backslash takes the next character as it is: for plain text `w` ending
/// in whitespace and any character `c` (whitespace, a quote or a backslash
/// included), `w \c` splits into the words of `w` followed by the one-character
/// argument `c` (unless the first argument is `tmux`).
pub proof fn law_backslash_escapes_next(w: Seq<char>, c: char)
    requires
        is_plain(w),
        w.len() > 0 ==> is_ws(w.last()),
    ensures
        ({
            let args = words(w).push(seq![c]);
            split_command_line(w + seq!['\\', c]) == if args[0] == "tmux"@ {
                Err::<Seq<Seq<char>>, ArgsError>(ArgsError::LeadingTmuxWord)
            } else {
                Ok::<Seq<Seq<char>>, ArgsError>(args)
            }
        }),
{
    lemma_plain_split_prefix(w, w.len() as int);
    assert(w.take(w.len() as int) =~= w);
    assert(w.skip(w.len() as int) =~= Seq::<char>::empty());
    let st = split_run(w);
    if w.len() > 0 {
        assert(w.drop_last() =~= w.take(w.len() - 1));
        lemma_plain_split_prefix(w, w.len() - 1);
        let prev = split_run(w.drop_last());
        assert(st == split_step(prev, w.last()));
        assert(!is_quote(w[w.len() - 1]) && w[w.len() - 1] != '\\');
    }
    assert(!st.in_arg);
    assert(st.current.len() == 0);
    assert(st.args + words_from(Seq::<char>::empty(), st.current) =~= st.args);
    assert(words(w) == st.args);
    let p = w + seq!['\\'];
    assert(p.drop_last() =~= w);
    assert(p.last() == '\\');
    assert(split_run(p) == split_step(st, '\\'));
    let whole = w + seq!['\\', c];
    assert(whole.drop_last() =~= p);
    assert(whole.last() == c);
    let fin = split_run(whole);
    assert(fin == split_step(split_run(p), c));
    assert(st.current.push(c) =~= seq![c]);
    assert(fin.args == words(w) && fin.current == seq![c] && fin.quote is None && !fin.escaped
        && fin.in_arg);
}

// ---------------------------------------------------------------------------
// Where the parsed fields come from
// ---------------------------------------------------------------------------

/// Line `l` of `ls` is a pane line of session `sid` and window `wid` that
/// describes pane `p`.
pub open spec fn row_gives(
    ls: Seq<Seq<char>>,
    sep: char,
    l: int,
    sid: Seq<char>,
    wid: Seq<char>,
    p: PaneView,
) -> bool {
    &&& 0 <= l < ls.len()
    &&& is_row(ls[l], sep)
    &&& split(ls[l], sep)[0] == sid
    &&& split(ls[l], sep)[5] == wid
    &&& new_pane(split(ls[l], sep)) == p
}

/// Some line of `ls` describes pane `p` of window `wid` in session `sid`.
pub open spec fn pane_sourced(
    ls: Seq<Seq<char>>,
    sep: char,
    sid: Seq<char>,
    wid: Seq<char>,
    p: PaneView,
) -> bool {
    exists|l: int| #[trigger] row_gives(ls, sep, l, sid, wid, p)
}

/// Line `l` of `ls` is a pane line of session `sid` that describes window
/// `w` (all but its panes).
pub open spec fn window_row(ls: Seq<Seq<char>>, sep: char, l: int, sid: Seq<char>, w: WindowView) -> bool {
    &&& 0 <= l < ls.len()
    &&& is_row(ls[l], sep)
    &&& split(ls[l], sep)[0] == sid
    &&& new_window(split(ls[l], sep)) == (WindowView { panes: seq![], ..w })
}

/// Line `l` of `ls` is a pane line that describes session `s` (all but its
/// windows).
pub open spec fn session_row(ls: Seq<Seq<char>>, sep: char, l: int, s: SessionView) -> bool {
    &&& 0 <= l < ls.len()
    &&& is_row(ls[l], sep)
    &&& new_session(s.server, split(ls[l], sep)) == (SessionView { windows: seq![], ..s })
}

pub open spec fn window_sourced(ls: Seq<Seq<char>>, sep: char, sid: Seq<char>, w: WindowView) -> bool {
    &&& exists|l: int| #[trigger] window_row(ls, sep, l, sid, w)
    &&& forall|i: int|
        0 <= i < w.panes.len() ==> pane_sourced(ls, sep, sid, w.id, #[trigger] w.panes[i])
}

pub open spec fn session_sourced(ls: Seq<Seq<char>>, sep: char, s: SessionView) -> bool {
    &&& exists|l: int| #[trigger] session_row(ls, sep, l, s)
    &&& forall|m: int|
        0 <= m < s.windows.len() ==> window_sourced(ls, sep, s.id, #[trigger] s.windows[m])
}

pub open spec fn all_sourced(ls: Seq<Seq<char>>, sep: char, ss: Seq<SessionView>) -> bool {
    forall|k: int| 0 <= k < ss.len() ==> session_sourced(ls, sep, #[trigger] ss[k])
}

proof fn lemma_add_pane_row_sourced(
    ls: Seq<Seq<char>>,
    sep: char,
    sid: Seq<char>,
    w: WindowView,
    l: int,
)
    requires
        window_sourced(ls, sep, sid, w),
        0 <= l < ls.len(),
        is_row(ls[l], sep),
        split(ls[l], sep)[0] == sid,
        split(ls[l], sep)[5] == w.id,
    ensures
        window_sourced(ls, sep, sid, add_pane_row(w, split(ls[l], sep))),
        add_pane_row(w, split(ls[l], sep)).id == w.id,
{
    let f = split(ls[l], sep);
    let r = add_pane_row(w, f);
    let h = choose|h: int| window_row(ls, sep, h, sid, w);
    assert((WindowView { panes: seq![], ..r }) == (WindowView { panes: seq![], ..w }));
    assert(window_row(ls, sep, h, sid, r));
    assert forall|i: int| 0 <= i < r.panes.len() implies pane_sourced(
        ls,
        sep,
        sid,
        r.id,
        #[trigger] r.panes[i],
    ) by {
        if i < w.panes.len() {
            assert(r.panes[i] == w.panes[i]);
            assert(pane_sourced(ls, sep, sid, w.id, w.panes[i]));
            let x = choose|x: int| row_gives(ls, sep, x, sid, w.id, w.panes[i]);
            assert(row_gives(ls, sep, x, sid, r.id, r.panes[i]));
        } else {
            assert(r.panes[i] == new_pane(f));
            assert(row_gives(ls, sep, l, sid, r.id, r.panes[i]));
        }
    }
}

proof fn lemma_add_window_row_sourced(ls: Seq<Seq<char>>, sep: char, s: SessionView, l: int)
    requires
        session_sourced(ls, sep, s),
        0 <= l < ls.len(),
        is_row(ls[l], sep),
        split(ls[l], sep)[0] == s.id,
    ensures
        session_sourced(ls, sep, add_window_row(s, split(ls[l], sep))),
        add_window_row(s, split(ls[l], sep)).id == s.id,
        add_window_row(s, split(ls[l], sep)).server == s.server,
{
    let f = split(ls[l], sep);
    let ids = window_ids(s.windows);
    let j = first_index(ids, f[5]);
    lemma_first_index_facts(ids, f[5]);
    let ws = if j < s.windows.len() {
        s.windows
    } else {
        s.windows.push(new_window(f))
    };
    if j < s.windows.len() {
        assert(ids[j] == s.windows[j].id);
    } else {
        let nw = new_window(f);
        assert(nw.panes =~= Seq::<PaneView>::empty());
        assert((WindowView { panes: seq![], ..nw }) == nw);
        assert(window_row(ls, sep, l, s.id, nw));
        assert(window_sourced(ls, sep, s.id, nw));
    }
    assert(ws[j].id == f[5]);
    assert(forall|m: int| 0 <= m < ws.len() ==> window_sourced(ls, sep, s.id, #[trigger] ws[m]));
    lemma_add_pane_row_sourced(ls, sep, s.id, ws[j], l);
    let r = add_window_row(s, f);
    assert(r.windows == ws.update(j, add_pane_row(ws[j], f)));
    let h = choose|h: int| session_row(ls, sep, h, s);
    assert((SessionView { windows: seq![], ..r }) == (SessionView { windows: seq![], ..s }));
    assert(session_row(ls, sep, h, r));
    assert forall|m: int| 0 <= m < r.windows.len() implies window_sourced(
        ls,
        sep,
        r.id,
        #[trigger] r.windows[m],
    ) by {
        if m != j {
            assert(r.windows[m] == ws[m]);
        }
    }
}

proof fn lemma_add_row_sourced(
    ls: Seq<Seq<char>>,
    sep: char,
    ss: Seq<SessionView>,
    server: ServerView,
    l: int,
)
    requires
        all_sourced(ls, sep, ss),
        0 <= l < ls.len(),
        is_row(ls[l], sep),
    ensures
        all_sourced(ls, sep, add_row(ss, server, split(ls[l], sep))),
{
    let f = split(ls[l], sep);
    let ids = session_ids(ss);
    let i = first_index(ids, f[0]);
    lemma_first_index_facts(ids, f[0]);
    let ss2 = if i < ss.len() {
        ss
    } else {
        ss.push(new_session(server, f))
    };
    if i < ss.len() {
        assert(ids[i] == ss[i].id);
    } else {
        let ns = new_session(server, f);
        assert(ns.windows =~= Seq::<WindowView>::empty());
        assert((SessionView { windows: seq![], ..ns }) == ns);
        assert(session_row(ls, sep, l, ns));
        assert(session_sourced(ls, sep, ns));
    }
    assert(ss2[i].id == f[0]);
    assert(forall|k: int| 0 <= k < ss2.len() ==> session_sourced(ls, sep, #[trigger] ss2[k]));
    lemma_add_window_row_sourced(ls, sep, ss2[i], l);
    let r = add_row(ss, server, f);
    assert(r == ss2.update(i, add_window_row(ss2[i], f)));
    assert forall|k: int| 0 <= k < r.len() implies session_sourced(ls, sep, #[trigger] r[k]) by {
        if k != i {
            assert(r[k] == ss2[k]);
        }
    }
}

proof fn lemma_group_rows_sourced(ls: Seq<Seq<char>>, server: ServerView, sep: char, k: int)
    requires
        0 <= k <= ls.len(),
    ensures
        all_sourced(ls, sep, group_rows(ls.take(k), server, sep)),
    decreases k,
{
    if k == 0 {
        assert(group_rows(ls.take(0), server, sep) =~= Seq::<SessionView>::empty());
    } else {
        lemma_group_rows_sourced(ls, server, sep, k - 1);
        assert(ls.take(k).drop_last() =~= ls.take(k - 1));
        assert(ls.take(k).last() == ls[k - 1]);
        if is_row(ls[k - 1], sep) {
            lemma_add_row_sourced(ls, sep, group_rows(ls.take(k - 1), server, sep), server, k - 1);
        }
    }
}

proof fn lemma_sorted_session_sourced(ls: Seq<Seq<char>>, sep: char, s: SessionView)
    requires
        session_sourced(ls, sep, s),
    ensures
        session_sourced(ls, sep, sort_session_windows(s)),
        sort_session_windows(s).id == s.id,
{
    let ws = s.windows;
    lemma_sort_by_keeps(ws, window_order(), window_key());
    let sw = sort_by(ws, window_order());
    let r = sort_session_windows(s);
    assert(r.windows == windows_in_order(ws));
    let h = choose|h: int| session_row(ls, sep, h, s);
    assert((SessionView { windows: seq![], ..r }) == (SessionView { windows: seq![], ..s }));
    assert(session_row(ls, sep, h, r));
    assert forall|m: int| 0 <= m < r.windows.len() implies window_sourced(
        ls,
        sep,
        r.id,
        #[trigger] r.windows[m],
    ) by {
        let x = sw[m];
        assert(sw.contains(x));
        assert(ws.contains(x));
        let mm = choose|mm: int| 0 <= mm < ws.len() && ws[mm] == x;
        assert(window_sourced(ls, sep, s.id, ws[mm]));
        lemma_sort_by_keeps(x.panes, pane_order(), pane_key());
        let rw = r.windows[m];
        assert(rw == sort_window_panes(x));
        let hw = choose|hw: int| window_row(ls, sep, hw, s.id, x);
        assert((WindowView { panes: seq![], ..rw }) == (WindowView { panes: seq![], ..x }));
        assert(window_row(ls, sep, hw, r.id, rw));
        assert forall|i: int| 0 <= i < rw.panes.len() implies pane_sourced(
            ls,
            sep,
            r.id,
            rw.id,
            #[trigger] rw.panes[i],
        ) by {
            assert(rw.panes.contains(rw.panes[i]));
            assert(x.panes.contains(rw.panes[i]));
            let ii = choose|ii: int| 0 <= ii < x.panes.len() && x.panes[ii] == rw.panes[i];
            assert(pane_sourced(ls, sep, s.id, x.id, x.panes[ii]));
            let y = choose|y: int| row_gives(ls, sep, y, s.id, x.id, x.panes[ii]);
            assert(row_gives(ls, sep, y, r.id, rw.id, rw.panes[i]));
        }
    }
}

/// The fields of line `l` give pane `p` of window `w` in session `s`, each
/// read at the position where `tmux_fields` lists it.
pub open spec fn pane_line_fields(
    ls: Seq<Seq<char>>,
    sep: char,
    l: int,
    s: SessionView,
    w: WindowView,
    p: PaneView,
) -> bool {
    let f = split(ls[l], sep);
    &&& 0 <= l < ls.len()
    &&& is_row(ls[l], sep)
    &&& f[0] == s.id
    &&& f[5] == w.id
    &&& p.id == f[12]
    &&& p.index == f[13]
    &&& p.active == flag_value(f[14])
    &&& p.command == f[15]
    &&& p.path == f[16]
    &&& p.title == f[17]
    &&& p.left == opt_u16(f[18])
    &&& p.top == opt_u16(f[19])
    &&& p.width == opt_u16(f[20])
    &&& p.height == opt_u16(f[21])
    &&& p.pid == f[22]
    &&& p.dead == (f.len() > 23 && flag_value(f[23]))
    &&& p.in_mode == (f.len() > 24 && flag_value(f[24]))
}

/// The fields of line `l` give window `w` of session `s`.
pub open spec fn window_line_fields(
    ls: Seq<Seq<char>>,
    sep: char,
    l: int,
    s: SessionView,
    w: WindowView,
) -> bool {
    let f = split(ls[l], sep);
    &&& 0 <= l < ls.len()
    &&& is_row(ls[l], sep)
    &&& f[0] == s.id
    &&& w.id == f[5]
    &&& w.index == f[6]
    &&& w.name == f[7]
    &&& w.active == flag_value(f[8])
    &&& w.pane_count == opt_usize(f[9])
    &&& w.layout == f[10]
    &&& w.flags == f[11]
}

/// The fields of line `l` give session `s`.
pub open spec fn session_line_fields(ls: Seq<Seq<char>>, sep: char, l: int, s: SessionView) -> bool {
    let f = split(ls[l], sep);
    &&& 0 <= l < ls.len()
    &&& is_row(ls[l], sep)
    &&& s.id == f[0]
    &&& s.name == f[1]
    &&& s.attached == flag_value(f[2])
    &&& s.created == opt_i64(f[3])
    &&& s.window_count == opt_usize(f[4])
}

/// Some line of `ls` gives pane `p` of window `w` in session `s`.
pub open spec fn pane_read(ls: Seq<Seq<char>>, sep: char, s: SessionView, w: WindowView, p: PaneView) -> bool {
    exists|l: int| #[trigger] pane_line_fields(ls, sep, l, s, w, p)
}

/// Some line of `ls` gives window `w` of session `s`.
pub open spec fn window_read(ls: Seq<Seq<char>>, sep: char, s: SessionView, w: WindowView) -> bool {
    exists|l: int| #[trigger] window_line_fields(ls, sep, l, s, w)
}

/// Some line of `ls` gives session `s`.
pub open spec fn session_read(ls: Seq<Seq<char>>, sep: char, s: SessionView) -> bool {
    exists|l: int| #[trigger] session_line_fields(ls, sep, l, s)
}

/// Every parsed session, window and pane is read from a pane line of the
/// output, each field at the position where `tmux_fields` lists it: a pane's
/// id, index, active flag, command, path, title, left, top, width, height,
/// pid, dead and copy-mode flags are fields 12 to 24 of a line whose session
/// and window ids (fields 0 and 5) are those of the session and window it
/// sits in; a window's id, index, name, active flag, pane count, layout and
/// flags are fields 5 to 11 of a line of its session; a session's id, name,
/// attached flag, creation time and window count are fields 0 to 4.
pub proof fn law_parsed_panes_read_their_fields(output: Seq<char>, server: ServerView, sep: char)
    ensures
        tmux_fields()[0] == "session_id"@ && tmux_fields()[1] == "session_name"@,
        tmux_fields()[5] == "window_id"@ && tmux_fields()[6] == "window_index"@,
        tmux_fields()[7] == "window_name"@ && tmux_fields()[8] == "window_active"@,
        tmux_fields()[12] == "pane_id"@ && tmux_fields()[13] == "pane_index"@,
        tmux_fields()[14] == "pane_active"@ && tmux_fields()[15] == "pane_current_command"@,
        tmux_fields()[16] == "pane_current_path"@ && tmux_fields()[17] == "pane_title"@,
        tmux_fields()[18] == "pane_left"@ && tmux_fields()[19] == "pane_top"@,
        tmux_fields()[20] == "pane_width"@ && tmux_fields()[21] == "pane_height"@,
        tmux_fields()[22] == "pane_pid"@ && tmux_fields()[23] == "pane_dead"@,
        ({
            let ls = lines(output);
            let ss = parsed_sessions(output, server, sep);
            &&& forall|k: int| 0 <= k < ss.len() ==> session_read(ls, sep, #[trigger] ss[k])
            &&& forall|k: int, m: int|
                0 <= k < ss.len() && 0 <= m < ss[k].windows.len() ==> window_read(
                    ls,
                    sep,
                    ss[k],
                    #[trigger] ss[k].windows[m],
                )
            &&& forall|k: int, m: int, i: int|
                0 <= k < ss.len() && 0 <= m < ss[k].windows.len() && 0 <= i
                    < ss[k].windows[m].panes.len() ==> pane_read(
                    ls,
                    sep,
                    ss[k],
                    ss[k].windows[m],
                    #[trigger] ss[k].windows[m].panes[i],
                )
        }),
{
    let ls = lines(output);
    lemma_group_rows_sourced(ls, server, sep, ls.len() as int);
    assert(ls.take(ls.len() as int) =~= ls);
    let g = group_rows(ls, server, sep);
    lemma_sort_by_keeps(g, session_order(), session_key());
    let sorted = sort_by(g, session_order());
    let ss = parsed_sessions(output, server, sep);
    assert(ss == sorted.map_values(|s: SessionView| sort_session_windows(s)));
    assert forall|k: int| 0 <= k < ss.len() implies session_sourced(ls, sep, #[trigger] ss[k]) by {
        assert(sorted.contains(sorted[k]));
        assert(g.contains(sorted[k]));
        let kk = choose|kk: int| 0 <= kk < g.len() && g[kk] == sorted[k];
        assert(session_sourced(ls, sep, g[kk]));
        lemma_sorted_session_sourced(ls, sep, sorted[k]);
        assert(ss[k] == sort_session_windows(sorted[k]));
    }
    assert forall|k: int| 0 <= k < ss.len() implies session_read(ls, sep, #[trigger] ss[k]) by {
        assert(session_sourced(ls, sep, ss[k]));
        let l = choose|l: int| session_row(ls, sep, l, ss[k]);
        assert(session_line_fields(ls, sep, l, ss[k]));
    }
    assert forall|k: int, m: int|
        0 <= k < ss.len() && 0 <= m < ss[k].windows.len() implies window_read(
        ls,
        sep,
        ss[k],
        #[trigger] ss[k].windows[m],
    ) by {
        assert(session_sourced(ls, sep, ss[k]));
        assert(window_sourced(ls, sep, ss[k].id, ss[k].windows[m]));
        let l = choose|l: int| window_row(ls, sep, l, ss[k].id, ss[k].windows[m]);
        assert(window_line_fields(ls, sep, l, ss[k], ss[k].windows[m]));
    }
    assert forall|k: int, m: int, i: int|
        0 <= k < ss.len() && 0 <= m < ss[k].windows.len() && 0 <= i < ss[k].windows[m].panes.len()
        implies pane_read(ls, sep, ss[k], ss[k].windows[m], #[trigger] ss[k].windows[m].panes[i]) by {
        assert(session_sourced(ls, sep, ss[k]));
        assert(window_sourced(ls, sep, ss[k].id, ss[k].windows[m]));
        let p = ss[k].windows[m].panes[i];
        assert(pane_sourced(ls, sep, ss[k].id, ss[k].windows[m].id, p));
        let l = choose|l: int| row_gives(ls, sep, l, ss[k].id, ss[k].windows[m].id, p);
        assert(pane_line_fields(ls, sep, l, ss[k], ss[k].windows[m], p));
    }
}

} // verus!
