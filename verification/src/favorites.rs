//! How the favorite keys are kept in a file: one key per line, each line
//! ended by a newline; blank lines are skipped when the file is read.
use vstd::prelude::*;

use crate::text::{blank_chars, chars_string, is_blank, lines, lines_chars, str_chars};

verus! {

/// The keys, each followed by a newline.
pub open spec fn stored_text(keys: Seq<Seq<char>>) -> Seq<char>
    decreases keys.len(),
{
    if keys.len() == 0 {
        seq![]
    } else {
        keys[0] + seq!['\n'] + stored_text(keys.drop_first())
    }
}

/// The lines that are not blank, in order.
pub open spec fn nonblank_lines(ls: Seq<Seq<char>>) -> Seq<Seq<char>>
    decreases ls.len(),
{
    if ls.len() == 0 {
        seq![]
    } else if is_blank(ls.last()) {
        nonblank_lines(ls.drop_last())
    } else {
        nonblank_lines(ls.drop_last()).push(ls.last())
    }
}

/// The keys a stored text holds: its lines (`str::lines`) that are not blank.
pub open spec fn stored_keys(text: Seq<char>) -> Seq<Seq<char>> {
    nonblank_lines(lines(text))
}

/// A key that a line can hold and give back: it is not blank, holds no
/// newline and does not end in a carriage return.
pub open spec fn storable(key: Seq<char>) -> bool {
    &&& !is_blank(key)
    &&& forall|j: int| 0 <= j < key.len() ==> key[j] != '\n'
    &&& key.last() != '\r'
}

/// The text that stores the favorite keys.
pub fn favorites_text(keys: &[String]) -> (res: String)
    ensures
        res@ == stored_text(keys.deep_view()),
{
    let ghost all = keys.deep_view();
    let mut res = String::new();
    let mut i: usize = 0;
    assert(all.skip(0) =~= all);
    while i < keys.len()
        invariant
            i <= keys.len(),
            all == keys.deep_view(),
            res@ + stored_text(all.skip(i as int)) == stored_text(all),
        decreases keys.len() - i,
    {
        let ghost before = res@;
        assert(all.skip(i as int).drop_first() =~= all.skip(i + 1));
        assert(all.skip(i as int)[0] == keys[i as int]@);
        res.append(keys[i].as_str());
        res.append("\n");
        proof {
            reveal_strlit("\n");
            assert(res@ =~= before + keys[i as int]@ + seq!['\n']);
            assert(res@ + stored_text(all.skip(i + 1)) =~= before + stored_text(all.skip(i as int)));
        }
        i += 1;
    }
    assert(res@ + stored_text(all.skip(i as int)) =~= res@);
    res
}

/// The favorite keys that a stored text holds.
pub fn favorites_from_text(text: &str) -> (res: Vec<String>)
    ensures
        res.deep_view() == stored_keys(text@),
{
    let chars = str_chars(text);
    let ls = lines_chars(chars.as_slice());
    let ghost all = ls.deep_view();
    let mut res: Vec<String> = Vec::new();
    let mut i: usize = 0;
    assert(res.deep_view() =~= nonblank_lines(all.take(0)));
    while i < ls.len()
        invariant
            i <= ls.len(),
            all == ls.deep_view(),
            all == lines(text@),
            res.deep_view() == nonblank_lines(all.take(i as int)),
        decreases ls.len() - i,
    {
        let ghost before = res.deep_view();
        assert(all.take(i + 1).drop_last() =~= all.take(i as int));
        assert(all.take(i + 1).last() == ls[i as int]@);
        if !blank_chars(ls[i].as_slice()) {
            let line = chars_string(ls[i].as_slice());
            res.push(line);
            assert(res.deep_view() =~= before.push(ls[i as int]@));
        }
        i += 1;
    }
    assert(all.take(i as int) =~= all);
    res
}

} // verus!
