//! Character-level text handling: whitespace, trimming, splitting into lines
//! and fields, substring search, decimal rendering and integer parsing.
//!
//! Every function works on the characters of a string (its view as a
//! `Seq<char>`), and each is specified by a spec function of the same shape as
//! the behaviour that std documents for the corresponding `str` method.
use vstd::prelude::*;
use vstd::string::StringExecFns;

verus! {

// ---------------------------------------------------------------------------
// Specifications
// ---------------------------------------------------------------------------

/// Unicode `White_Space`, the set that `char::is_whitespace` tests.
pub open spec fn is_ws(c: char) -> bool {
    let u = c as u32;
    ||| 0x9 <= u <= 0xd
    ||| u == 0x20
    ||| u == 0x85
    ||| u == 0xa0
    ||| u == 0x1680
    ||| 0x2000 <= u <= 0x200a
    ||| u == 0x2028
    ||| u == 0x2029
    ||| u == 0x202f
    ||| u == 0x205f
    ||| u == 0x3000
}

/// Every character is whitespace (`s.trim().is_empty()`).
pub open spec fn is_blank(s: Seq<char>) -> bool {
    forall|i: int| 0 <= i < s.len() ==> is_ws(#[trigger] s[i])
}

/// `str::trim_end`.
pub open spec fn trim_end(s: Seq<char>) -> Seq<char>
    decreases s.len(),
{
    if s.len() > 0 && is_ws(s.last()) {
        trim_end(s.drop_last())
    } else {
        s
    }
}

/// `str::trim_start`.
pub open spec fn trim_start(s: Seq<char>) -> Seq<char>
    decreases s.len(),
{
    if s.len() > 0 && is_ws(s[0]) {
        trim_start(s.drop_first())
    } else {
        s
    }
}

/// `str::trim`.
pub open spec fn trim(s: Seq<char>) -> Seq<char> {
    trim_start(trim_end(s))
}

/// Position of the first `c` in `s`, or `s.len()` when there is none.
pub open spec fn index_of(s: Seq<char>, c: char) -> int
    decreases s.len(),
{
    if s.len() == 0 {
        0
    } else if s[0] == c {
        0
    } else {
        1 + index_of(s.drop_first(), c)
    }
}

/// `str::split` on a single character: always at least one piece.
pub open spec fn split(s: Seq<char>, c: char) -> Seq<Seq<char>>
    decreases s.len(),
{
    let k = index_of(s, c);
    if k >= s.len() {
        seq![s]
    } else {
        proof {
            lemma_index_of_bounds(s, c);
        }
        seq![s.take(k)] + split(s.skip(k + 1), c)
    }
}

/// Drops one trailing carriage return.
pub open spec fn strip_cr(s: Seq<char>) -> Seq<char> {
    if s.len() > 0 && s.last() == '\r' {
        s.drop_last()
    } else {
        s
    }
}

/// `str::lines`: pieces ended by `\n` or `\r\n`; the final line ending is
/// optional, and an empty string has no lines.
pub open spec fn lines(s: Seq<char>) -> Seq<Seq<char>>
    decreases s.len(),
{
    if s.len() == 0 {
        seq![]
    } else {
        let k = index_of(s, '\n');
        if k >= s.len() {
            seq![s]
        } else {
            proof {
                lemma_index_of_bounds(s, '\n');
            }
            seq![strip_cr(s.take(k))] + lines(s.skip(k + 1))
        }
    }
}

/// `p` occurs in `s` starting at position `i`.
pub open spec fn occurs_at(s: Seq<char>, p: Seq<char>, i: int) -> bool {
    0 <= i && i + p.len() <= s.len() && s.subrange(i, i + p.len()) == p
}

/// `str::contains` with a string pattern.
pub open spec fn has_infix(s: Seq<char>, p: Seq<char>) -> bool {
    exists|i: int| occurs_at(s, p, i)
}

/// `str::starts_with` with a string pattern.
pub open spec fn has_prefix(s: Seq<char>, p: Seq<char>) -> bool {
    occurs_at(s, p, 0)
}

/// The whitespace-separated words of `s` that follow the word `cur` begun
/// before it.
pub open spec fn words_from(s: Seq<char>, cur: Seq<char>) -> Seq<Seq<char>>
    decreases s.len(),
{
    let done: Seq<Seq<char>> = if cur.len() > 0 {
        seq![cur]
    } else {
        seq![]
    };
    if s.len() == 0 {
        done
    } else if is_ws(s[0]) {
        done + words_from(s.drop_first(), seq![])
    } else {
        words_from(s.drop_first(), cur.push(s[0]))
    }
}

/// `str::split_whitespace`: the maximal runs of non-whitespace characters.
pub open spec fn words(s: Seq<char>) -> Seq<Seq<char>> {
    words_from(s, seq![])
}

/// The characters of `p` occur in `s` in order, not necessarily next to each
/// other.
pub open spec fn is_subsequence(s: Seq<char>, p: Seq<char>) -> bool
    decreases s.len(),
{
    if p.len() == 0 {
        true
    } else if s.len() == 0 {
        false
    } else if s[0] == p[0] {
        is_subsequence(s.drop_first(), p.drop_first())
    } else {
        is_subsequence(s.drop_first(), p)
    }
}

/// `char::to_ascii_lowercase`.
pub open spec fn ascii_lower(c: char) -> char {
    if 'A' <= c <= 'Z' {
        ((c as u32) + 32) as char
    } else {
        c
    }
}

/// `str::to_ascii_lowercase`.
pub open spec fn ascii_lower_all(s: Seq<char>) -> Seq<char> {
    Seq::new(s.len(), |i: int| ascii_lower(s[i]))
}

/// The ASCII digit for `d < 10`.
pub open spec fn digit_char(d: nat) -> char {
    (d + 48) as char
}

/// Decimal rendering of a natural number, as `Display` writes it.
pub open spec fn decimal(n: nat) -> Seq<char>
    decreases n,
{
    if n < 10 {
        seq![digit_char(n)]
    } else {
        decimal(n / 10).push(digit_char(n % 10))
    }
}

/// Decimal rendering of an integer, with a leading `-` when negative.
pub open spec fn int_decimal(i: int) -> Seq<char> {
    if i < 0 {
        seq!['-'] + decimal((-i) as nat)
    } else {
        decimal(i as nat)
    }
}

/// `bool`'s `Display`.
pub open spec fn bool_text(b: bool) -> Seq<char> {
    if b {
        seq!['t', 'r', 'u', 'e']
    } else {
        seq!['f', 'a', 'l', 's', 'e']
    }
}

pub open spec fn is_digit(c: char) -> bool {
    '0' <= c <= '9'
}

pub open spec fn all_digits(s: Seq<char>) -> bool {
    forall|i: int| 0 <= i < s.len() ==> is_digit(#[trigger] s[i])
}

/// The value of a string of decimal digits.
pub open spec fn digits_value(s: Seq<char>) -> nat
    decreases s.len(),
{
    if s.len() == 0 {
        0
    } else {
        digits_value(s.drop_last()) * 10 + ((s.last() as u32) - 48) as nat
    }
}

/// The part after an optional leading `+`.
pub open spec fn unsigned_body(s: Seq<char>) -> Seq<char> {
    if s.len() > 0 && s[0] == '+' {
        s.drop_first()
    } else {
        s
    }
}

/// `str::parse` for an unsigned integer type whose largest value is `max`:
/// an optional `+`, then one or more ASCII digits, with no other character.
pub open spec fn parse_unsigned(s: Seq<char>, max: nat) -> Option<nat> {
    let body = unsigned_body(s);
    if body.len() > 0 && all_digits(body) && digits_value(body) <= max {
        Some(digits_value(body))
    } else {
        None
    }
}

/// `str::parse::<i64>`: an optional sign, then one or more ASCII digits.
pub open spec fn parse_i64(s: Seq<char>) -> Option<int> {
    if s.len() > 0 && s[0] == '-' {
        let body = s.drop_first();
        if body.len() > 0 && all_digits(body) && digits_value(body) <= 0x8000_0000_0000_0000 {
            Some(-(digits_value(body) as int))
        } else {
            None
        }
    } else {
        match parse_unsigned(s, 0x7fff_ffff_ffff_ffff) {
            Some(v) => Some(v as int),
            None => None,
        }
    }
}

// ---------------------------------------------------------------------------
// Lemmas
// ---------------------------------------------------------------------------

pub proof fn lemma_index_of_bounds(s: Seq<char>, c: char)
    ensures
        0 <= index_of(s, c) <= s.len(),
    decreases s.len(),
{
    if s.len() > 0 && s[0] != c {
        lemma_index_of_bounds(s.drop_first(), c);
    }
}

/// `split` always yields at least one piece.
pub proof fn lemma_split_nonempty(s: Seq<char>, c: char)
    ensures
        split(s, c).len() >= 1,
{
    lemma_index_of_bounds(s, c);
}

/// `index_of` is the first position holding `c`.
pub proof fn lemma_index_of(s: Seq<char>, c: char, k: int)
    requires
        0 <= k <= s.len(),
        forall|j: int| 0 <= j < k ==> s[j] != c,
        k == s.len() || s[k] == c,
    ensures
        index_of(s, c) == k,
    decreases s.len(),
{
    if s.len() > 0 && k > 0 {
        lemma_index_of(s.drop_first(), c, k - 1);
    }
}

pub proof fn lemma_trim_end_blank(s: Seq<char>)
    ensures
        is_blank(s) <==> trim_end(s).len() == 0,
    decreases s.len(),
{
    if s.len() > 0 {
        lemma_trim_end_blank(s.drop_last());
        if is_ws(s.last()) {
            if is_blank(s.drop_last()) {
                assert forall|i: int| 0 <= i < s.len() implies is_ws(#[trigger] s[i]) by {
                    if i < s.len() - 1 {
                        assert(s[i] == s.drop_last()[i]);
                    }
                }
            } else {
                let j = choose|j: int| 0 <= j < s.drop_last().len() && !is_ws(#[trigger] s.drop_last()[j]);
                assert(s[j] == s.drop_last()[j]);
            }
        }
    }
}

/// `trim_end` stops after the last character that is not whitespace.
pub proof fn lemma_trim_end_extend(s: Seq<char>, k: int)
    requires
        0 <= k <= s.len(),
        k == 0 || !is_ws(s[k - 1]),
        forall|i: int| k <= i < s.len() ==> is_ws(#[trigger] s[i]),
    ensures
        trim_end(s) == s.take(k),
    decreases s.len(),
{
    if s.len() > k {
        assert forall|i: int| k <= i < s.drop_last().len() implies is_ws(#[trigger] s.drop_last()[i]) by {
            assert(s.drop_last()[i] == s[i]);
        }
        if k > 0 {
            assert(s.drop_last()[k - 1] == s[k - 1]);
        }
        lemma_trim_end_extend(s.drop_last(), k);
        assert(s.drop_last().take(k) == s.take(k));
    } else {
        assert(s.take(k) == s);
        if k > 0 {
            assert(s.last() == s[k - 1]);
        }
    }
}

/// `trim_start` starts at the first character that is not whitespace.
pub proof fn lemma_trim_start_extend(s: Seq<char>, k: int)
    requires
        0 <= k <= s.len(),
        k == s.len() || !is_ws(s[k]),
        forall|i: int| 0 <= i < k ==> is_ws(#[trigger] s[i]),
    ensures
        trim_start(s) == s.skip(k),
    decreases s.len(),
{
    if k > 0 {
        assert forall|i: int| 0 <= i < k - 1 implies is_ws(#[trigger] s.drop_first()[i]) by {
            assert(s.drop_first()[i] == s[i + 1]);
        }
        if k < s.len() {
            assert(s.drop_first()[k - 1] == s[k]);
        }
        lemma_trim_start_extend(s.drop_first(), k - 1);
        assert(s.drop_first().skip(k - 1) == s.skip(k));
    } else {
        assert(s.skip(0) == s);
    }
}

pub proof fn lemma_digits_value_prefix(s: Seq<char>, k: int)
    requires
        0 <= k <= s.len(),
    ensures
        digits_value(s.take(k)) <= digits_value(s) || !all_digits(s),
    decreases s.len() - k,
{
    if k < s.len() {
        lemma_digits_value_prefix(s.drop_last(), k);
        assert(s.drop_last().take(k) == s.take(k));
        if all_digits(s) {
            assert(all_digits(s.drop_last())) by {
                assert forall|i: int| 0 <= i < s.drop_last().len() implies is_digit(#[trigger] s.drop_last()[i]) by {
                    assert(s.drop_last()[i] == s[i]);
                }
            }
        }
    } else {
        assert(s.take(k) == s);
    }
}

// ---------------------------------------------------------------------------
// String conversions
// ---------------------------------------------------------------------------

/// Calls `String::push`, trusted to append exactly `c` to the characters of
/// `s` and to change nothing else.
#[verifier::external_body]
pub(crate) fn push_char(s: &mut String, c: char)
    ensures
        final(s)@ == old(s)@.push(c),
{
    s.push(c);
}

/// The characters of `s`, in order.
pub fn str_chars(s: &str) -> (res: Vec<char>)
    ensures
        res@ == s@,
{
    let mut res: Vec<char> = Vec::new();
    for c in it: s.chars()
        invariant
            it.seq() == s@,
            res@ == it.seq().take(it.index() as int),
    {
        res.push(c);
    }
    res
}

/// A string holding the given characters.
pub fn chars_string(v: &[char]) -> (res: String)
    ensures
        res@ == v@,
{
    let mut res = String::new();
    let mut i: usize = 0;
    while i < v.len()
        invariant
            i <= v.len(),
            res@ == v@.take(i as int),
        decreases v.len() - i,
    {
        push_char(&mut res, v[i]);
        assert(v@.take(i + 1) == v@.take(i as int).push(v@[i as int]));
        i += 1;
    }
    assert(v@.take(v.len() as int) == v@);
    res
}

/// Appends the characters of `v` to `s`.
pub fn push_chars(s: &mut String, v: &[char])
    ensures
        final(s)@ == old(s)@ + v@,
{
    let ghost start = s@;
    let mut i: usize = 0;
    while i < v.len()
        invariant
            i <= v.len(),
            s@ == start + v@.take(i as int),
        decreases v.len() - i,
    {
        push_char(s, v[i]);
        assert(v@.take(i + 1) == v@.take(i as int).push(v@[i as int]));
        i += 1;
    }
    assert(v@.take(v.len() as int) == v@);
}

/// A copy of a string.
pub fn copy_string(s: &String) -> (res: String)
    ensures
        res@ == s@,
{
    s.clone()
}

/// The concatenation of two strings.
pub fn concat2(a: &str, b: &str) -> (res: String)
    ensures
        res@ == a@ + b@,
{
    let mut s = a.to_string();
    s.append(b);
    s
}

/// The concatenation of three strings.
pub fn concat3(a: &str, b: &str, c: &str) -> (res: String)
    ensures
        res@ == a@ + b@ + c@,
{
    let mut s = a.to_string();
    s.append(b);
    s.append(c);
    s
}

/// The concatenation of four strings.
pub fn concat4(a: &str, b: &str, c: &str, d: &str) -> (res: String)
    ensures
        res@ == a@ + b@ + c@ + d@,
{
    let mut s = a.to_string();
    s.append(b);
    s.append(c);
    s.append(d);
    s
}

/// Whether two strings have the same characters.
pub fn same_text(a: &String, b: &String) -> (res: bool)
    ensures
        res == (a@ == b@),
{
    a.eq(b)
}

// ---------------------------------------------------------------------------
// Whitespace and trimming
// ---------------------------------------------------------------------------

pub fn is_whitespace(c: char) -> (res: bool)
    ensures
        res == is_ws(c),
{
    let u = c as u32;
    (0x9 <= u && u <= 0xd) || u == 0x20 || u == 0x85 || u == 0xa0 || u == 0x1680 || (0x2000 <= u
        && u <= 0x200a) || u == 0x2028 || u == 0x2029 || u == 0x202f || u == 0x205f || u == 0x3000
}

/// Whether every character is whitespace.
pub fn blank_chars(v: &[char]) -> (res: bool)
    ensures
        res == is_blank(v@),
{
    let mut i: usize = 0;
    while i < v.len()
        invariant
            i <= v.len(),
            forall|j: int| 0 <= j < i ==> is_ws(#[trigger] v@[j]),
        decreases v.len() - i,
    {
        if !is_whitespace(v[i]) {
            return false;
        }
        i += 1;
    }
    true
}

/// Whether every character of a string is whitespace.
pub fn is_blank_str(s: &str) -> (res: bool)
    ensures
        res == is_blank(s@),
{
    let v = str_chars(s);
    blank_chars(v.as_slice())
}

/// The characters `v[from..to]`.
pub fn slice_chars(v: &[char], from: usize, to: usize) -> (res: Vec<char>)
    requires
        from <= to <= v.len(),
    ensures
        res@ == v@.subrange(from as int, to as int),
{
    let mut res: Vec<char> = Vec::new();
    let mut i: usize = from;
    while i < to
        invariant
            from <= i <= to <= v.len(),
            res@ == v@.subrange(from as int, i as int),
        decreases to - i,
    {
        res.push(v[i]);
        assert(v@.subrange(from as int, i + 1) == v@.subrange(from as int, i as int).push(v@[i as int]));
        i += 1;
    }
    res
}

/// `trim_end` on characters.
pub fn trim_end_chars(v: &[char]) -> (res: Vec<char>)
    ensures
        res@ == trim_end(v@),
{
    let mut end: usize = v.len();
    while end > 0 && is_whitespace(v[end - 1])
        invariant
            end <= v.len(),
            forall|i: int| end <= i < v.len() ==> is_ws(#[trigger] v@[i]),
        decreases end,
    {
        end -= 1;
    }
    proof {
        lemma_trim_end_extend(v@, end as int);
    }
    slice_chars(v, 0, end)
}

/// `trim` on characters.
pub fn trim_chars(v: &[char]) -> (res: Vec<char>)
    ensures
        res@ == trim(v@),
{
    let t = trim_end_chars(v);
    let mut start: usize = 0;
    while start < t.len() && is_whitespace(t[start])
        invariant
            start <= t.len(),
            forall|i: int| 0 <= i < start ==> is_ws(#[trigger] t@[i]),
        decreases t.len() - start,
    {
        start += 1;
    }
    proof {
        lemma_trim_start_extend(t@, start as int);
    }
    slice_chars(t.as_slice(), start, t.len())
}

/// `str::trim` into a new string.
pub fn trim_string(s: &str) -> (res: String)
    ensures
        res@ == trim(s@),
{
    let v = str_chars(s);
    let t = trim_chars(v.as_slice());
    chars_string(t.as_slice())
}

// ---------------------------------------------------------------------------
// Splitting
// ---------------------------------------------------------------------------

/// `split` on characters.
pub fn split_chars(v: &[char], c: char) -> (res: Vec<Vec<char>>)
    ensures
        res.deep_view() == split(v@, c),
{
    let mut res: Vec<Vec<char>> = Vec::new();
    let mut start: usize = 0;
    let mut i: usize = 0;
    assert(res.deep_view() =~= Seq::<Seq<char>>::empty());
    assert(v@.skip(0) == v@);
    while i < v.len()
        invariant
            start <= i <= v.len(),
            forall|j: int| start <= j < i ==> v@[j] != c,
            res.deep_view() + split(v@.skip(start as int), c) == split(v@, c),
        decreases v.len() - i,
    {
        if v[i] == c {
            let ghost t = v@.skip(start as int);
            proof {
                lemma_index_of(t, c, i - start);
                assert(t.take(i - start) == v@.subrange(start as int, i as int));
                assert(t.skip(i - start + 1) == v@.skip(i + 1));
            }
            let piece = slice_chars(v, start, i);
            let ghost before = res.deep_view();
            assert(piece.deep_view() =~= piece@);
            res.push(piece);
            proof {
                assert(res.deep_view() =~= before.push(piece@));
                assert(split(t, c) == seq![t.take(i - start)] + split(t.skip(i - start + 1), c));
                assert(before + split(t, c) =~= res.deep_view() + split(v@.skip(i + 1), c));
            }
            start = i + 1;
        }
        i += 1;
    }
    let ghost t = v@.skip(start as int);
    proof {
        lemma_index_of(t, c, t.len() as int);
        assert(t == v@.subrange(start as int, v.len() as int));
    }
    let piece = slice_chars(v, start, v.len());
    let ghost before = res.deep_view();
    assert(piece.deep_view() =~= piece@);
    res.push(piece);
    assert(res.deep_view() =~= before.push(piece@));
    assert(before + split(t, c) =~= before.push(piece@));
    res
}

/// `lines` on characters.
pub fn lines_chars(v: &[char]) -> (res: Vec<Vec<char>>)
    ensures
        res.deep_view() == lines(v@),
{
    let mut res: Vec<Vec<char>> = Vec::new();
    let mut start: usize = 0;
    let mut i: usize = 0;
    assert(res.deep_view() =~= Seq::<Seq<char>>::empty());
    assert(v@.skip(0) == v@);
    while i < v.len()
        invariant
            start <= i <= v.len(),
            forall|j: int| start <= j < i ==> v@[j] != '\n',
            res.deep_view() + lines(v@.skip(start as int)) == lines(v@),
        decreases v.len() - i,
    {
        if v[i] == '\n' {
            let ghost t = v@.skip(start as int);
            proof {
                lemma_index_of(t, '\n', i - start);
                assert(t.take(i - start) == v@.subrange(start as int, i as int));
                assert(t.skip(i - start + 1) == v@.skip(i + 1));
            }
            let mut end = i;
            if end > start && v[end - 1] == '\r' {
                end = end - 1;
                assert(v@.subrange(start as int, i as int).drop_last() == v@.subrange(start as int, end as int));
            }
            let piece = slice_chars(v, start, end);
            let ghost before = res.deep_view();
            assert(piece.deep_view() =~= piece@);
            res.push(piece);
            proof {
                assert(res.deep_view() =~= before.push(piece@));
                assert(lines(t) == seq![strip_cr(t.take(i - start))] + lines(t.skip(i - start + 1)));
                assert(before + lines(t) =~= res.deep_view() + lines(v@.skip(i + 1)));
            }
            start = i + 1;
        }
        i += 1;
    }
    let ghost t = v@.skip(start as int);
    if start < v.len() {
        proof {
            lemma_index_of(t, '\n', t.len() as int);
            assert(t == v@.subrange(start as int, v.len() as int));
        }
        let piece = slice_chars(v, start, v.len());
        let ghost before = res.deep_view();
        assert(piece.deep_view() =~= piece@);
        res.push(piece);
        assert(res.deep_view() =~= before.push(piece@));
        assert(before + lines(t) =~= before.push(piece@));
    } else {
        assert(res.deep_view() + lines(t) == res.deep_view());
    }
    res
}

// ---------------------------------------------------------------------------
// Searching
// ---------------------------------------------------------------------------

/// Whether `p` occurs in `s` at position `i`.
pub fn occurs_at_chars(s: &[char], p: &[char], i: usize) -> (res: bool)
    ensures
        res == occurs_at(s@, p@, i as int),
{
    if i > s.len() || p.len() > s.len() - i {
        return false;
    }
    let mut j: usize = 0;
    while j < p.len()
        invariant
            j <= p.len(),
            i + p.len() <= s.len(),
            forall|k: int| 0 <= k < j ==> s@[i + k] == p@[k],
        decreases p.len() - j,
    {
        if s[i + j] != p[j] {
            assert(s@.subrange(i as int, i + p.len())[j as int] != p@[j as int]);
            return false;
        }
        j += 1;
    }
    assert(s@.subrange(i as int, i + p.len()) == p@);
    true
}

/// Whether `p` occurs anywhere in `s`.
pub fn contains_chars(s: &[char], p: &[char]) -> (res: bool)
    ensures
        res == has_infix(s@, p@),
{
    if p.len() == 0 {
        assert(s@.subrange(0, 0) =~= p@);
        assert(occurs_at(s@, p@, 0));
        return true;
    }
    if p.len() > s.len() {
        assert(!has_infix(s@, p@));
        return false;
    }
    let mut i: usize = 0;
    while i <= s.len() - p.len()
        invariant
            0 < p.len() <= s.len(),
            i <= s.len() - p.len() + 1,
            forall|k: int| 0 <= k < i ==> !occurs_at(s@, p@, k),
        decreases s.len() - p.len() + 1 - i,
    {
        if occurs_at_chars(s, p, i) {
            return true;
        }
        i += 1;
    }
    assert forall|k: int| !occurs_at(s@, p@, k) by {
        if 0 <= k < i {
        }
    }
    false
}

/// Position of the first `c`, or the length when there is none.
pub fn index_of_char(v: &[char], c: char) -> (res: usize)
    ensures
        res == index_of(v@, c),
{
    let mut i: usize = 0;
    while i < v.len()
        invariant
            i <= v.len(),
            forall|j: int| 0 <= j < i ==> v@[j] != c,
        decreases v.len() - i,
    {
        if v[i] == c {
            proof {
                lemma_index_of(v@, c, i as int);
            }
            return i;
        }
        i += 1;
    }
    proof {
        lemma_index_of(v@, c, i as int);
    }
    i
}

/// Whether the characters of `p` occur in `s` in order.
pub fn subsequence_chars(s: &[char], p: &[char]) -> (res: bool)
    ensures
        res == is_subsequence(s@, p@),
{
    let mut i: usize = 0;
    let mut j: usize = 0;
    assert(s@.skip(0) == s@);
    assert(p@.skip(0) == p@);
    while i < s.len() && j < p.len()
        invariant
            i <= s.len(),
            j <= p.len(),
            is_subsequence(s@, p@) == is_subsequence(s@.skip(i as int), p@.skip(j as int)),
        decreases s.len() - i,
    {
        assert(s@.skip(i as int)[0] == s@[i as int]);
        assert(p@.skip(j as int)[0] == p@[j as int]);
        assert(s@.skip(i as int).drop_first() == s@.skip(i + 1));
        if s[i] == p[j] {
            assert(p@.skip(j as int).drop_first() == p@.skip(j + 1));
            j += 1;
        }
        i += 1;
    }
    j == p.len()
}

/// `str::split_whitespace` on characters.
pub fn words_chars(v: &[char]) -> (res: Vec<Vec<char>>)
    ensures
        res.deep_view() == words(v@),
{
    let mut res: Vec<Vec<char>> = Vec::new();
    let mut cur: Vec<char> = Vec::new();
    let mut i: usize = 0;
    assert(res.deep_view() =~= Seq::<Seq<char>>::empty());
    assert(v@.skip(0) == v@);
    assert(cur@ =~= Seq::<char>::empty());
    while i < v.len()
        invariant
            i <= v.len(),
            res.deep_view() + words_from(v@.skip(i as int), cur@) == words(v@),
        decreases v.len() - i,
    {
        let ghost t = v@.skip(i as int);
        assert(t[0] == v@[i as int]);
        assert(t.drop_first() == v@.skip(i + 1));
        let c = v[i];
        if is_whitespace(c) {
            if cur.len() > 0 {
                let ghost before = res.deep_view();
                let ghost cv = cur@;
                let word = cur;
                assert(word.deep_view() =~= word@);
                res.push(word);
                assert(res.deep_view() =~= before + seq![cv]);
                cur = Vec::new();
                assert(cur@ =~= Seq::<char>::empty());
                assert(res.deep_view() + words_from(v@.skip(i + 1), cur@) =~= before + (seq![cv]
                    + words_from(v@.skip(i + 1), seq![])));
            } else {
                assert(cur@ =~= Seq::<char>::empty());
                assert(res.deep_view() + words_from(v@.skip(i + 1), cur@) =~= res.deep_view() + (
                Seq::<Seq<char>>::empty() + words_from(v@.skip(i + 1), seq![])));
            }
        } else {
            cur.push(c);
        }
        i += 1;
    }
    assert(v@.skip(i as int).len() == 0);
    if cur.len() > 0 {
        let ghost before = res.deep_view();
        let ghost cv = cur@;
        let word = cur;
        assert(word.deep_view() =~= word@);
        res.push(word);
        assert(res.deep_view() =~= before + seq![cv]);
    } else {
        assert(res.deep_view() + Seq::<Seq<char>>::empty() =~= res.deep_view());
    }
    res
}

/// `str::contains` with a string pattern.
pub fn str_contains(s: &str, p: &str) -> (res: bool)
    ensures
        res == has_infix(s@, p@),
{
    let sv = str_chars(s);
    let pv = str_chars(p);
    contains_chars(sv.as_slice(), pv.as_slice())
}

/// `str::to_ascii_lowercase`.
pub fn ascii_lowercase(s: &str) -> (res: String)
    ensures
        res@ == ascii_lower_all(s@),
{
    let v = str_chars(s);
    let mut res = String::new();
    let mut i: usize = 0;
    while i < v.len()
        invariant
            i <= v.len(),
            v@ == s@,
            res@ == ascii_lower_all(s@).take(i as int),
        decreases v.len() - i,
    {
        let c = v[i];
        let l = if 'A' <= c && c <= 'Z' {
            char_from_code((c as u32) + 32)
        } else {
            c
        };
        push_char(&mut res, l);
        assert(ascii_lower_all(s@).take(i + 1) == ascii_lower_all(s@).take(i as int).push(l));
        i += 1;
    }
    assert(ascii_lower_all(s@).take(v.len() as int) == ascii_lower_all(s@));
    res
}

/// The ASCII character with the given code.
fn char_from_code(u: u32) -> (c: char)
    requires
        u < 128,
    ensures
        c == u as char,
{
    (u as u8) as char
}

// ---------------------------------------------------------------------------
// Decimal rendering
// ---------------------------------------------------------------------------

/// Decimal digits of `n`, appended to `s`.
fn push_decimal(s: &mut String, n: u64)
    ensures
        final(s)@ == old(s)@ + decimal(n as nat),
    decreases n,
{
    if n >= 10 {
        push_decimal(s, n / 10);
    }
    let d = (n % 10) as u32;
    push_char(s, char_from_code(d + 48));
    proof {
        if n >= 10 {
            assert(decimal(n as nat) == decimal((n / 10) as nat).push(digit_char((n % 10) as nat)));
        }
    }
}

/// `u64`'s `Display`.
pub fn u64_text(n: u64) -> (res: String)
    ensures
        res@ == decimal(n as nat),
{
    let mut s = String::new();
    push_decimal(&mut s, n);
    s
}

/// `usize`'s `Display`.
pub fn usize_text(n: usize) -> (res: String)
    ensures
        res@ == decimal(n as nat),
{
    u64_text(n as u64)
}

/// `u16`'s `Display`.
pub fn u16_text(n: u16) -> (res: String)
    ensures
        res@ == decimal(n as nat),
{
    u64_text(n as u64)
}

/// `i64`'s `Display`.
pub fn i64_text(n: i64) -> (res: String)
    ensures
        res@ == int_decimal(n as int),
{
    if n < 0 {
        let m: u64 = if n == i64::MIN {
            0x8000_0000_0000_0000u64
        } else {
            (-n) as u64
        };
        let mut s = String::new();
        push_char(&mut s, '-');
        push_decimal(&mut s, m);
        s
    } else {
        u64_text(n as u64)
    }
}

/// `bool`'s `Display`.
pub fn bool_string(b: bool) -> (res: String)
    ensures
        res@ == bool_text(b),
{
    let mut s = String::new();
    if b {
        push_char(&mut s, 't');
        push_char(&mut s, 'r');
        push_char(&mut s, 'u');
        push_char(&mut s, 'e');
    } else {
        push_char(&mut s, 'f');
        push_char(&mut s, 'a');
        push_char(&mut s, 'l');
        push_char(&mut s, 's');
        push_char(&mut s, 'e');
    }
    s
}

// ---------------------------------------------------------------------------
// Integer parsing
// ---------------------------------------------------------------------------

/// Digit value of `body`, when it is made of digits only and at most `max`.
fn digits_at_most(body: &[char], max: u64) -> (res: Option<u64>)
    ensures
        res matches Some(v) ==> body@.len() > 0 && all_digits(body@) && digits_value(body@) == v
            && v <= max,
        res is None ==> !(body@.len() > 0 && all_digits(body@) && digits_value(body@) <= max),
{
    if body.len() == 0 {
        return None;
    }
    let mut acc: u64 = 0;
    let mut i: usize = 0;
    while i < body.len()
        invariant
            i <= body.len(),
            all_digits(body@.take(i as int)),
            digits_value(body@.take(i as int)) == acc,
            acc <= max,
        decreases body.len() - i,
    {
        let c = body[i];
        if !('0' <= c && c <= '9') {
            assert(!is_digit(body@[i as int]));
            return None;
        }
        let d = (c as u32 - 48) as u64;
        let ghost t = body@.take(i + 1);
        assert(t.drop_last() == body@.take(i as int));
        assert(all_digits(t)) by {
            assert forall|k: int| 0 <= k < t.len() implies is_digit(#[trigger] t[k]) by {
                if k < i {
                    assert(t[k] == body@.take(i as int)[k]);
                }
            }
        }
        let next = match acc.checked_mul(10) {
            Some(m) => m.checked_add(d),
            None => None,
        };
        match next {
            Some(n) if n <= max => {
                acc = n;
            },
            _ => {
                proof {
                    lemma_digits_value_prefix(body@, i + 1);
                }
                return None;
            },
        }
        i += 1;
    }
    assert(body@.take(body.len() as int) == body@);
    Some(acc)
}

/// `str::parse` into an unsigned integer no larger than `max`.
pub fn parse_unsigned_chars(s: &[char], max: u64) -> (res: Option<u64>)
    ensures
        match res {
            Some(v) => parse_unsigned(s@, max as nat) == Some(v as nat),
            None => parse_unsigned(s@, max as nat) is None,
        },
{
    if s.len() > 0 && s[0] == '+' {
        let body = slice_chars(s, 1, s.len());
        assert(body@ == unsigned_body(s@));
        digits_at_most(body.as_slice(), max)
    } else {
        digits_at_most(s, max)
    }
}

/// `str::parse::<u16>`.
pub fn parse_u16(s: &[char]) -> (res: Option<u16>)
    ensures
        match res {
            Some(v) => parse_unsigned(s@, 0xffff) == Some(v as nat),
            None => parse_unsigned(s@, 0xffff) is None,
        },
{
    match parse_unsigned_chars(s, 0xffff) {
        Some(v) => Some(v as u16),
        None => None,
    }
}

/// `str::parse::<usize>`.
pub fn parse_usize(s: &[char]) -> (res: Option<usize>)
    ensures
        match res {
            Some(v) => parse_unsigned(s@, usize::MAX as nat) == Some(v as nat),
            None => parse_unsigned(s@, usize::MAX as nat) is None,
        },
{
    match parse_unsigned_chars(s, usize::MAX as u64) {
        Some(v) => Some(v as usize),
        None => None,
    }
}

/// `str::parse::<i64>`.
pub fn parse_i64_chars(s: &[char]) -> (res: Option<i64>)
    ensures
        match res {
            Some(v) => parse_i64(s@) == Some(v as int),
            None => parse_i64(s@) is None,
        },
{
    if s.len() > 0 && s[0] == '-' {
        let body = slice_chars(s, 1, s.len());
        assert(body@ == s@.drop_first());
        match digits_at_most(body.as_slice(), 0x8000_0000_0000_0000u64) {
            Some(v) => {
                if v == 0x8000_0000_0000_0000u64 {
                    Some(i64::MIN)
                } else {
                    Some(-(v as i64))
                }
            },
            None => None,
        }
    } else {
        match parse_unsigned_chars(s, 0x7fff_ffff_ffff_ffffu64) {
            Some(v) => Some(v as i64),
            None => None,
        }
    }
}

/// A vector of characters and its deep view are the same sequence.
pub broadcast proof fn lemma_chars_deep_view(v: &Vec<char>)
    ensures
        #[trigger] v.deep_view() == v@,
{
    assert(v.deep_view() =~= v@);
}

/// Whether the characters are exactly those of `s`.
pub fn chars_are(v: &[char], s: &str) -> (res: bool)
    ensures
        res == (v@ == s@),
{
    let p = str_chars(s);
    if v.len() != p.len() {
        return false;
    }
    let r = occurs_at_chars(v, p.as_slice(), 0);
    assert(v@.subrange(0, v@.len() as int) == v@);
    r
}

/// What `str::to_lowercase` makes of a string: Unicode's full lowercase
/// mapping, which the standard library implements from Unicode's tables.
pub uninterp spec fn lowercase(s: Seq<char>) -> Seq<char>;

/// Calls `str::to_lowercase`, trusted to give `lowercase` of the argument's
/// characters: the same text always lowercases the same way. Nothing more is
/// claimed of the mapping.
#[verifier::external_body]
pub(crate) fn to_lowercase(s: &str) -> (res: String)
    ensures
        res@ == lowercase(s@),
{
    s.to_lowercase()
}

} // verus!
