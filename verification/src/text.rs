//! Character-sequence model of the text handling the library needs:
//! line splitting, trimming, substring search and UTF-8 byte lengths.

use vstd::prelude::*;

verus! {

/// `String::push` appends one character at the end of the string
/// (the standard library documents it as "Appends the given char to the end
/// of this String").
pub assume_specification[ String::push ](s: &mut String, ch: char)
    ensures
        final(s)@ == old(s)@.push(ch),
;

/// The characters of a string slice, in order.
pub fn chars_of(s: &str) -> (res: Vec<char>)
    ensures
        res@ == s@,
{
    let mut res: Vec<char> = Vec::new();
    for c in it: s.chars()
        invariant
            it.seq() == s@,
            res@ == it.seq().take(it.index() as int),
    {
        res.push(c);
    }
    res
}

/// A `String` holding exactly the given characters.
pub fn string_of(v: &[char]) -> (res: String)
    ensures
        res@ == v@,
{
    let mut res = String::new();
    let mut i: usize = 0;
    while i < v.len()
        invariant
            i <= v@.len(),
            res@ == v@.take(i as int),
        decreases v@.len() - i,
    {
        res.push(v[i]);
        i = i + 1;
        assert(v@.take(i as int) =~= v@.take(i - 1).push(v@[i - 1]));
    }
    assert(v@.take(v@.len() as int) =~= v@);
    res
}


// ---------------------------------------------------------------------------
// Substrings

/// `t` occurs in `s` starting at index `i`.
pub open spec fn occurs_at(s: Seq<char>, t: Seq<char>, i: int) -> bool {
    0 <= i && i + t.len() <= s.len() && s.subrange(i, i + t.len()) == t
}

/// `t` occurs somewhere in `s` (what `str::contains` answers).
pub open spec fn has_substr(s: Seq<char>, t: Seq<char>) -> bool {
    exists|i: int| #[trigger] occurs_at(s, t, i)
}

/// `s` begins with `t`.
pub open spec fn starts_with(s: Seq<char>, t: Seq<char>) -> bool {
    occurs_at(s, t, 0)
}

/// The first index at or after `i` where `t` occurs in `s`.
pub open spec fn find_from(s: Seq<char>, t: Seq<char>, i: int) -> Option<int>
    decreases s.len() + 1 - i,
{
    if i < 0 || i + t.len() > s.len() {
        None
    } else if occurs_at(s, t, i) {
        Some(i)
    } else {
        find_from(s, t, i + 1)
    }
}

/// The first index where `t` occurs in `s` (what `str::find` answers, counted in characters).
pub open spec fn find(s: Seq<char>, t: Seq<char>) -> Option<int> {
    find_from(s, t, 0)
}

/// What `find_from` returns is the first occurrence at or after `i`.
pub proof fn lemma_find_from(s: Seq<char>, t: Seq<char>, i: int)
    requires
        0 <= i,
    ensures
        match find_from(s, t, i) {
            Some(k) => i <= k && occurs_at(s, t, k) && forall|j: int|
                i <= j < k ==> !#[trigger] occurs_at(s, t, j),
            None => forall|j: int| i <= j ==> !#[trigger] occurs_at(s, t, j),
        },
    decreases s.len() + 1 - i,
{
    if i + t.len() > s.len() {
    } else if occurs_at(s, t, i) {
    } else {
        lemma_find_from(s, t, i + 1);
    }
}

/// `find` is `Some` exactly when the needle occurs, at its first occurrence.
pub proof fn lemma_find(s: Seq<char>, t: Seq<char>)
    ensures
        has_substr(s, t) <==> find(s, t) is Some,
        match find(s, t) {
            Some(k) => occurs_at(s, t, k) && forall|j: int|
                0 <= j < k ==> !#[trigger] occurs_at(s, t, j),
            None => !has_substr(s, t),
        },
{
    lemma_find_from(s, t, 0);
    if has_substr(s, t) {
        let w = choose|i: int| #[trigger] occurs_at(s, t, i);
        assert(0 <= w);
    }
}

/// A text that contains `u` contains everything `u` contains.
pub proof fn lemma_substr_trans(s: Seq<char>, u: Seq<char>, t: Seq<char>)
    requires
        has_substr(s, u),
        has_substr(u, t),
    ensures
        has_substr(s, t),
{
    let i = choose|i: int| #[trigger] occurs_at(s, u, i);
    let j = choose|j: int| #[trigger] occurs_at(u, t, j);
    assert(s.subrange(i + j, i + j + t.len()) =~= u.subrange(j, j + t.len())) by {
        assert(s.subrange(i, i + u.len()) == u);
        assert forall|k: int| 0 <= k < t.len() implies #[trigger] s.subrange(i + j, i + j + t.len())[k]
            == u.subrange(j, j + t.len())[k] by {
            assert(s.subrange(i, i + u.len())[j + k] == s[i + j + k]);
        }
    }
    assert(occurs_at(s, t, i + j));
}

/// `t` occurs in `u` at `i`, so it occurs in `u`.
pub proof fn lemma_substr_at(u: Seq<char>, t: Seq<char>, i: int)
    requires
        0 <= i,
        i + t.len() <= u.len(),
        u.subrange(i, i + t.len()) =~= t,
    ensures
        has_substr(u, t),
{
    assert(occurs_at(u, t, i));
}

/// Appending a character that does not end the needle neither makes nor
/// breaks an occurrence.
pub proof fn lemma_occurs_at_push(m: Seq<char>, c: char, t: Seq<char>, i: int)
    requires
        t.len() > 0,
        t.last() != c,
    ensures
        occurs_at(m.push(c), t, i) == occurs_at(m, t, i),
{
    let s = m.push(c);
    if 0 <= i && i + t.len() <= m.len() {
        assert(s.subrange(i, i + t.len()) =~= m.subrange(i, i + t.len()));
    } else if 0 <= i && i + t.len() == s.len() {
        assert(s.subrange(i, i + t.len()).last() == c);
    }
}

/// Appending a character that does not end the needle keeps `has_substr`.
pub proof fn lemma_substr_push(m: Seq<char>, c: char, t: Seq<char>)
    requires
        t.len() > 0,
        t.last() != c,
    ensures
        has_substr(m.push(c), t) == has_substr(m, t),
{
    if has_substr(m, t) {
        let i = choose|i: int| #[trigger] occurs_at(m, t, i);
        lemma_occurs_at_push(m, c, t, i);
    }
    if has_substr(m.push(c), t) {
        let i = choose|i: int| #[trigger] occurs_at(m.push(c), t, i);
        lemma_occurs_at_push(m, c, t, i);
    }
}

/// Appending a character that does not end the needle keeps `find_from`.
pub proof fn lemma_find_from_push(m: Seq<char>, c: char, t: Seq<char>, i: int)
    requires
        t.len() > 0,
        t.last() != c,
    ensures
        find_from(m.push(c), t, i) == find_from(m, t, i),
    decreases m.len() + 2 - i,
{
    lemma_occurs_at_push(m, c, t, i);
    if i < 0 || i + t.len() > m.len() + 1 {
    } else if i + t.len() == m.len() + 1 {
        lemma_find_from_push(m, c, t, i + 1);
    } else if !occurs_at(m, t, i) {
        lemma_find_from_push(m, c, t, i + 1);
    }
}

/// Appending a character other than the separator appends it to what
/// follows the separator.
pub proof fn lemma_after_first_push(m: Seq<char>, c: char, sep: char)
    requires
        c != sep,
    ensures
        after_first(m.push(c), sep) == match after_first(m, sep) {
            Some(v) => Some(v.push(c)),
            None => None,
        },
{
    lemma_find_from_push(m, c, seq![sep], 0);
    if let Some(k) = find(m, seq![sep]) {
        lemma_find(m, seq![sep]);
        assert(m.push(c).skip(k + 1) =~= m.skip(k + 1).push(c));
    }
}

/// Whether `t` occurs in `s` at index `i`.
pub fn occurs_at_exec(s: &[char], t: &[char], i: usize) -> (res: bool)
    ensures
        res == occurs_at(s@, t@, i as int),
{
    if i > s.len() || t.len() > s.len() - i {
        return false;
    }
    let n = s.len();
    let mut k: usize = 0;
    while k < t.len()
        invariant
            n == s@.len(),
            i + t@.len() <= s@.len(),
            k <= t@.len(),
            forall|j: int| 0 <= j < k ==> s@[i + j] == t@[j],
        decreases t@.len() - k,
    {
        assert(i + k < s@.len());
        if s[i + k] != t[k] {
            assert(s@.subrange(i as int, i + t@.len())[k as int] != t@[k as int]);
            return false;
        }
        k = k + 1;
    }
    assert(s@.subrange(i as int, i + t@.len()) =~= t@);
    true
}

/// The first index where `t` occurs in `s`, if any.
pub fn find_exec(s: &[char], t: &[char]) -> (res: Option<usize>)
    ensures
        res matches Some(k) ==> find(s@, t@) == Some(k as int),
        res is None ==> find(s@, t@) is None,
{
    proof {
        lemma_find_from(s@, t@, 0);
    }
    if t.len() > s.len() {
        return None;
    }
    let mut i: usize = 0;
    while i <= s.len() - t.len()
        invariant
            t@.len() <= s@.len(),
            i <= s@.len() - t@.len() + 1,
            find(s@, t@) == find_from(s@, t@, i as int),
        decreases s@.len() - t@.len() + 1 - i,
    {
        if occurs_at_exec(s, t, i) {
            return Some(i);
        }
        if i == s.len() - t.len() {
            assert(find_from(s@, t@, i + 1) is None);
            return None;
        }
        i = i + 1;
    }
    None
}

/// Whether `t` occurs somewhere in `s`.
pub fn contains(s: &[char], t: &[char]) -> (res: bool)
    ensures
        res == has_substr(s@, t@),
{
    proof {
        lemma_find(s@, t@);
    }
    find_exec(s, t).is_some()
}

/// Whether the string `s` contains the string `t`.
pub fn str_contains(s: &str, t: &str) -> (res: bool)
    ensures
        res == has_substr(s@, t@),
{
    let sv = chars_of(s);
    let tv = chars_of(t);
    contains(sv.as_slice(), tv.as_slice())
}

/// Whether `s` begins with `t`.
pub fn starts_with_exec(s: &[char], t: &[char]) -> (res: bool)
    ensures
        res == starts_with(s@, t@),
{
    occurs_at_exec(s, t, 0)
}

/// A copy of `s[i..j]`.
pub fn copy_range(s: &[char], i: usize, j: usize) -> (res: Vec<char>)
    requires
        i <= j <= s@.len(),
    ensures
        res@ == s@.subrange(i as int, j as int),
{
    let mut res: Vec<char> = Vec::new();
    let mut k = i;
    while k < j
        invariant
            i <= k <= j <= s@.len(),
            res@ == s@.subrange(i as int, k as int),
        decreases j - k,
    {
        res.push(s[k]);
        k = k + 1;
        assert(res@ =~= s@.subrange(i as int, k as int));
    }
    res
}


// ---------------------------------------------------------------------------
// Whitespace and trimming

/// Unicode `White_Space`, the property `char::is_whitespace` tests.
pub open spec fn is_whitespace(c: char) -> bool {
    let u = c as u32;
    ||| 0x09 <= u <= 0x0d
    ||| u == 0x20
    ||| u == 0x85
    ||| u == 0xa0
    ||| u == 0x1680
    ||| 0x2000 <= u <= 0x200a
    ||| u == 0x2028
    ||| u == 0x2029
    ||| u == 0x202f
    ||| u == 0x205f
    ||| u == 0x3000
}

/// Whether `c` is Unicode white space.
pub fn is_whitespace_exec(c: char) -> (res: bool)
    ensures
        res == is_whitespace(c),
{
    let u = c as u32;
    (0x09 <= u && u <= 0x0d) || u == 0x20 || u == 0x85 || u == 0xa0 || u == 0x1680 || (0x2000
        <= u && u <= 0x200a) || u == 0x2028 || u == 0x2029 || u == 0x202f || u == 0x205f || u
        == 0x3000
}

/// `s` without its leading white space (`str::trim_start`).
pub open spec fn trim_start(s: Seq<char>) -> Seq<char>
    decreases s.len(),
{
    if s.len() > 0 && is_whitespace(s[0]) {
        trim_start(s.drop_first())
    } else {
        s
    }
}

/// `s` without its trailing white space (`str::trim_end`).
pub open spec fn trim_end(s: Seq<char>) -> Seq<char>
    decreases s.len(),
{
    if s.len() > 0 && is_whitespace(s.last()) {
        trim_end(s.drop_last())
    } else {
        s
    }
}

/// `s` without leading and trailing white space (`str::trim`).
pub open spec fn trim(s: Seq<char>) -> Seq<char> {
    trim_end(trim_start(s))
}

/// Trimming keeps a text free of line breaks, and what it leaves starts and
/// ends with a character that is not white space.
pub proof fn lemma_trim_start_props(x: Seq<char>)
    ensures
        no_newline(x) ==> no_newline(trim_start(x)),
        trim_start(x).len() > 0 ==> !is_whitespace(trim_start(x)[0]),
        trim_start(x).len() > 0 ==> trim_start(x).last() == x.last(),
    decreases x.len(),
{
    if x.len() > 0 && is_whitespace(x[0]) {
        lemma_trim_start_props(x.drop_first());
    }
}

pub proof fn lemma_trim_end_props(x: Seq<char>)
    ensures
        no_newline(x) ==> no_newline(trim_end(x)),
        trim_end(x).len() > 0 ==> !is_whitespace(trim_end(x).last()),
        trim_end(x).len() > 0 ==> trim_end(x)[0] == x[0],
    decreases x.len(),
{
    if x.len() > 0 && is_whitespace(x.last()) {
        lemma_trim_end_props(x.drop_last());
    }
}

/// What trimming leaves is free of line breaks if the text was, and is
/// empty or starts and ends with non-space.
pub proof fn lemma_trim_props(x: Seq<char>)
    ensures
        no_newline(x) ==> no_newline(trim(x)),
        trim(x).len() > 0 ==> !is_whitespace(trim(x)[0]) && !is_whitespace(trim(x).last()),
{
    lemma_trim_start_props(x);
    lemma_trim_end_props(trim_start(x));
}

/// A text that starts and ends with non-space is its own trim.
pub proof fn lemma_trim_fixed(x: Seq<char>)
    requires
        x.len() > 0,
        !is_whitespace(x[0]),
        !is_whitespace(x.last()),
    ensures
        trim(x) == x,
{
}

/// Trimming twice is trimming once.
pub proof fn lemma_trim_idempotent(x: Seq<char>)
    ensures
        trim(trim(x)) == trim(x),
{
    lemma_trim_props(x);
    if trim(x).len() > 0 {
        lemma_trim_fixed(trim(x));
    }
}

/// Appending a character to a text appends it to the text's `trim_start`,
/// unless that is empty and the character is white space.
pub proof fn lemma_trim_start_push(x: Seq<char>, c: char)
    ensures
        trim_start(x.push(c)) == if trim_start(x).len() == 0 {
            if is_whitespace(c) {
                Seq::<char>::empty()
            } else {
                seq![c]
            }
        } else {
            trim_start(x).push(c)
        },
    decreases x.len(),
{
    if x.len() > 0 {
        assert(x.push(c)[0] == x[0]);
        assert(x.push(c).drop_first() =~= x.drop_first().push(c));
        if is_whitespace(x[0]) {
            lemma_trim_start_push(x.drop_first(), c);
            assert(trim_start(x.push(c)) == trim_start(x.drop_first().push(c)));
            assert(trim_start(x) == trim_start(x.drop_first()));
        } else {
            assert(trim_start(x) == x);
            assert(trim_start(x.push(c)) == x.push(c));
        }
    } else {
        assert(x.push(c) =~= seq![c]);
        assert(trim_start(x) == x);
        assert(x =~= Seq::<char>::empty());
        if is_whitespace(c) {
            assert(seq![c].drop_first() =~= Seq::<char>::empty());
            assert(trim_start(seq![c]) == trim_start(Seq::<char>::empty()));
            assert(trim_start(Seq::<char>::empty()) == Seq::<char>::empty());
        } else {
            assert(trim_start(seq![c]) == seq![c]);
        }
    }
}

/// Appending white space does not change the trim.
pub proof fn lemma_trim_push_space(x: Seq<char>, c: char)
    requires
        is_whitespace(c),
    ensures
        trim(x.push(c)) == trim(x),
{
    lemma_trim_start_push(x, c);
    if trim_start(x).len() > 0 {
        assert(trim_start(x).push(c).drop_last() =~= trim_start(x));
    }
}

/// The number of leading white-space characters of `s`.
fn leading_space(s: &[char]) -> (res: usize)
    ensures
        res <= s@.len(),
        trim_start(s@) == s@.skip(res as int),
{
    let mut i: usize = 0;
    assert(s@.skip(0) =~= s@);
    while i < s.len() && is_whitespace_exec(s[i])
        invariant
            i <= s@.len(),
            trim_start(s@) == trim_start(s@.skip(i as int)),
        decreases s@.len() - i,
    {
        assert(s@.skip(i as int).drop_first() =~= s@.skip(i + 1));
        i = i + 1;
    }
    proof {
        lemma_trim_start_fixed(s@, i as int);
    }
    i
}

/// Text that starts with a non-space (or is empty) is its own `trim_start`.
proof fn lemma_trim_start_fixed(s: Seq<char>, i: int)
    requires
        0 <= i <= s.len(),
        i == s.len() || !is_whitespace(s[i]),
    ensures
        trim_start(s.skip(i)) == s.skip(i),
{
}

/// `s` without its leading white space.
pub fn trim_start_exec(s: &[char]) -> (res: Vec<char>)
    ensures
        res@ == trim_start(s@),
{
    let i = leading_space(s);
    copy_range(s, i, s.len())
}

/// `s` without leading and trailing white space.
pub fn trim_exec(s: &[char]) -> (res: Vec<char>)
    ensures
        res@ == trim(s@),
{
    let i = leading_space(s);
    let mut j: usize = s.len();
    assert(s@.subrange(i as int, s@.len() as int) =~= s@.skip(i as int));
    while j > i && is_whitespace_exec(s[j - 1])
        invariant
            i <= j <= s@.len(),
            trim(s@) == trim_end(s@.subrange(i as int, j as int)),
        decreases j,
    {
        assert(s@.subrange(i as int, j as int).drop_last() =~= s@.subrange(i as int, j - 1));
        j = j - 1;
    }
    copy_range(s, i, j)
}

// ---------------------------------------------------------------------------
// Lines

/// The pieces of `s` between `'\n'` characters (like `str::split('\n')`);
/// there is always at least one.
pub open spec fn pieces(s: Seq<char>) -> Seq<Seq<char>>
    decreases s.len(),
{
    if s.len() == 0 {
        seq![Seq::<char>::empty()]
    } else {
        let p = pieces(s.drop_last());
        if s.last() == '\n' {
            p.push(Seq::<char>::empty())
        } else {
            p.update(p.len() - 1, p.last().push(s.last()))
        }
    }
}

/// Joining two texts with a line break joins their pieces.
pub proof fn lemma_pieces_concat(a: Seq<char>, b: Seq<char>)
    ensures
        pieces(a + seq!['\n'] + b) == pieces(a) + pieces(b),
    decreases b.len(),
{
    lemma_pieces_nonempty(a);
    let j = a + seq!['\n'] + b;
    if b.len() == 0 {
        assert(j =~= a.push('\n'));
        assert(j.drop_last() =~= a);
        assert(pieces(a).push(Seq::<char>::empty()) =~= pieces(a) + seq![Seq::<char>::empty()]);
    } else {
        lemma_pieces_concat(a, b.drop_last());
        lemma_pieces_nonempty(b.drop_last());
        assert(j.drop_last() =~= a + seq!['\n'] + b.drop_last());
        assert(j.last() == b.last());
        let p = pieces(a);
        let q = pieces(b.drop_last());
        if b.last() == '\n' {
            assert((p + q).push(Seq::<char>::empty()) =~= p + q.push(Seq::<char>::empty()));
        } else {
            let pq = p + q;
            assert(pq.update(pq.len() - 1, pq.last().push(b.last())) =~= p + q.update(
                q.len() - 1,
                q.last().push(b.last()),
            ));
        }
    }
}

/// The lines of two texts joined by a line break: every piece of the first
/// (its last one included, even when empty, and without a `'\r'` before
/// the break), then the lines of the second.
pub proof fn lemma_lines_concat(a: Seq<char>, b: Seq<char>)
    ensures
        lines(a + seq!['\n'] + b) == pieces(a).map_values(|l: Seq<char>| strip_cr(l)) + lines(b),
{
    lemma_pieces_concat(a, b);
    lemma_pieces_nonempty(a);
    lemma_pieces_nonempty(b);
    let p = pieces(a);
    let q = pieces(b);
    let pq = p + q;
    assert(pq.last() == q.last());
    assert(pq.drop_last().map_values(|l: Seq<char>| strip_cr(l)) =~= p.map_values(
        |l: Seq<char>| strip_cr(l),
    ) + q.drop_last().map_values(|l: Seq<char>| strip_cr(l)));
    if q.last().len() == 0 {
    } else {
        assert(p.map_values(|l: Seq<char>| strip_cr(l)) + q.drop_last().map_values(
            |l: Seq<char>| strip_cr(l),
        ).push(q.last()) =~= (p.map_values(|l: Seq<char>| strip_cr(l)) + q.drop_last().map_values(
            |l: Seq<char>| strip_cr(l),
        )).push(q.last()));
    }
}

/// There is always at least one piece.
pub proof fn lemma_pieces_nonempty(s: Seq<char>)
    ensures
        pieces(s).len() >= 1,
    decreases s.len(),
{
    if s.len() > 0 {
        lemma_pieces_nonempty(s.drop_last());
    }
}

/// `x` holds no line break.
pub open spec fn no_newline(x: Seq<char>) -> bool {
    forall|i: int| 0 <= i < x.len() ==> x[i] != '\n'
}

/// No piece holds a line break.
pub proof fn lemma_pieces_no_newline(s: Seq<char>)
    ensures
        forall|k: int| 0 <= k < pieces(s).len() ==> no_newline(#[trigger] pieces(s)[k]),
    decreases s.len(),
{
    lemma_pieces_nonempty(s);
    if s.len() > 0 {
        lemma_pieces_no_newline(s.drop_last());
        lemma_pieces_nonempty(s.drop_last());
        let p = pieces(s.drop_last());
        if s.last() != '\n' {
            let q = p.update(p.len() - 1, p.last().push(s.last()));
            assert forall|k: int| 0 <= k < q.len() implies no_newline(#[trigger] q[k]) by {
                if k == p.len() - 1 {
                    assert(no_newline(p[k]));
                } else {
                    assert(q[k] == p[k]);
                }
            }
        } else {
            let q = p.push(Seq::<char>::empty());
            assert forall|k: int| 0 <= k < q.len() implies no_newline(#[trigger] q[k]) by {
                if k < p.len() {
                    assert(q[k] == p[k]);
                }
            }
        }
    }
}

/// No line holds a line break.
pub proof fn lemma_lines_no_newline(s: Seq<char>)
    ensures
        forall|k: int| 0 <= k < lines(s).len() ==> no_newline(#[trigger] lines(s)[k]),
{
    lemma_pieces_no_newline(s);
    lemma_pieces_nonempty(s);
    let p = pieces(s);
    assert forall|k: int| 0 <= k < lines(s).len() implies no_newline(#[trigger] lines(s)[k]) by {
        if k < p.len() - 1 {
            assert(no_newline(p[k]));
            assert(lines(s)[k] == strip_cr(p[k]));
        } else {
            assert(no_newline(p[p.len() - 1]));
        }
    }
}

/// `x` holds no `c`.
pub open spec fn avoids(x: Seq<char>, c: char) -> bool {
    forall|i: int| 0 <= i < x.len() ==> x[i] != c
}

/// The pieces of a text without `c` hold no `c`.
pub proof fn lemma_pieces_avoid(s: Seq<char>, c: char)
    requires
        avoids(s, c),
    ensures
        forall|k: int| 0 <= k < pieces(s).len() ==> avoids(#[trigger] pieces(s)[k], c),
    decreases s.len(),
{
    lemma_pieces_nonempty(s);
    if s.len() > 0 {
        assert(avoids(s.drop_last(), c));
        lemma_pieces_avoid(s.drop_last(), c);
        lemma_pieces_nonempty(s.drop_last());
        let p = pieces(s.drop_last());
        assert(s.last() != c);
        if s.last() != '\n' {
            let q = p.update(p.len() - 1, p.last().push(s.last()));
            assert forall|k: int| 0 <= k < q.len() implies avoids(#[trigger] q[k], c) by {
                if k == p.len() - 1 {
                    assert(avoids(p[k], c));
                } else {
                    assert(q[k] == p[k]);
                }
            }
        } else {
            let q = p.push(Seq::<char>::empty());
            assert forall|k: int| 0 <= k < q.len() implies avoids(#[trigger] q[k], c) by {
                if k < p.len() {
                    assert(q[k] == p[k]);
                }
            }
        }
    }
}

/// The lines of a text without `c` hold no `c`.
pub proof fn lemma_lines_avoid(s: Seq<char>, c: char)
    requires
        avoids(s, c),
    ensures
        forall|k: int| 0 <= k < lines(s).len() ==> avoids(#[trigger] lines(s)[k], c),
{
    lemma_pieces_avoid(s, c);
    lemma_pieces_nonempty(s);
    let p = pieces(s);
    assert forall|k: int| 0 <= k < lines(s).len() implies avoids(#[trigger] lines(s)[k], c) by {
        if k < p.len() - 1 {
            assert(avoids(p[k], c));
            assert(lines(s)[k] == strip_cr(p[k]));
        } else {
            assert(avoids(p[p.len() - 1], c));
        }
    }
}

/// A one-character needle occurs exactly where that character stands.
pub proof fn lemma_substr_char(s: Seq<char>, c: char)
    ensures
        has_substr(s, seq![c]) <==> !avoids(s, c),
{
    if has_substr(s, seq![c]) {
        let i = choose|i: int| #[trigger] occurs_at(s, seq![c], i);
        assert(s.subrange(i, i + 1)[0] == s[i]);
    }
    if !avoids(s, c) {
        let i = choose|i: int| 0 <= i < s.len() && s[i] == c;
        assert(s.subrange(i, i + 1) =~= seq![c]);
        assert(occurs_at(s, seq![c], i));
    }
}

/// A text without line breaks splits into itself alone.
pub proof fn lemma_pieces_single(x: Seq<char>)
    requires
        no_newline(x),
    ensures
        pieces(x) == seq![x],
    decreases x.len(),
{
    if x.len() > 0 {
        lemma_pieces_single(x.drop_last());
        assert(x.last() != '\n');
        assert(x.drop_last().push(x.last()) =~= x);
        let p = pieces(x.drop_last());
        assert(p.update(p.len() - 1, p.last().push(x.last())) =~= seq![x]);
    } else {
        assert(x =~= Seq::<char>::empty());
    }
}

/// A non-empty text without line breaks is one line.
pub proof fn lemma_lines_single(x: Seq<char>)
    requires
        no_newline(x),
        x.len() > 0,
    ensures
        lines(x) == seq![x],
{
    lemma_pieces_single(x);
    assert(pieces(x).drop_last().map_values(|l: Seq<char>| strip_cr(l)) =~= Seq::<Seq<char>>::empty());
    assert(Seq::<Seq<char>>::empty().push(x) =~= seq![x]);
}

/// A line that ended in `"\r\n"` loses its `'\r'`.
pub open spec fn strip_cr(l: Seq<char>) -> Seq<char> {
    if l.len() > 0 && l.last() == '\r' {
        l.drop_last()
    } else {
        l
    }
}

/// The lines of `s` as `str::lines` yields them: split at `'\n'`, a `'\r'`
/// before a `'\n'` dropped, and no empty last line after a final `'\n'`.
pub open spec fn lines(s: Seq<char>) -> Seq<Seq<char>> {
    let p = pieces(s);
    let body = p.drop_last().map_values(|l: Seq<char>| strip_cr(l));
    if p.last().len() == 0 {
        body
    } else {
        body.push(p.last())
    }
}

/// `l` with a trailing `'\r'` removed.
fn strip_cr_exec(l: Vec<char>) -> (res: Vec<char>)
    ensures
        res@ == strip_cr(l@),
{
    let mut l = l;
    if l.len() > 0 && l[l.len() - 1] == '\r' {
        l.pop();
    }
    l
}

/// The lines of `s`, as `str::lines` splits them.
pub fn lines_exec(s: &[char]) -> (res: Vec<Vec<char>>)
    ensures
        res@.len() == lines(s@).len(),
        forall|i: int| 0 <= i < res@.len() ==> #[trigger] res@[i]@ == lines(s@)[i],
{
    let mut done: Vec<Vec<char>> = Vec::new();
    let mut cur: Vec<char> = Vec::new();
    let mut i: usize = 0;
    assert(s@.take(0) =~= Seq::<char>::empty());
    while i < s.len()
        invariant
            i <= s@.len(),
            pieces(s@.take(i as int)).len() == done@.len() + 1,
            cur@ == pieces(s@.take(i as int)).last(),
            forall|k: int|
                0 <= k < done@.len() ==> #[trigger] done@[k]@ == strip_cr(
                    pieces(s@.take(i as int))[k],
                ),
        decreases s@.len() - i,
    {
        let ghost before = s@.take(i as int);
        let c = s[i];
        assert(s@.take(i + 1).drop_last() =~= before);
        assert(s@.take(i + 1).last() == c);
        if c == '\n' {
            let line = strip_cr_exec(cur);
            done.push(line);
            cur = Vec::new();
        } else {
            cur.push(c);
        }
        i = i + 1;
    }
    assert(s@.take(s@.len() as int) =~= s@);
    let ghost p = pieces(s@);
    let ghost body = p.drop_last().map_values(|l: Seq<char>| strip_cr(l));
    if cur.len() > 0 {
        done.push(cur);
        assert forall|k: int| 0 <= k < done@.len() implies #[trigger] done@[k]@ == lines(
            s@,
        )[k] by {
            if k < done@.len() - 1 {
                assert(body[k] == strip_cr(p[k]));
            }
        }
    } else {
        assert forall|k: int| 0 <= k < done@.len() implies #[trigger] done@[k]@ == lines(
            s@,
        )[k] by {
            assert(body[k] == strip_cr(p[k]));
        }
    }
    done
}

// ---------------------------------------------------------------------------
// Fields

/// What follows the first `sep` in `s`: the second item of `s.splitn(2, sep)`.
pub open spec fn after_first(s: Seq<char>, sep: char) -> Option<Seq<char>> {
    match find(s, seq![sep]) {
        Some(k) => Some(s.skip(k + 1)),
        None => None,
    }
}

/// What follows the first `sep` in `s`, if `sep` occurs.
pub fn after_first_exec(s: &[char], sep: char) -> (res: Option<Vec<char>>)
    ensures
        res matches Some(v) ==> after_first(s@, sep) == Some(v@),
        res is None ==> after_first(s@, sep) is None,
{
    let needle = vec![sep];
    assert(needle@ =~= seq![sep]);
    match find_exec(s, needle.as_slice()) {
        Some(k) => {
            proof {
                lemma_find(s@, seq![sep]);
                assert(occurs_at(s@, seq![sep], k as int));
            }
            let n = s.len();
            assert(k < n);
            Some(copy_range(s, k + 1, n))
        },
        None => None,
    }
}

// ---------------------------------------------------------------------------
// UTF-8 byte lengths

/// The number of bytes `c` takes in UTF-8 (`char::len_utf8`).
pub open spec fn utf8_width(c: char) -> nat {
    let u = c as u32;
    if u < 0x80 {
        1
    } else if u < 0x800 {
        2
    } else if u < 0x10000 {
        3
    } else {
        4
    }
}

/// The number of bytes `s` takes in UTF-8 (`str::len`).
pub open spec fn utf8_len(s: Seq<char>) -> nat
    decreases s.len(),
{
    if s.len() == 0 {
        0
    } else {
        utf8_len(s.drop_last()) + utf8_width(s.last())
    }
}

/// The number of bytes `c` takes in UTF-8.
pub fn utf8_width_exec(c: char) -> (res: usize)
    ensures
        res == utf8_width(c),
{
    let u = c as u32;
    if u < 0x80 {
        1
    } else if u < 0x800 {
        2
    } else if u < 0x10000 {
        3
    } else {
        4
    }
}

/// Byte lengths of prefixes grow with the prefix.
pub proof fn lemma_utf8_len_prefix(s: Seq<char>, i: int, j: int)
    requires
        0 <= i <= j <= s.len(),
    ensures
        utf8_len(s.take(i)) + (j - i) <= utf8_len(s.take(j)),
        utf8_len(s.take(j)) <= utf8_len(s.take(i)) + 4 * (j - i),
    decreases j - i,
{
    if i < j {
        lemma_utf8_len_prefix(s, i, j - 1);
        assert(s.take(j).drop_last() =~= s.take(j - 1));
    }
}

/// The byte length of a concatenation is the sum of the byte lengths.
pub proof fn lemma_utf8_len_concat(a: Seq<char>, b: Seq<char>)
    ensures
        utf8_len(a + b) == utf8_len(a) + utf8_len(b),
    decreases b.len(),
{
    if b.len() == 0 {
        assert(a + b =~= a);
    } else {
        lemma_utf8_len_concat(a, b.drop_last());
        assert((a + b).drop_last() =~= a + b.drop_last());
    }
}

/// Counting from `k`, the number of leading characters of `s` whose UTF-8
/// encoding still fits in `n` bytes.
pub open spec fn fit_from(s: Seq<char>, n: nat, k: int) -> int
    decreases s.len() - k,
{
    if 0 <= k < s.len() && utf8_len(s.take(k + 1)) <= n {
        fit_from(s, n, k + 1)
    } else {
        k
    }
}

/// The number of leading characters of `s` that fit in `n` bytes of UTF-8.
pub open spec fn chars_within(s: Seq<char>, n: nat) -> int {
    fit_from(s, n, 0)
}

/// `s` cut at the last character boundary within its first `n` bytes.
pub open spec fn prefix_within(s: Seq<char>, n: nat) -> Seq<char> {
    s.take(chars_within(s, n))
}

proof fn lemma_fit_from(s: Seq<char>, n: nat, k: int)
    requires
        0 <= k <= s.len(),
        utf8_len(s.take(k)) <= n,
    ensures
        k <= fit_from(s, n, k) <= s.len(),
        utf8_len(s.take(fit_from(s, n, k))) <= n,
        fit_from(s, n, k) < s.len() ==> utf8_len(s.take(fit_from(s, n, k) + 1)) > n,
    decreases s.len() - k,
{
    if k < s.len() && utf8_len(s.take(k + 1)) <= n {
        lemma_fit_from(s, n, k + 1);
    }
}

/// The cut keeps at most `n` bytes, as many characters as fit, and at least
/// one character of a non-empty text when `n` is at least 4.
pub proof fn lemma_prefix_within(s: Seq<char>, n: nat)
    ensures
        0 <= chars_within(s, n) <= s.len(),
        utf8_len(prefix_within(s, n)) <= n,
        chars_within(s, n) < s.len() ==> utf8_len(s.take(chars_within(s, n) + 1)) > n,
        n >= 4 && s.len() > 0 ==> chars_within(s, n) >= 1,
{
    assert(s.take(0) =~= Seq::<char>::empty());
    lemma_fit_from(s, n, 0);
    if n >= 4 && s.len() > 0 {
        assert(s.take(1).drop_last() =~= s.take(0));
        assert(utf8_len(s.take(1)) <= 4);
        lemma_fit_from(s, n, 1);
    }
}

/// Whether the UTF-8 encoding of `s` is longer than `n` bytes.
pub fn utf8_longer_than(s: &[char], n: usize) -> (res: bool)
    ensures
        res == (utf8_len(s@) > n),
{
    let mut i: usize = 0;
    let mut total: usize = 0;
    assert(s@.take(0) =~= Seq::<char>::empty());
    while i < s.len()
        invariant
            i <= s@.len(),
            total == utf8_len(s@.take(i as int)),
            total <= n,
        decreases s@.len() - i,
    {
        assert(s@.take(i + 1).drop_last() =~= s@.take(i as int));
        let w = utf8_width_exec(s[i]);
        if w > n - total {
            proof {
                lemma_utf8_len_prefix(s@, i + 1, s@.len() as int);
                assert(s@.take(s@.len() as int) =~= s@);
            }
            return true;
        }
        total = total + w;
        i = i + 1;
    }
    assert(s@.take(s@.len() as int) =~= s@);
    false
}

/// The number of leading characters of `s` that fit in `n` bytes of UTF-8.
pub fn chars_within_exec(s: &[char], n: usize) -> (res: usize)
    ensures
        res == chars_within(s@, n as nat),
{
    let mut i: usize = 0;
    let mut total: usize = 0;
    assert(s@.take(0) =~= Seq::<char>::empty());
    while i < s.len()
        invariant
            i <= s@.len(),
            total == utf8_len(s@.take(i as int)),
            total <= n,
            chars_within(s@, n as nat) == fit_from(s@, n as nat, i as int),
        decreases s@.len() - i,
    {
        assert(s@.take(i + 1).drop_last() =~= s@.take(i as int));
        let w = utf8_width_exec(s[i]);
        if w > n - total {
            return i;
        }
        total = total + w;
        i = i + 1;
    }
    i
}

// ---------------------------------------------------------------------------
// Numbers

/// The decimal digit for `d < 10`.
pub open spec fn digit(d: nat) -> char {
    ((48 + d) as u8) as char
}

/// The decimal representation of `n`, as `usize::to_string` writes it.
pub open spec fn decimal(n: nat) -> Seq<char>
    decreases n,
{
    if n < 10 {
        seq![digit(n)]
    } else {
        decimal(n / 10).push(digit(n % 10))
    }
}

/// The decimal representation of `n`.
pub fn decimal_exec(n: usize) -> (res: Vec<char>)
    ensures
        res@ == decimal(n as nat),
    decreases n,
{
    if n < 10 {
        let d = ((48 + n) as u8) as char;
        vec![d]
    } else {
        let mut v = decimal_exec(n / 10);
        let d = ((48 + n % 10) as u8) as char;
        v.push(d);
        v
    }
}

} // verus!
