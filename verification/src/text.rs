//! Characters, lines and words: the text primitives the rest of the crate is stated over.
//!
//! A string is modelled by its sequence of characters, a list of strings by the sequence of
//! their sequences.
use vstd::prelude::*;

verus! {

/// Appends one character to a string. `std` documents `String::push` as appending the given
/// character to the end of the string.
pub assume_specification[ String::push ](s: &mut String, ch: char)
    ensures
        final(s)@ == old(s)@.push(ch),
;

/// The characters with the Unicode `White_Space` property.
pub open spec fn is_white_space(c: char) -> bool {
    let n = c as int;
    ||| 0x9 <= n <= 0xd
    ||| n == 0x20
    ||| n == 0x85
    ||| n == 0xa0
    ||| n == 0x1680
    ||| 0x2000 <= n <= 0x200a
    ||| n == 0x2028
    ||| n == 0x2029
    ||| n == 0x202f
    ||| n == 0x205f
    ||| n == 0x3000
}

/// Whether a character is white space.
pub fn white_space(c: char) -> (r: bool)
    ensures
        r == is_white_space(c),
{
    let n: u32 = c as u32;
    (0x9 <= n && n <= 0xd) || n == 0x20 || n == 0x85 || n == 0xa0 || n == 0x1680 || (0x2000 <= n
        && n <= 0x200a) || n == 0x2028 || n == 0x2029 || n == 0x202f || n == 0x205f || n == 0x3000
}

/// The characters of a string, in order.
pub fn chars_of(s: &str) -> (r: Vec<char>)
    ensures
        r@ == s@,
{
    let mut out: Vec<char> = Vec::new();
    for c in it: s.chars()
        invariant
            out@ == s@.take(it.index()),
            it.seq() == s@,
    {
        out.push(c);
    }
    assert(s@.take(s@.len() as int) == s@);
    out
}

/// Whether two strings hold the same characters.
pub fn same_text(a: &str, b: &str) -> (r: bool)
    ensures
        r == (a@ == b@),
{
    let x: Vec<char> = chars_of(a);
    let y: Vec<char> = chars_of(b);
    if x.len() != y.len() {
        return false;
    }
    let mut i: usize = 0;
    while i < x.len()
        invariant
            i <= x@.len(),
            x@.len() == y@.len(),
            x@ == a@,
            y@ == b@,
            forall|j: int| 0 <= j < i ==> x@[j] == y@[j],
        decreases x@.len() - i,
    {
        if x[i] != y[i] {
            return false;
        }
        i = i + 1;
    }
    assert(x@ =~= y@);
    true
}

/// The string that holds the characters from `from` up to `to`.
pub fn string_of(cs: &Vec<char>, from: usize, to: usize) -> (r: String)
    requires
        from <= to <= cs@.len(),
    ensures
        r@ == cs@.subrange(from as int, to as int),
{
    let mut out = String::new();
    let mut i: usize = from;
    while i < to
        invariant
            from <= i <= to <= cs@.len(),
            out@ == cs@.subrange(from as int, i as int),
        decreases to - i,
    {
        out.push(cs[i]);
        assert(cs@.subrange(from as int, i + 1) =~= cs@.subrange(from as int, i as int).push(
            cs@[i as int],
        ));
        i = i + 1;
    }
    out
}

/// A copy of an optional text, read as the empty text where there is none.
pub open spec fn text_or_empty(o: Option<Seq<char>>) -> Seq<char> {
    match o {
        Some(s) => s,
        None => Seq::empty(),
    }
}

/// The characters of an optional string.
pub open spec fn opt_text(o: Option<String>) -> Option<Seq<char>> {
    match o {
        Some(s) => Some(s@),
        None => None,
    }
}

/// An optional text, or the empty text.
pub fn string_or_empty(o: &Option<String>) -> (r: String)
    ensures
        r@ == text_or_empty(opt_text(*o)),
{
    match o {
        Some(s) => s.clone(),
        None => String::new(),
    }
}

/// `Some` of a text that is not empty, `None` of an empty one.
pub open spec fn non_empty(s: Seq<char>) -> Option<Seq<char>> {
    if s.len() == 0 {
        None
    } else {
        Some(s)
    }
}

/// A text, where it is not empty.
pub fn some_if_not_empty(s: String) -> (r: Option<String>)
    ensures
        opt_text(r) == non_empty(s@),
{
    if s.as_str().is_empty() {
        None
    } else {
        Some(s)
    }
}

// ---------------------------------------------------------------------------------------------
// Trimming.
/// A text without its leading white space.
pub open spec fn trimmed_start(s: Seq<char>) -> Seq<char>
    decreases s.len(),
{
    if s.len() > 0 && is_white_space(s[0]) {
        trimmed_start(s.skip(1))
    } else {
        s
    }
}

/// A text without its trailing white space.
pub open spec fn trimmed_end(s: Seq<char>) -> Seq<char>
    decreases s.len(),
{
    if s.len() > 0 && is_white_space(s.last()) {
        trimmed_end(s.drop_last())
    } else {
        s
    }
}

/// A text without its leading and its trailing white space.
pub open spec fn trimmed(s: Seq<char>) -> Seq<char> {
    trimmed_end(trimmed_start(s))
}

/// A text without the copies of `c` at its end.
pub open spec fn trimmed_end_of(s: Seq<char>, c: char) -> Seq<char>
    decreases s.len(),
{
    if s.len() > 0 && s.last() == c {
        trimmed_end_of(s.drop_last(), c)
    } else {
        s
    }
}

/// A text without the copies of `c` at its start.
pub open spec fn trimmed_start_of(s: Seq<char>, c: char) -> Seq<char>
    decreases s.len(),
{
    if s.len() > 0 && s[0] == c {
        trimmed_start_of(s.skip(1), c)
    } else {
        s
    }
}

/// A text whose first and last character are no white space.
pub open spec fn is_trimmed(s: Seq<char>) -> bool {
    s.len() > 0 ==> !is_white_space(s[0]) && !is_white_space(s.last())
}

pub proof fn lemma_trimmed_end_prefix(s: Seq<char>)
    ensures
        trimmed_end(s).len() <= s.len(),
        trimmed_end(s) == s.take(trimmed_end(s).len() as int),
        trimmed_end(s).len() > 0 ==> !is_white_space(trimmed_end(s).last()),
    decreases s.len(),
{
    if s.len() > 0 && is_white_space(s.last()) {
        lemma_trimmed_end_prefix(s.drop_last());
        assert(s.drop_last().take(trimmed_end(s).len() as int) =~= s.take(
            trimmed_end(s).len() as int,
        ));
    } else {
        assert(s.take(s.len() as int) =~= s);
    }
}

pub proof fn lemma_trimmed_start_suffix(s: Seq<char>)
    ensures
        trimmed_start(s).len() <= s.len(),
        trimmed_start(s) == s.skip(s.len() - trimmed_start(s).len()),
        trimmed_start(s).len() > 0 ==> !is_white_space(trimmed_start(s)[0]),
    decreases s.len(),
{
    if s.len() > 0 && is_white_space(s[0]) {
        lemma_trimmed_start_suffix(s.skip(1));
        let n = trimmed_start(s).len() as int;
        assert(s.skip(1).skip(s.len() - 1 - n) =~= s.skip(s.len() - n));
    } else {
        assert(s.skip(0) =~= s);
    }
}

/// Trimming from both ends keeps what lies between the first and the last character that is no
/// white space.
pub proof fn lemma_trimmed_is(s: Seq<char>, a: int, b: int)
    requires
        0 <= a < b <= s.len(),
        !is_white_space(s[a]),
        !is_white_space(s[b - 1]),
        forall|i: int| 0 <= i < a ==> is_white_space(#[trigger] s[i]),
        forall|i: int| b <= i < s.len() ==> is_white_space(#[trigger] s[i]),
    ensures
        trimmed_start(s) == s.skip(a),
        trimmed_end(s) == s.take(b),
        trimmed(s) == s.subrange(a, b),
{
    lemma_trimmed_start_is(s, a);
    lemma_trimmed_end_is(s, b);
    let t = s.skip(a);
    assert forall|i: int| b - a <= i < t.len() implies is_white_space(#[trigger] t[i]) by {
        assert(t[i] == s[a + i]);
    }
    lemma_trimmed_end_is(t, b - a);
    assert(t.take(b - a) =~= s.subrange(a, b));
}

pub proof fn lemma_trimmed_start_is(s: Seq<char>, a: int)
    requires
        0 <= a < s.len(),
        !is_white_space(s[a]),
        forall|i: int| 0 <= i < a ==> is_white_space(#[trigger] s[i]),
    ensures
        trimmed_start(s) == s.skip(a),
    decreases a,
{
    if a > 0 {
        assert(is_white_space(s[0]));
        let t = s.skip(1);
        assert forall|i: int| 0 <= i < a - 1 implies is_white_space(#[trigger] t[i]) by {
            assert(t[i] == s[i + 1]);
        }
        lemma_trimmed_start_is(t, a - 1);
        assert(t.skip(a - 1) =~= s.skip(a));
    } else {
        assert(s.skip(0) =~= s);
    }
}

pub proof fn lemma_trimmed_end_is(s: Seq<char>, b: int)
    requires
        0 < b <= s.len(),
        !is_white_space(s[b - 1]),
        forall|i: int| b <= i < s.len() ==> is_white_space(#[trigger] s[i]),
    ensures
        trimmed_end(s) == s.take(b),
    decreases s.len(),
{
    if b < s.len() {
        assert(is_white_space(s[s.len() - 1]));
        let t = s.drop_last();
        assert forall|i: int| b <= i < t.len() implies is_white_space(#[trigger] t[i]) by {
            assert(t[i] == s[i]);
        }
        lemma_trimmed_end_is(t, b);
        assert(t.take(b) =~= s.take(b));
    } else {
        assert(s.take(b) =~= s);
    }
}

/// Nothing is left of white space alone.
pub proof fn lemma_trimmed_blank(s: Seq<char>)
    requires
        forall|i: int| 0 <= i < s.len() ==> is_white_space(#[trigger] s[i]),
    ensures
        trimmed_start(s) == Seq::<char>::empty(),
        trimmed_end(s) == Seq::<char>::empty(),
        trimmed(s) == Seq::<char>::empty(),
    decreases s.len(),
{
    if s.len() > 0 {
        assert(is_white_space(s[0]));
        assert(is_white_space(s[s.len() - 1]));
        let t = s.skip(1);
        assert forall|i: int| 0 <= i < t.len() implies is_white_space(#[trigger] t[i]) by {
            assert(t[i] == s[i + 1]);
        }
        lemma_trimmed_blank(t);
        let u = s.drop_last();
        assert forall|i: int| 0 <= i < u.len() implies is_white_space(#[trigger] u[i]) by {
            assert(u[i] == s[i]);
        }
        lemma_trimmed_blank(u);
    } else {
        assert(s =~= Seq::<char>::empty());
    }
}

/// The bounds of what trimming keeps, where a text is not all white space.
pub proof fn lemma_trimmed_bounds(s: Seq<char>) -> (r: (int, int))
    requires
        exists|i: int| 0 <= i < s.len() && !is_white_space(#[trigger] s[i]),
    ensures
        0 <= r.0 < r.1 <= s.len(),
        !is_white_space(s[r.0]),
        !is_white_space(s[r.1 - 1]),
        forall|i: int| 0 <= i < r.0 ==> is_white_space(#[trigger] s[i]),
        forall|i: int| r.1 <= i < s.len() ==> is_white_space(#[trigger] s[i]),
    decreases s.len(),
{
    let k = choose|i: int| 0 <= i < s.len() && !is_white_space(#[trigger] s[i]);
    if is_white_space(s[0]) {
        let t = s.skip(1);
        assert(!is_white_space(t[k - 1]));
        let p = lemma_trimmed_bounds(t);
        assert forall|i: int| 0 <= i < p.0 + 1 implies is_white_space(#[trigger] s[i]) by {
            if i > 0 {
                assert(s[i] == t[i - 1]);
            }
        }
        assert forall|i: int| p.1 + 1 <= i < s.len() implies is_white_space(#[trigger] s[i]) by {
            assert(s[i] == t[i - 1]);
        }
        (p.0 + 1, p.1 + 1)
    } else if is_white_space(s.last()) {
        let t = s.drop_last();
        assert(!is_white_space(t[0]));
        let p = lemma_trimmed_bounds(t);
        assert forall|i: int| 0 <= i < p.0 implies is_white_space(#[trigger] s[i]) by {
            assert(s[i] == t[i]);
        }
        assert forall|i: int| p.1 <= i < s.len() implies is_white_space(#[trigger] s[i]) by {
            if i < t.len() {
                assert(s[i] == t[i]);
            }
        }
        (p.0, p.1)
    } else {
        (0, s.len() as int)
    }
}

/// Trimming the end first makes no difference to trimming.
pub proof fn lemma_trimmed_of_end(s: Seq<char>)
    ensures
        trimmed(trimmed_end(s)) == trimmed(s),
{
    if exists|i: int| 0 <= i < s.len() && !is_white_space(#[trigger] s[i]) {
        let (a, b) = lemma_trimmed_bounds(s);
        lemma_trimmed_is(s, a, b);
        let t = s.take(b);
        assert forall|i: int| 0 <= i < a implies is_white_space(#[trigger] t[i]) by {
            assert(t[i] == s[i]);
        }
        lemma_trimmed_is(t, a, b);
        assert(t.subrange(a, b) =~= s.subrange(a, b));
    } else {
        lemma_trimmed_blank(s);
    }
}

/// A carriage return at the end makes no difference to trimming.
pub proof fn lemma_trimmed_without_cr(s: Seq<char>)
    ensures
        trimmed(without_cr(s)) == trimmed(s),
{
    if s.len() > 0 && s.last() == '\r' {
        assert(trimmed_end(s) == trimmed_end(s.drop_last()));
        lemma_trimmed_of_end(s);
        lemma_trimmed_of_end(s.drop_last());
    }
}

/// Trimming changes nothing exactly where neither end is white space, and trims to such a text.
pub proof fn trimming_stops(s: Seq<char>)
    ensures
        is_trimmed(trimmed(s)),
        is_trimmed(s) <==> trimmed(s) == s,
        trimmed(trimmed(s)) == trimmed(s),
{
    lemma_trimmed_start_suffix(s);
    let t = trimmed_start(s);
    lemma_trimmed_end_prefix(t);
    let u = trimmed_end(t);
    if u.len() > 0 {
        assert(u[0] == t[0]);
    }
    assert(trimmed_start(u) == u);
    assert(trimmed_end(u) == u);
}

/// The number of leading characters that trimming the start drops.
fn leading_white_space(cs: &Vec<char>) -> (r: usize)
    ensures
        r <= cs@.len(),
        trimmed_start(cs@) == cs@.skip(r as int),
{
    let mut i: usize = 0;
    assert(cs@.skip(0) =~= cs@);
    while i < cs.len() && white_space(cs[i])
        invariant
            i <= cs@.len(),
            trimmed_start(cs@) == trimmed_start(cs@.skip(i as int)),
        decreases cs@.len() - i,
    {
        assert(cs@.skip(i as int).skip(1) =~= cs@.skip(i + 1));
        i = i + 1;
    }
    i
}

/// The number of characters from `from` on that trimming the end keeps, counted from 0.
fn trailing_cut(cs: &Vec<char>, from: usize) -> (r: usize)
    requires
        from <= cs@.len(),
    ensures
        from <= r <= cs@.len(),
        trimmed_end(cs@.skip(from as int)) == cs@.subrange(from as int, r as int),
{
    let mut i: usize = cs.len();
    assert(cs@.subrange(from as int, i as int) =~= cs@.skip(from as int));
    while from < i && white_space(cs[i - 1])
        invariant
            from <= i <= cs@.len(),
            trimmed_end(cs@.skip(from as int)) == trimmed_end(
                cs@.subrange(from as int, i as int),
            ),
        decreases i,
    {
        assert(cs@.subrange(from as int, i as int).drop_last() =~= cs@.subrange(
            from as int,
            i - 1,
        ));
        i = i - 1;
    }
    i
}

/// A text without white space at its ends.
pub fn trim(s: &str) -> (r: &str)
    ensures
        r@ == trimmed(s@),
{
    let cs: Vec<char> = chars_of(s);
    let a: usize = leading_white_space(&cs);
    let b: usize = trailing_cut(&cs, a);
    s.substring_char(a, b)
}

/// A text without white space at its end.
pub fn trim_end(s: &str) -> (r: &str)
    ensures
        r@ == trimmed_end(s@),
{
    let cs: Vec<char> = chars_of(s);
    assert(cs@.skip(0) =~= cs@);
    let b: usize = trailing_cut(&cs, 0);
    s.substring_char(0, b)
}

/// A text without the given character at its end.
pub fn trim_end_of(s: &str, c: char) -> (r: &str)
    ensures
        r@ == trimmed_end_of(s@, c),
{
    let cs: Vec<char> = chars_of(s);
    let mut i: usize = cs.len();
    assert(cs@.take(i as int) =~= cs@);
    while 0 < i && cs[i - 1] == c
        invariant
            i <= cs@.len(),
            trimmed_end_of(cs@, c) == trimmed_end_of(cs@.take(i as int), c),
        decreases i,
    {
        assert(cs@.take(i as int).drop_last() =~= cs@.take(i - 1));
        i = i - 1;
    }
    assert(cs@.take(i as int) =~= s@.subrange(0, i as int));
    s.substring_char(0, i)
}

/// A text without the given character at its start.
pub fn trim_start_of(s: &str, c: char) -> (r: &str)
    ensures
        r@ == trimmed_start_of(s@, c),
{
    let cs: Vec<char> = chars_of(s);
    let mut i: usize = 0;
    assert(cs@.skip(0) =~= cs@);
    while i < cs.len() && cs[i] == c
        invariant
            i <= cs@.len(),
            trimmed_start_of(cs@, c) == trimmed_start_of(cs@.skip(i as int), c),
        decreases cs@.len() - i,
    {
        assert(cs@.skip(i as int).skip(1) =~= cs@.skip(i + 1));
        i = i + 1;
    }
    assert(cs@.skip(i as int) =~= s@.subrange(i as int, s@.len() as int));
    s.substring_char(i, cs.len())
}

// ---------------------------------------------------------------------------------------------
// Searching.
/// The first position from `from` on that holds `c`, or the length where there is none.
pub open spec fn find_from(s: Seq<char>, c: char, from: int) -> int
    decreases s.len() - from,
{
    if from >= s.len() {
        s.len() as int
    } else if s[from] == c {
        from
    } else {
        find_from(s, c, from + 1)
    }
}

/// The first position that holds `c`, or the length where there is none.
pub open spec fn find_char(s: Seq<char>, c: char) -> int {
    find_from(s, c, 0)
}

pub proof fn lemma_find_from(s: Seq<char>, c: char, from: int)
    requires
        0 <= from <= s.len(),
    ensures
        from <= find_from(s, c, from) <= s.len(),
        find_from(s, c, from) < s.len() ==> s[find_from(s, c, from)] == c,
        forall|j: int| from <= j < find_from(s, c, from) ==> s[j] != c,
    decreases s.len() - from,
{
    if from < s.len() && s[from] != c {
        lemma_find_from(s, c, from + 1);
    }
}

/// The position found is the only one with these properties.
pub proof fn lemma_find_from_is(s: Seq<char>, c: char, from: int, at: int)
    requires
        0 <= from <= at <= s.len(),
        at < s.len() ==> s[at] == c,
        forall|j: int| from <= j < at ==> s[j] != c,
    ensures
        find_from(s, c, from) == at,
    decreases s.len() - from,
{
    if from < at {
        lemma_find_from_is(s, c, from + 1, at);
    }
}

fn find_at(cs: &Vec<char>, c: char, from: usize) -> (r: usize)
    requires
        from <= cs@.len(),
    ensures
        from <= r <= cs@.len(),
        r == find_from(cs@, c, from as int),
{
    let mut i: usize = from;
    while i < cs.len() && cs[i] != c
        invariant
            from <= i <= cs@.len(),
            find_from(cs@, c, from as int) == find_from(cs@, c, i as int),
        decreases cs@.len() - i,
    {
        i = i + 1;
    }
    i
}

/// Whether a text starts with another.
pub open spec fn starts_with(s: Seq<char>, p: Seq<char>) -> bool {
    p.len() <= s.len() && s.take(p.len() as int) == p
}

/// What follows the prefix `p`, where the text starts with it.
pub open spec fn after_prefix(s: Seq<char>, p: Seq<char>) -> Option<Seq<char>> {
    if starts_with(s, p) {
        Some(s.skip(p.len() as int))
    } else {
        None
    }
}

/// The characters of an optional string slice.
pub open spec fn opt_view(o: Option<&str>) -> Option<Seq<char>> {
    match o {
        Some(s) => Some(s@),
        None => None,
    }
}

/// What follows a prefix, where a text starts with it.
pub fn strip_prefix<'a>(s: &'a str, p: &str) -> (r: Option<&'a str>)
    ensures
        opt_view(r) == after_prefix(s@, p@),
{
    let n: usize = p.unicode_len();
    let total: usize = s.unicode_len();
    if total < n {
        return None;
    }
    let head: &str = s.substring_char(0, n);
    assert(head@ =~= s@.take(p@.len() as int));
    if same_text(head, p) {
        let rest: &'a str = s.substring_char(n, total);
        assert(rest@ =~= s@.skip(p@.len() as int));
        Some(rest)
    } else {
        None
    }
}

/// The text before and after the first `c`, where there is one.
pub open spec fn cut_at(s: Seq<char>, c: char) -> Option<(Seq<char>, Seq<char>)> {
    let n = find_char(s, c);
    if n < s.len() {
        Some((s.take(n), s.skip(n + 1)))
    } else {
        None
    }
}

/// What stands before and behind the first occurrence of a character.
pub fn split_once<'a>(s: &'a str, c: char) -> (r: Option<(&'a str, &'a str)>)
    ensures
        match r {
            Some(p) => cut_at(s@, c) == Some((p.0@, p.1@)),
            None => cut_at(s@, c) is None,
        },
{
    let cs: Vec<char> = chars_of(s);
    let n: usize = find_at(&cs, c, 0);
    if n < cs.len() {
        let a: &'a str = s.substring_char(0, n);
        let b: &'a str = s.substring_char(n + 1, cs.len());
        assert(a@ =~= s@.take(n as int));
        assert(b@ =~= s@.skip(n + 1));
        Some((a, b))
    } else {
        None
    }
}

// ---------------------------------------------------------------------------------------------
// Splitting and joining.
/// The pieces between the copies of `c`: one more than there are copies.
pub open spec fn pieces(s: Seq<char>, c: char) -> Seq<Seq<char>>
    decreases s.len(),
{
    let n = find_char(s, c);
    if 0 <= n < s.len() {
        seq![s.take(n)] + pieces(s.skip(n + 1), c)
    } else {
        seq![s]
    }
}

/// The pieces of a text between the occurrences of a character.
pub fn split<'a>(s: &'a str, c: char) -> (r: Vec<&'a str>)
    ensures
        r.deep_view() == pieces(s@, c),
        r@.len() > 0,
{
    let cs: Vec<char> = chars_of(s);
    let mut out: Vec<&'a str> = Vec::new();
    let mut start: usize = 0;
    assert(cs@.skip(0) =~= cs@);
    assert(out.deep_view() + pieces(cs@, c) =~= pieces(cs@, c));
    loop
        invariant
            start <= cs@.len(),
            cs@ == s@,
            pieces(s@, c) == out.deep_view() + pieces(cs@.skip(start as int), c),
        decreases cs@.len() - start,
    {
        let ghost rest = cs@.skip(start as int);
        let n: usize = find_at(&cs, c, start);
        proof {
            lemma_find_from(cs@, c, start as int);
            assert forall|j: int| 0 <= j < n - start implies rest[j] != c by {
                assert(rest[j] == cs@[start + j]);
            }
            lemma_find_from_is(rest, c, 0, n - start);
        }
        let piece: &'a str = s.substring_char(start, n);
        let ghost before = out.deep_view();
        out.push(piece);
        assert(out.deep_view() =~= before.push(piece@));
        if n == cs.len() {
            assert(piece@ =~= rest);
            assert(before + seq![rest] =~= before.push(rest));
            return out;
        }
        assert(piece@ =~= rest.take(n - start));
        assert(rest.skip(n - start + 1) =~= cs@.skip(n + 1));
        assert(before + (seq![piece@] + pieces(cs@.skip(n + 1), c)) =~= before.push(piece@)
            + pieces(cs@.skip(n + 1), c));
        start = n + 1;
    }
}

/// A line without the carriage return that belongs to its line ending.
pub open spec fn without_cr(s: Seq<char>) -> Seq<char> {
    if s.len() > 0 && s.last() == '\r' {
        s.drop_last()
    } else {
        s
    }
}

/// The lines of a text. A line ends at a line feed, and a carriage return right before that
/// line feed belongs to the line ending. The last line ending is optional.
pub open spec fn lines_of(s: Seq<char>) -> Seq<Seq<char>>
    decreases s.len(),
{
    let n = find_char(s, '\n');
    if s.len() == 0 {
        Seq::empty()
    } else if 0 <= n < s.len() {
        seq![without_cr(s.take(n))] + lines_of(s.skip(n + 1))
    } else {
        seq![s]
    }
}

/// The lines of a text, without their ends.
pub fn lines<'a>(s: &'a str) -> (r: Vec<&'a str>)
    ensures
        r.deep_view() == lines_of(s@),
{
    let cs: Vec<char> = chars_of(s);
    let mut out: Vec<&'a str> = Vec::new();
    let mut start: usize = 0;
    assert(cs@.skip(0) =~= cs@);
    assert(out.deep_view() + lines_of(cs@) =~= lines_of(cs@));
    while start < cs.len()
        invariant
            start <= cs@.len(),
            cs@ == s@,
            lines_of(s@) == out.deep_view() + lines_of(cs@.skip(start as int)),
        decreases cs@.len() - start,
    {
        let ghost rest = cs@.skip(start as int);
        let n: usize = find_at(&cs, '\n', start);
        proof {
            lemma_find_from(cs@, '\n', start as int);
            assert forall|j: int| 0 <= j < n - start implies rest[j] != '\n' by {
                assert(rest[j] == cs@[start + j]);
            }
            lemma_find_from_is(rest, '\n', 0, n - start);
        }
        let ghost before = out.deep_view();
        if n == cs.len() {
            let line: &'a str = s.substring_char(start, n);
            out.push(line);
            assert(line@ =~= rest);
            assert(out.deep_view() =~= before.push(line@));
            assert(before + seq![rest] =~= before.push(rest));
            assert(lines_of(cs@.skip(n as int)) =~= Seq::<Seq<char>>::empty());
            assert(before.push(rest) =~= before.push(rest) + lines_of(cs@.skip(n as int)));
            start = n;
        } else {
            let end: usize = if start < n && cs[n - 1] == '\r' {
                n - 1
            } else {
                n
            };
            let line: &'a str = s.substring_char(start, end);
            out.push(line);
            assert(rest.take(n - start) =~= cs@.subrange(start as int, n as int));
            assert(line@ =~= without_cr(rest.take(n - start)));
            assert(out.deep_view() =~= before.push(line@));
            assert(rest.skip(n - start + 1) =~= cs@.skip(n + 1));
            assert(before + (seq![line@] + lines_of(cs@.skip(n + 1))) =~= before.push(line@)
                + lines_of(cs@.skip(n + 1)));
            start = n + 1;
        }
    }
    assert(lines_of(cs@.skip(start as int)) =~= Seq::<Seq<char>>::empty());
    assert(out.deep_view() + Seq::<Seq<char>>::empty() =~= out.deep_view());
    out
}

/// The text that puts each line before a line feed.
pub open spec fn unlines(ls: Seq<Seq<char>>) -> Seq<char>
    decreases ls.len(),
{
    if ls.len() == 0 {
        Seq::empty()
    } else {
        unlines(ls.drop_last()) + ls.last().push('\n')
    }
}

/// A text that can stand on a line of its own and be read back: it holds no line feed and does
/// not end in a carriage return.
pub open spec fn is_line(s: Seq<char>) -> bool {
    &&& forall|i: int| 0 <= i < s.len() ==> s[i] != '\n'
    &&& s.len() > 0 ==> s.last() != '\r'
}

pub open spec fn all_lines(ls: Seq<Seq<char>>) -> bool {
    forall|i: int| 0 <= i < ls.len() ==> is_line(#[trigger] ls[i])
}

/// The lines of `a` followed by a line feed and `b` are the lines of `a` and then those of `b`,
/// where `a` itself is one line.
pub proof fn lemma_lines_of_first(a: Seq<char>, b: Seq<char>)
    requires
        forall|i: int| 0 <= i < a.len() ==> a[i] != '\n',
    ensures
        lines_of(a.push('\n') + b) == seq![without_cr(a)] + lines_of(b),
{
    let s = a.push('\n') + b;
    lemma_find_from_is(s, '\n', 0, a.len() as int);
    assert(s.take(a.len() as int) =~= a);
    assert(s.skip(a.len() as int + 1) =~= b);
}

/// The lines of two texts, the first of which ends in a line feed, are the lines of each.
pub proof fn lemma_lines_of_concat(a: Seq<char>, b: Seq<char>)
    requires
        a.len() == 0 || a.last() == '\n',
    ensures
        lines_of(a + b) == lines_of(a) + lines_of(b),
    decreases a.len(),
{
    if a.len() == 0 {
        assert(a + b =~= b);
        assert(lines_of(a) + lines_of(b) =~= lines_of(b));
    } else {
        lemma_find_from(a, '\n', 0);
        let n = find_char(a, '\n');
        if n >= a.len() {
            assert(a[a.len() - 1] != '\n');
        }
        let head = a.take(n);
        let tail = a.skip(n + 1);
        assert(a =~= head.push('\n') + tail);
        assert(a + b =~= head.push('\n') + (tail + b));
        lemma_lines_of_first(head, tail);
        lemma_lines_of_first(head, tail + b);
        if tail.len() > 0 {
            assert(tail.last() == a.last());
        }
        lemma_lines_of_concat(tail, b);
        assert(seq![without_cr(head)] + (lines_of(tail) + lines_of(b)) =~= (seq![without_cr(head)]
            + lines_of(tail)) + lines_of(b));
    }
}

pub proof fn lemma_unlines_ends(ls: Seq<Seq<char>>)
    ensures
        unlines(ls).len() == 0 <==> ls.len() == 0,
        unlines(ls).len() > 0 ==> unlines(ls).last() == '\n',
{
}

pub proof fn lemma_unlines_concat(a: Seq<Seq<char>>, b: Seq<Seq<char>>)
    ensures
        unlines(a + b) == unlines(a) + unlines(b),
    decreases b.len(),
{
    if b.len() == 0 {
        assert(a + b =~= a);
        assert(unlines(a) + unlines(b) =~= unlines(a));
    } else {
        lemma_unlines_concat(a, b.drop_last());
        assert((a + b).drop_last() =~= a + b.drop_last());
        assert((a + b).last() == b.last());
        assert(unlines(a) + (unlines(b.drop_last()) + b.last().push('\n')) =~= (unlines(a)
            + unlines(b.drop_last())) + b.last().push('\n'));
    }
}

pub open spec fn no_feed(s: Seq<char>) -> bool {
    forall|i: int| 0 <= i < s.len() ==> s[i] != '\n'
}

/// No line feed among the first `n` characters.
pub open spec fn feed_free(s: Seq<char>, n: nat) -> bool
    decreases n,
{
    n == 0 || (s[n - 1] != '\n' && feed_free(s, (n - 1) as nat))
}

pub proof fn lemma_feed_free(s: Seq<char>, n: nat)
    requires
        feed_free(s, n),
    ensures
        forall|i: int| 0 <= i < n ==> s[i] != '\n',
    decreases n,
{
    if n > 0 {
        lemma_feed_free(s, (n - 1) as nat);
    }
}

/// The lines of what was written line by line, where no line holds a line feed: a carriage
/// return at the end of a line is lost.
pub proof fn lemma_lines_of_unlines(ls: Seq<Seq<char>>)
    requires
        forall|i: int| 0 <= i < ls.len() ==> no_feed(#[trigger] ls[i]),
    ensures
        lines_of(unlines(ls)) == ls.map_values(|l: Seq<char>| without_cr(l)),
    decreases ls.len(),
{
    let f = |l: Seq<char>| without_cr(l);
    if ls.len() == 0 {
        assert(lines_of(unlines(ls)) =~= ls.map_values(f));
    } else {
        let init = ls.drop_last();
        let last = ls.last();
        assert forall|i: int| 0 <= i < init.len() implies no_feed(#[trigger] init[i]) by {
            assert(init[i] == ls[i]);
        }
        lemma_lines_of_unlines(init);
        lemma_unlines_ends(init);
        lemma_lines_of_concat(unlines(init), last.push('\n'));
        assert(no_feed(ls[ls.len() - 1]));
        lemma_lines_of_first(last, Seq::empty());
        assert(last.push('\n') + Seq::<char>::empty() =~= last.push('\n'));
        assert(init.map_values(f) + (seq![without_cr(last)] + Seq::<Seq<char>>::empty())
            =~= ls.map_values(f));
    }
}

/// What is written line by line is read back line by line.
pub proof fn lines_read_back(ls: Seq<Seq<char>>)
    requires
        all_lines(ls),
    ensures
        lines_of(unlines(ls)) == ls,
{
    assert forall|i: int| 0 <= i < ls.len() implies no_feed(#[trigger] ls[i]) by {
        assert(is_line(ls[i]));
    }
    lemma_lines_of_unlines(ls);
    assert forall|i: int| 0 <= i < ls.len() implies without_cr(#[trigger] ls[i]) == ls[i] by {
        assert(is_line(ls[i]));
    }
    assert(ls.map_values(|l: Seq<char>| without_cr(l)) =~= ls);
}

/// No line holds a line feed.
pub proof fn lemma_lines_hold_no_feed(s: Seq<char>)
    ensures
        forall|i: int, j: int|
            0 <= i < lines_of(s).len() && 0 <= j < lines_of(s)[i].len()
                ==> #[trigger] lines_of(s)[i][j] != '\n',
    decreases s.len(),
{
    if s.len() > 0 {
        lemma_find_from(s, '\n', 0);
        let n = find_char(s, '\n');
        if n < s.len() {
            lemma_lines_hold_no_feed(s.skip(n + 1));
            assert forall|i: int, j: int|
                0 <= i < lines_of(s).len() && 0 <= j < lines_of(s)[i].len() implies
                #[trigger] lines_of(s)[i][j] != '\n' by {
                if i > 0 {
                    assert(lines_of(s)[i] == lines_of(s.skip(n + 1))[i - 1]);
                } else {
                    assert(lines_of(s)[0] == without_cr(s.take(n)));
                }
            }
        }
    }
}

/// Writes each line before a line feed.
pub fn join_lines(ls: &Vec<String>) -> (r: String)
    ensures
        r@ == unlines(ls.deep_view()),
{
    let mut out = String::new();
    let mut i: usize = 0;
    assert(ls.deep_view().take(0) =~= Seq::<Seq<char>>::empty());
    while i < ls.len()
        invariant
            i <= ls@.len(),
            out@ == unlines(ls.deep_view().take(i as int)),
        decreases ls@.len() - i,
    {
        let ghost before = ls.deep_view().take(i as int);
        out.append(ls[i].as_str());
        out.push('\n');
        assert(ls.deep_view().take(i + 1) =~= before.push(ls@[i as int]@));
        assert(before.push(ls@[i as int]@).drop_last() =~= before);
        assert(unlines(before) + ls@[i as int]@.push('\n') =~= (unlines(before)
            + ls@[i as int]@).push('\n'));
        i = i + 1;
    }
    assert(ls.deep_view().take(i as int) =~= ls.deep_view());
    out
}

/// The given texts with `sep` between each two of them.
pub open spec fn joined(parts: Seq<Seq<char>>, sep: Seq<char>) -> Seq<char>
    decreases parts.len(),
{
    if parts.len() == 0 {
        Seq::empty()
    } else if parts.len() == 1 {
        parts[0]
    } else {
        joined(parts.drop_last(), sep) + sep + parts.last()
    }
}

/// The given texts with `sep` between each two of them.
pub fn join(parts: &Vec<String>, sep: &str) -> (r: String)
    ensures
        r@ == joined(parts.deep_view(), sep@),
{
    let mut out = String::new();
    let mut i: usize = 0;
    assert(parts.deep_view().take(0) =~= Seq::<Seq<char>>::empty());
    while i < parts.len()
        invariant
            i <= parts@.len(),
            out@ == joined(parts.deep_view().take(i as int), sep@),
        decreases parts@.len() - i,
    {
        let ghost before = parts.deep_view().take(i as int);
        if i > 0 {
            out.append(sep);
        }
        out.append(parts[i].as_str());
        assert(parts.deep_view().take(i + 1) =~= before.push(parts@[i as int]@));
        assert(before.push(parts@[i as int]@).drop_last() =~= before);
        if i == 0 {
            assert(Seq::<char>::empty() + parts@[0]@ =~= parts@[0]@);
        }
        i = i + 1;
    }
    assert(parts.deep_view().take(i as int) =~= parts.deep_view());
    out
}

// ---------------------------------------------------------------------------------------------
// Words.
/// White space, and a comma too where `comma` says so.
pub open spec fn is_separator(c: char, comma: bool) -> bool {
    is_white_space(c) || (comma && c == ',')
}

/// The first position from `from` on that is a separator (`stop`) or is none (`!stop`), or the
/// length where there is no such position.
pub open spec fn scan(s: Seq<char>, comma: bool, stop: bool, from: int) -> int
    decreases s.len() - from,
{
    if from >= s.len() {
        s.len() as int
    } else if is_separator(s[from], comma) == stop {
        from
    } else {
        scan(s, comma, stop, from + 1)
    }
}

pub proof fn lemma_scan(s: Seq<char>, comma: bool, stop: bool, from: int)
    requires
        0 <= from <= s.len(),
    ensures
        from <= scan(s, comma, stop, from) <= s.len(),
        scan(s, comma, stop, from) < s.len() ==> is_separator(
            s[scan(s, comma, stop, from)],
            comma,
        ) == stop,
        forall|j: int|
            from <= j < scan(s, comma, stop, from) ==> is_separator(#[trigger] s[j], comma)
                != stop,
    decreases s.len() - from,
{
    if from < s.len() && is_separator(s[from], comma) != stop {
        lemma_scan(s, comma, stop, from + 1);
    }
}

/// The words from `from` on: the longest runs of characters that are no separators.
pub open spec fn words_from(s: Seq<char>, comma: bool, from: int) -> Seq<Seq<char>>
    decreases s.len() - from,
    when 0 <= from <= s.len()
    via words_from_decreases
{
    let a = scan(s, comma, false, from);
    if a >= s.len() {
        Seq::empty()
    } else {
        let b = scan(s, comma, true, a);
        seq![s.subrange(a, b)] + words_from(s, comma, b)
    }
}

#[via_fn]
proof fn words_from_decreases(s: Seq<char>, comma: bool, from: int) {
    lemma_scan(s, comma, false, from);
    let a = scan(s, comma, false, from);
    if a < s.len() {
        lemma_scan(s, comma, true, a);
    }
}

/// The words of a text: its longest runs of characters that are no separators.
pub open spec fn words_of(s: Seq<char>, comma: bool) -> Seq<Seq<char>> {
    words_from(s, comma, 0)
}

fn scan_at(cs: &Vec<char>, comma: bool, stop: bool, from: usize) -> (r: usize)
    requires
        from <= cs@.len(),
    ensures
        from <= r <= cs@.len(),
        r == scan(cs@, comma, stop, from as int),
{
    let mut i: usize = from;
    while i < cs.len()
        invariant
            from <= i <= cs@.len(),
            scan(cs@, comma, stop, from as int) == scan(cs@, comma, stop, i as int),
        decreases cs@.len() - i,
    {
        let sep: bool = white_space(cs[i]) || (comma && cs[i] == ',');
        if sep == stop {
            return i;
        }
        i = i + 1;
    }
    i
}

/// The words of a text. White space separates them, and commas too where `comma` says so.
pub fn words(s: &str, comma: bool) -> (r: Vec<String>)
    ensures
        r.deep_view() == words_of(s@, comma),
{
    let cs: Vec<char> = chars_of(s);
    let mut out: Vec<String> = Vec::new();
    let mut at: usize = 0;
    assert(out.deep_view() + words_of(cs@, comma) =~= words_of(cs@, comma));
    loop
        invariant
            at <= cs@.len(),
            cs@ == s@,
            words_of(s@, comma) == out.deep_view() + words_from(cs@, comma, at as int),
        decreases cs@.len() - at,
    {
        let a: usize = scan_at(&cs, comma, false, at);
        if a == cs.len() {
            assert(out.deep_view() + Seq::<Seq<char>>::empty() =~= out.deep_view());
            return out;
        }
        let b: usize = scan_at(&cs, comma, true, a);
        proof {
            lemma_scan(cs@, comma, false, at as int);
            lemma_scan(cs@, comma, true, a as int);
        }
        let word: String = string_of(&cs, a, b);
        let ghost before = out.deep_view();
        out.push(word);
        assert(out.deep_view() =~= before.push(word@));
        assert(before + (seq![word@] + words_from(cs@, comma, b as int)) =~= before.push(word@)
            + words_from(cs@, comma, b as int));
        at = b;
    }
}

/// The first word of a text, where it has one.
pub open spec fn first_word_of(s: Seq<char>) -> Option<Seq<char>> {
    if words_of(s, false).len() > 0 {
        Some(words_of(s, false)[0])
    } else {
        None
    }
}

/// The first word of a text.
pub fn first_word(s: &str) -> (r: Option<String>)
    ensures
        opt_text(r) == first_word_of(s@),
{
    let cs: Vec<char> = chars_of(s);
    let a: usize = scan_at(&cs, false, false, 0);
    if a == cs.len() {
        None
    } else {
        let b: usize = scan_at(&cs, false, true, a);
        Some(string_of(&cs, a, b))
    }
}

// ---------------------------------------------------------------------------------------------
// Cutting and padding.
/// A text of at most `n` characters: a longer one is cut one character short and ends in an
/// ellipsis.
pub open spec fn shortened(s: Seq<char>, n: int) -> Seq<char> {
    if s.len() <= n {
        s
    } else {
        s.take(n - 1).push('…')
    }
}

/// Cuts a text to `n` characters, the last of them an ellipsis where something was cut.
pub fn truncate(s: &str, n: usize) -> (r: String)
    requires
        n > 0 || s@.len() == 0,
    ensures
        r@ == shortened(s@, n as int),
        r@.len() <= n,
{
    if s.unicode_len() <= n {
        s.to_owned()
    } else {
        let cs: Vec<char> = chars_of(s);
        let mut out: String = string_of(&cs, 0, n - 1);
        assert(s@.subrange(0, n - 1) =~= s@.take(n - 1));
        out.push('…');
        out
    }
}

/// `n` spaces.
pub open spec fn spaces(n: int) -> Seq<char> {
    Seq::new(
        if n > 0 {
            n as nat
        } else {
            0
        },
        |i: int| ' ',
    )
}

/// A text filled up with spaces on the right to at least `width` characters.
pub open spec fn padded_right(s: Seq<char>, width: int) -> Seq<char> {
    s + spaces(width - s.len())
}

/// A text filled up with spaces on the left to at least `width` characters.
pub open spec fn padded_left(s: Seq<char>, width: int) -> Seq<char> {
    spaces(width - s.len()) + s
}

fn push_spaces(out: &mut String, n: usize)
    ensures
        final(out)@ == old(out)@ + spaces(n as int),
{
    let mut i: usize = 0;
    assert(out@ + spaces(0) =~= out@);
    let ghost start = out@;
    while i < n
        invariant
            i <= n,
            out@ == start + spaces(i as int),
        decreases n - i,
    {
        out.push(' ');
        i = i + 1;
        assert((start + spaces(i - 1)).push(' ') =~= start + spaces(i as int));
    }
}

/// A text with spaces behind it, up to a width.
pub fn pad_right(s: &str, width: usize) -> (r: String)
    ensures
        r@ == padded_right(s@, width as int),
{
    let mut out: String = s.to_owned();
    let n: usize = s.unicode_len();
    if n < width {
        push_spaces(&mut out, width - n);
    } else {
        assert(s@ + spaces(width - s@.len()) =~= s@);
    }
    out
}

/// A text with spaces before it, up to a width.
pub fn pad_left(s: &str, width: usize) -> (r: String)
    ensures
        r@ == padded_left(s@, width as int),
{
    let mut out = String::new();
    let n: usize = s.unicode_len();
    if n < width {
        push_spaces(&mut out, width - n);
        assert(Seq::<char>::empty() + spaces(width - n) =~= spaces(width - n));
    } else {
        assert(spaces(width - s@.len()) =~= Seq::<char>::empty());
    }
    out.append(s);
    out
}

// ---------------------------------------------------------------------------------------------
// Words that are joined and split again.
/// A text that is one word.
pub open spec fn is_word(w: Seq<char>, comma: bool) -> bool {
    w.len() > 0 && forall|j: int| 0 <= j < w.len() ==> !is_separator(#[trigger] w[j], comma)
}

/// No separator among the first `n` characters.
pub open spec fn separator_free(s: Seq<char>, n: nat) -> bool
    decreases n,
{
    n == 0 || (!is_separator(s[n - 1], true) && separator_free(s, (n - 1) as nat))
}

pub proof fn lemma_separator_free(s: Seq<char>, n: nat)
    requires
        separator_free(s, n),
    ensures
        forall|j: int| 0 <= j < n ==> !is_separator(#[trigger] s[j], true),
    decreases n,
{
    if n > 0 {
        lemma_separator_free(s, (n - 1) as nat);
    }
}

/// The words of a text are words.
pub proof fn lemma_words_are_words(s: Seq<char>, comma: bool, from: int)
    requires
        0 <= from <= s.len(),
    ensures
        forall|i: int|
            0 <= i < words_from(s, comma, from).len() ==> is_word(
                #[trigger] words_from(s, comma, from)[i],
                comma,
            ),
    decreases s.len() - from,
{
    lemma_scan(s, comma, false, from);
    let a = scan(s, comma, false, from);
    if a < s.len() {
        lemma_scan(s, comma, true, a);
        let b = scan(s, comma, true, a);
        lemma_words_are_words(s, comma, b);
        let w = s.subrange(a, b);
        assert forall|j: int| 0 <= j < w.len() implies !is_separator(#[trigger] w[j], comma) by {
            assert(w[j] == s[a + j]);
        }
        assert forall|i: int| 0 <= i < words_from(s, comma, from).len() implies is_word(
            #[trigger] words_from(s, comma, from)[i],
            comma,
        ) by {
            if i > 0 {
                assert(words_from(s, comma, from)[i] == words_from(s, comma, b)[i - 1]);
            }
        }
    }
}

/// A search that ends within a text ends there in a longer text too, and goes on behind the
/// shorter one otherwise.
proof fn lemma_scan_longer(s: Seq<char>, t: Seq<char>, comma: bool, stop: bool, from: int)
    requires
        0 <= from <= s.len() < t.len(),
        forall|j: int| 0 <= j < s.len() ==> t[j] == s[j],
    ensures
        scan(t, comma, stop, from) == if scan(s, comma, stop, from) < s.len() {
            scan(s, comma, stop, from)
        } else {
            scan(t, comma, stop, s.len() as int)
        },
    decreases s.len() - from,
{
    if from < s.len() && is_separator(s[from], comma) != stop {
        lemma_scan_longer(s, t, comma, stop, from + 1);
    }
}

/// The words of a text that starts with one word and has no more are that word.
proof fn lemma_last_word(t: Seq<char>, from: int)
    requires
        0 <= from < t.len(),
        forall|j: int| from <= j < t.len() ==> !is_separator(#[trigger] t[j], true),
    ensures
        words_from(t, true, from) == seq![t.skip(from)],
{
    lemma_scan(t, true, true, from);
    assert(!is_separator(t[from], true));
    assert(scan(t, true, false, from) == from);
    assert(scan(t, true, true, from) == t.len());
    assert(t.subrange(from, t.len() as int) =~= t.skip(from));
    assert(words_from(t, true, t.len() as int) =~= Seq::<Seq<char>>::empty());
    assert(words_from(t, true, from) =~= seq![t.skip(from)]);
}

/// A comma and a word behind a text are one more word.
proof fn lemma_one_more_word(s: Seq<char>, w: Seq<char>, from: int)
    requires
        0 <= from <= s.len(),
        is_word(w, true),
    ensures
        words_from(s.push(',') + w, true, from) == words_from(s, true, from).push(w),
    decreases s.len() - from,
{
    let t = s.push(',') + w;
    let n = s.len() as int;
    assert(t[n] == ',');
    assert forall|j: int| n + 1 <= j < t.len() implies !is_separator(#[trigger] t[j], true) by {
        assert(t[j] == w[j - n - 1]);
    }
    lemma_scan(s, true, false, from);
    lemma_scan_longer(s, t, true, false, from);
    let a = scan(s, true, false, from);
    if a >= n {
        assert(is_separator(t[n], true));
        assert(!is_separator(t[n + 1], true));
        assert(scan(t, true, false, n + 1) == n + 1);
        assert(scan(t, true, false, n) == n + 1);
        lemma_last_word(t, n + 1);
        assert(t.skip(n + 1) =~= w);
        lemma_scan(t, true, true, n + 1);
        assert(scan(t, true, false, from) == scan(t, true, false, n + 1));
        assert(words_from(t, true, from) == words_from(t, true, n + 1));
        assert(words_from(t, true, from) =~= words_from(s, true, from).push(w));
    } else {
        lemma_scan(s, true, true, a);
        lemma_scan_longer(s, t, true, true, a);
        let b = scan(s, true, true, a);
        assert(scan(t, true, true, n) == n);
        assert(scan(t, true, true, a) == b);
        assert(t.subrange(a, b) =~= s.subrange(a, b));
        lemma_one_more_word(s, w, b);
        assert(words_from(t, true, from) =~= words_from(s, true, from).push(w));
    }
}

/// Words with commas between them are split into the same words again.
pub proof fn joined_words_split_again(ws: Seq<Seq<char>>)
    requires
        forall|i: int| 0 <= i < ws.len() ==> is_word(#[trigger] ws[i], true),
    ensures
        words_of(joined(ws, ","@), true) == ws,
    decreases ws.len(),
{
    reveal_strlit(",");
    assert(","@ =~= seq![',']);
    if ws.len() == 0 {
        assert(words_of(joined(ws, ","@), true) =~= ws);
    } else if ws.len() == 1 {
        assert(is_word(ws[0], true));
        lemma_last_word(ws[0], 0);
        assert(ws[0].skip(0) =~= ws[0]);
        assert(ws =~= seq![ws[0]]);
    } else {
        let init = ws.drop_last();
        assert forall|i: int| 0 <= i < init.len() implies is_word(#[trigger] init[i], true) by {
            assert(init[i] == ws[i]);
        }
        joined_words_split_again(init);
        assert(is_word(ws[ws.len() - 1], true));
        lemma_one_more_word(joined(init, ","@), ws.last(), 0);
        assert(joined(ws, ","@) =~= joined(init, ","@).push(',') + ws.last());
        assert(init.push(ws.last()) =~= ws);
    }
}

/// What is joined behind a first text is the rest, joined.
pub proof fn lemma_joined_first(a: Seq<char>, parts: Seq<Seq<char>>, sep: Seq<char>)
    requires
        parts.len() > 0,
    ensures
        joined(seq![a] + parts, sep) == a + sep + joined(parts, sep),
    decreases parts.len(),
{
    let all = seq![a] + parts;
    assert(all.drop_last() =~= seq![a] + parts.drop_last());
    assert(all.last() == parts.last());
    if parts.len() == 1 {
        assert(all.drop_last() =~= seq![a]);
        assert(joined(all.drop_last(), sep) == a);
    } else {
        lemma_joined_first(a, parts.drop_last(), sep);
        assert(joined(all, sep) =~= a + sep + joined(parts, sep));
    }
}

/// The first word of a text that starts with a word and white space.
pub proof fn lemma_first_word(s: Seq<char>, w: Seq<char>)
    requires
        is_word(w, false),
        w.len() < s.len(),
        s.take(w.len() as int) == w,
        is_white_space(s[w.len() as int]),
    ensures
        first_word_of(s) == Some(w),
{
    let n = w.len() as int;
    assert forall|j: int| 0 <= j < n implies !is_separator(#[trigger] s[j], false) by {
        assert(s[j] == s.take(n)[j]);
        assert(!is_separator(w[j], false));
    }
    assert(scan(s, false, false, 0) == 0);
    lemma_scan(s, false, true, 0);
    let b = scan(s, false, true, 0);
    assert(is_separator(s[n], false));
    assert(b == n) by {
        if b < n {
            assert(is_separator(s[b], false));
        }
    }
    assert(s.subrange(0, n) =~= w);
}

/// The first piece of a text is what stands before the first `c`.
pub proof fn lemma_first_piece(a: Seq<char>, rest: Seq<char>, c: char)
    requires
        forall|i: int| 0 <= i < a.len() ==> a[i] != c,
    ensures
        pieces(a.push(c) + rest, c) == seq![a] + pieces(rest, c),
        pieces(a, c) == seq![a],
{
    let s = a.push(c) + rest;
    let n = a.len() as int;
    lemma_find_from_is(s, c, 0, n);
    lemma_find_from_is(a, c, 0, n);
    assert(s.take(n) =~= a);
    assert(s.skip(n + 1) =~= rest);
}


// ---------------------------------------------------------------------------------------------
// Laws.
/// White space around a text is all that trimming takes, and all of it.
pub proof fn trimming_takes_the_white_space_around(a: Seq<char>, s: Seq<char>, b: Seq<char>)
    requires
        s.len() > 0,
        !is_white_space(s[0]) && !is_white_space(s.last()),
        forall|i: int| 0 <= i < a.len() ==> is_white_space(#[trigger] a[i]),
        forall|i: int| 0 <= i < b.len() ==> is_white_space(#[trigger] b[i]),
    ensures
        trimmed(a + s + b) == s,
        trimmed(a) == Seq::<char>::empty(),
{
    let t = a + s + b;
    let n = a.len() as int;
    let m = n + s.len();
    assert(t[n] == s[0] && t[m - 1] == s.last());
    assert forall|i: int| 0 <= i < n implies is_white_space(#[trigger] t[i]) by {
        assert(t[i] == a[i]);
    }
    assert forall|i: int| m <= i < t.len() implies is_white_space(#[trigger] t[i]) by {
        assert(t[i] == b[i - m]);
    }
    lemma_trimmed_is(t, n, m);
    assert(t.subrange(n, m) =~= s);
    lemma_trimmed_blank(a);
}

/// A text is cut at the first copy of a character, which is then in neither part.
pub proof fn a_text_is_cut_at_the_first(a: Seq<char>, c: char, b: Seq<char>)
    requires
        forall|i: int| 0 <= i < a.len() ==> a[i] != c,
    ensures
        cut_at(a.push(c) + b, c) == Some((a, b)),
        cut_at(a, c) is None,
{
    let s = a.push(c) + b;
    let n = a.len() as int;
    lemma_find_from_is(s, c, 0, n);
    lemma_find_from_is(a, c, 0, n);
    assert(s.take(n) =~= a);
    assert(s.skip(n + 1) =~= b);
}

/// A text that is shortened is as long as it may be: it is itself where it fits, and otherwise
/// its start with an ellipsis behind it.
pub proof fn a_long_text_ends_in_an_ellipsis(s: Seq<char>, n: int)
    requires
        n > 0,
    ensures
        shortened(s, n).len() <= n,
        s.len() <= n ==> shortened(s, n) == s,
        s.len() > n ==> shortened(s, n).len() == n && shortened(s, n).last() == '…' && shortened(
            s,
            n,
        ).drop_last() == s.take(n - 1),
{
    assert(s.take(n - 1).push('…').drop_last() =~= s.take(n - 1));
}

/// A text that is padded has the width that was asked for, or its own where that is larger, and
/// nothing but spaces besides the text: behind it, or before it.
pub proof fn padding_is_space_beside_the_text(s: Seq<char>, width: int)
    ensures
        padded_right(s, width).len() == (if s.len() < width { width } else { s.len() as int }),
        padded_left(s, width).len() == padded_right(s, width).len(),
        padded_right(s, width).take(s.len() as int) == s,
        padded_left(s, width).skip(padded_left(s, width).len() - s.len()) == s,
        forall|i: int|
            s.len() <= i < padded_right(s, width).len() ==> padded_right(s, width)[i] == ' ',
        forall|i: int|
            0 <= i < padded_left(s, width).len() - s.len() ==> padded_left(s, width)[i] == ' ',
{
    assert(padded_right(s, width).take(s.len() as int) =~= s);
    assert(padded_left(s, width).skip(padded_left(s, width).len() - s.len()) =~= s);
}

/// The characters that count as white space are those that Unicode says: the tab and the line
/// ends, the space, the next-line character, the no-break space, and the spaces and separators of
/// other scripts and widths; and no letter, digit or punctuation mark of ASCII.
pub proof fn white_space_is_that_of_unicode(c: char)
    ensures
        is_white_space(c) <==> seq![
            '\u{9}',
            '\u{a}',
            '\u{b}',
            '\u{c}',
            '\u{d}',
            '\u{20}',
            '\u{85}',
            '\u{a0}',
            '\u{1680}',
            '\u{2000}',
            '\u{2001}',
            '\u{2002}',
            '\u{2003}',
            '\u{2004}',
            '\u{2005}',
            '\u{2006}',
            '\u{2007}',
            '\u{2008}',
            '\u{2009}',
            '\u{200a}',
            '\u{2028}',
            '\u{2029}',
            '\u{202f}',
            '\u{205f}',
            '\u{3000}',
        ].contains(c),
        0x21 <= c as int <= 0x7e ==> !is_white_space(c),
{
    let all = seq![
        '\u{9}',
        '\u{a}',
        '\u{b}',
        '\u{c}',
        '\u{d}',
        '\u{20}',
        '\u{85}',
        '\u{a0}',
        '\u{1680}',
        '\u{2000}',
        '\u{2001}',
        '\u{2002}',
        '\u{2003}',
        '\u{2004}',
        '\u{2005}',
        '\u{2006}',
        '\u{2007}',
        '\u{2008}',
        '\u{2009}',
        '\u{200a}',
        '\u{2028}',
        '\u{2029}',
        '\u{202f}',
        '\u{205f}',
        '\u{3000}',
    ];
    if is_white_space(c) {
        let n = c as int;
        let i = if n <= 0xd {
            n - 0x9
        } else if n == 0x20 {
            5
        } else if n == 0x85 {
            6
        } else if n == 0xa0 {
            7
        } else if n == 0x1680 {
            8
        } else if n <= 0x200a {
            n - 0x2000 + 9
        } else if n == 0x2028 {
            20
        } else if n == 0x2029 {
            21
        } else if n == 0x202f {
            22
        } else if n == 0x205f {
            23
        } else {
            24
        };
        assert(all[i] == c);
    }
}

/// The pieces of a text, with the character that they were cut at between each two, are the text.
pub proof fn pieces_join_to_the_text(s: Seq<char>, c: char)
    ensures
        pieces(s, c).len() > 0,
        joined(pieces(s, c), seq![c]) == s,
        forall|i: int, j: int|
            0 <= i < pieces(s, c).len() && 0 <= j < pieces(s, c)[i].len()
                ==> #[trigger] pieces(s, c)[i][j] != c,
    decreases s.len(),
{
    lemma_find_from(s, c, 0);
    let n = find_char(s, c);
    if n < s.len() {
        let rest = s.skip(n + 1);
        pieces_join_to_the_text(rest, c);
        lemma_joined_first(s.take(n), pieces(rest, c), seq![c]);
        assert(s.take(n) + seq![c] + rest =~= s);
        assert forall|i: int, j: int|
            0 <= i < pieces(s, c).len() && 0 <= j < pieces(s, c)[i].len() implies
            #[trigger] pieces(s, c)[i][j] != c by {
            if i > 0 {
                assert(pieces(s, c)[i] == pieces(rest, c)[i - 1]);
            }
        }
    }
}

/// The first word of a text is the run of characters without white space that is preceded by
/// white space alone; white space alone has none.
pub proof fn the_first_word_is_the_first_run(s: Seq<char>, a: int, b: int)
    requires
        0 <= a < b <= s.len(),
        forall|i: int| 0 <= i < a ==> is_white_space(#[trigger] s[i]),
        forall|i: int| a <= i < b ==> !is_white_space(#[trigger] s[i]),
        b < s.len() ==> is_white_space(s[b]),
    ensures
        first_word_of(s) == Some(s.subrange(a, b)),
        first_word_of(s.take(a)) is None,
{
    lemma_scan_is(s, false, 0, a);
    lemma_scan_is(s, true, a, b);
    let t = s.take(a);
    assert forall|i: int| 0 <= i < a implies is_separator(#[trigger] t[i], false) by {
        assert(t[i] == s[i]);
    }
    lemma_scan_is(t, false, 0, a);
}

proof fn lemma_scan_is(s: Seq<char>, stop: bool, from: int, at: int)
    requires
        0 <= from <= at <= s.len(),
        at < s.len() ==> is_separator(s[at], false) == stop,
        forall|i: int| from <= i < at ==> is_separator(#[trigger] s[i], false) != stop,
    ensures
        scan(s, false, stop, from) == at,
    decreases at - from,
{
    if from < at {
        assert(is_separator(s[from], false) != stop);
        lemma_scan_is(s, stop, from + 1, at);
    }
}

} // verus!
