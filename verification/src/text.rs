//! Text as a sequence of characters: searching, cutting, trimming and replacing.

use vstd::prelude::*;
use vstd::string::*;
use vstd::utf8::*;

verus! {

// ---------------------------------------------------------------------------------------------
// What the operations mean
// ---------------------------------------------------------------------------------------------

/// The characters with Unicode's `White_Space` property.
pub open spec fn is_white_space(c: char) -> bool {
    ||| '\u{9}' <= c <= '\u{d}'
    ||| c == ' '
    ||| c == '\u{85}'
    ||| c == '\u{a0}'
    ||| c == '\u{1680}'
    ||| '\u{2000}' <= c <= '\u{200a}'
    ||| c == '\u{2028}'
    ||| c == '\u{2029}'
    ||| c == '\u{202f}'
    ||| c == '\u{205f}'
    ||| c == '\u{3000}'
}

/// Whether no character of `s` is white space.
pub open spec fn has_no_space(s: Seq<char>) -> bool {
    forall|i: int| 0 <= i < s.len() ==> !is_white_space(#[trigger] s[i])
}

/// `pat` stands in `s` at index `i`.
pub open spec fn occurs_at(s: Seq<char>, pat: Seq<char>, i: int) -> bool {
    &&& 0 <= i
    &&& i + pat.len() <= s.len()
    &&& s.subrange(i, i + pat.len()) == pat
}

/// The first index from `from` on at which `pat` stands in `s`.
pub open spec fn find_from(s: Seq<char>, pat: Seq<char>, from: int) -> Option<int>
    decreases s.len() - from + 1,
{
    if from < 0 || from + pat.len() > s.len() {
        None
    } else if occurs_at(s, pat, from) {
        Some(from)
    } else {
        find_from(s, pat, from + 1)
    }
}

/// The first index at which `pat` stands in `s`.
pub open spec fn find(s: Seq<char>, pat: Seq<char>) -> Option<int> {
    find_from(s, pat, 0)
}

/// How many characters of `s` stand before the first `c`; all of them where there is none.
pub open spec fn cut_at(s: Seq<char>, c: char) -> nat
    decreases s.len(),
{
    if s.len() == 0 || s[0] == c {
        0
    } else {
        1 + cut_at(s.drop_first(), c)
    }
}

/// What stands before the first `c`; all of `s` where there is none.
pub open spec fn before(s: Seq<char>, c: char) -> Seq<char> {
    s.take(cut_at(s, c) as int)
}

/// What stands after the first `c`; nothing where there is none.
pub open spec fn after(s: Seq<char>, c: char) -> Seq<char> {
    if cut_at(s, c) < s.len() {
        s.skip(cut_at(s, c) as int + 1)
    } else {
        Seq::empty()
    }
}

/// `s` without the white space that it starts with.
pub open spec fn trim_start(s: Seq<char>) -> Seq<char>
    decreases s.len(),
{
    if s.len() > 0 && is_white_space(s[0]) {
        trim_start(s.drop_first())
    } else {
        s
    }
}

/// `s` without the white space that it ends with.
pub open spec fn trim_end(s: Seq<char>) -> Seq<char>
    decreases s.len(),
{
    if s.len() > 0 && is_white_space(s.last()) {
        trim_end(s.drop_last())
    } else {
        s
    }
}

/// `s` without the white space at either end.
pub open spec fn trim(s: Seq<char>) -> Seq<char> {
    trim_end(trim_start(s))
}

/// The characters that `s` starts with, up to the first white space.
pub open spec fn leading_word(s: Seq<char>) -> Seq<char>
    decreases s.len(),
{
    if s.len() == 0 || is_white_space(s[0]) {
        Seq::empty()
    } else {
        seq![s[0]] + leading_word(s.drop_first())
    }
}

/// The second of the words that white space parts `s` into; empty where there is none.
pub open spec fn second_word(s: Seq<char>) -> Seq<char> {
    let t = trim_start(s);
    leading_word(trim_start(t.skip(leading_word(t).len() as int)))
}

/// The first line of `s`, without its line feed or carriage return and line feed.
pub open spec fn first_line(s: Seq<char>) -> Seq<char> {
    let line = before(s, '\n');
    if line.len() < s.len() && line.len() > 0 && line.last() == '\r' {
        line.drop_last()
    } else {
        line
    }
}

/// `s` without the run of `c` that it starts with.
pub open spec fn trim_start_char(s: Seq<char>, c: char) -> Seq<char>
    decreases s.len(),
{
    if s.len() > 0 && s[0] == c {
        trim_start_char(s.drop_first(), c)
    } else {
        s
    }
}

/// `s` without the run of `c` that it ends with.
pub open spec fn trim_end_char(s: Seq<char>, c: char) -> Seq<char>
    decreases s.len(),
{
    if s.len() > 0 && s.last() == c {
        trim_end_char(s.drop_last(), c)
    } else {
        s
    }
}

/// `s` with every `c` replaced by `by`.
pub open spec fn replaced(s: Seq<char>, c: char, by: Seq<char>) -> Seq<char>
    decreases s.len(),
{
    if s.len() == 0 {
        Seq::empty()
    } else if s.last() == c {
        replaced(s.drop_last(), c, by) + by
    } else {
        replaced(s.drop_last(), c, by).push(s.last())
    }
}

/// `s` without its white space.
pub open spec fn without_white_space(s: Seq<char>) -> Seq<char>
    decreases s.len(),
{
    if s.len() == 0 {
        Seq::empty()
    } else if is_white_space(s.last()) {
        without_white_space(s.drop_last())
    } else {
        without_white_space(s.drop_last()).push(s.last())
    }
}

// ---------------------------------------------------------------------------------------------
// Between strings and character vectors
// ---------------------------------------------------------------------------------------------

/// The characters of `s`.
pub fn chars_of(s: &str) -> (r: Vec<char>)
    ensures
        r@ == s@,
{
    let mut r: Vec<char> = Vec::new();
    for c in it: s.chars()
        invariant
            it.seq() == s@,
            r@ == s@.take(it.index() as int),
    {
        r.push(c);
        assert(s@.take(it.index() + 1) =~= s@.take(it.index() as int).push(c));
    }
    assert(s@.take(s@.len() as int) =~= s@);
    r
}

/// The text that the characters of `cs` from `from` up to `to` spell.
pub fn text_between(cs: &[char], from: usize, to: usize) -> (r: String)
    requires
        from <= to <= cs@.len(),
    ensures
        r@ == cs@.subrange(from as int, to as int),
{
    let mut r: String = String::new();
    let mut i: usize = from;
    while i < to
        invariant
            from <= i <= to <= cs@.len(),
            r@ == cs@.subrange(from as int, i as int),
        decreases to - i,
    {
        r.push(cs[i]);
        assert(cs@.subrange(from as int, i + 1) =~= cs@.subrange(from as int, i as int).push(
            cs@[i as int],
        ));
        i += 1;
    }
    r
}

/// Whether `a` and `b` are the same text.
pub fn same_text(a: &str, b: &str) -> (r: bool)
    ensures
        r == (a@ == b@),
{
    broadcast use group_utf8_lib;

    let x = a.as_bytes();
    let y = b.as_bytes();
    if x.len() != y.len() {
        return false;
    }
    let mut i: usize = 0;
    while i < x.len()
        invariant
            i <= x@.len(),
            x@ == encode_utf8(a@),
            y@ == encode_utf8(b@),
            x@.len() == y@.len(),
            forall|j: int| 0 <= j < i ==> x@[j] == y@[j],
        decreases x@.len() - i,
    {
        if x[i] != y[i] {
            return false;
        }
        i += 1;
    }
    proof {
        assert(x@ =~= y@);
        encode_utf8_decode_utf8(a@);
        encode_utf8_decode_utf8(b@);
    }
    true
}

// ---------------------------------------------------------------------------------------------
// The operations
// ---------------------------------------------------------------------------------------------

/// Whether `c` has Unicode's `White_Space` property.
pub fn is_whitespace(c: char) -> (r: bool)
    ensures
        r == is_white_space(c),
{
    ('\u{9}' <= c && c <= '\u{d}') || c == ' ' || c == '\u{85}' || c == '\u{a0}' || c == '\u{1680}'
        || ('\u{2000}' <= c && c <= '\u{200a}') || c == '\u{2028}' || c == '\u{2029}' || c
        == '\u{202f}' || c == '\u{205f}' || c == '\u{3000}'
}

/// Whether `pat` stands in `s` at index `at`.
fn matches_at(s: &[char], pat: &[char], at: usize) -> (r: bool)
    requires
        at <= s@.len(),
    ensures
        r == occurs_at(s@, pat@, at as int),
{
    if s.len() - at < pat.len() {
        return false;
    }
    let n: usize = s.len();
    let mut i: usize = 0;
    while i < pat.len()
        invariant
            i <= pat@.len(),
            at + pat@.len() <= s@.len(),
            n == s@.len(),
            forall|j: int| 0 <= j < i ==> s@[at + j] == pat@[j],
        decreases pat@.len() - i,
    {
        if s[at + i] != pat[i] {
            assert(s@.subrange(at as int, at + pat@.len())[i as int] != pat@[i as int]);
            return false;
        }
        i += 1;
    }
    assert(s@.subrange(at as int, at + pat@.len()) =~= pat@);
    true
}

/// The first index from `from` on at which `pat` stands in `s`.
pub fn find_chars(s: &[char], pat: &[char], from: usize) -> (r: Option<usize>)
    requires
        from <= s@.len(),
    ensures
        find_from(s@, pat@, from as int) == (match r {
            Some(i) => Some(i as int),
            None => None,
        }),
        r matches Some(i) ==> from <= i && i + pat@.len() <= s@.len(),
{
    let mut i: usize = from;
    while i <= s.len() && s.len() - i >= pat.len()
        invariant
            from <= i <= s@.len() + 1,
            find_from(s@, pat@, from as int) == find_from(s@, pat@, i as int),
        decreases s@.len() + 1 - i,
    {
        if matches_at(s, pat, i) {
            return Some(i);
        }
        if i == s.len() {
            proof {
                reveal_with_fuel(find_from, 2);
            }
            return None;
        }
        i += 1;
    }
    None
}

/// Whether `s` starts with `prefix`.
pub fn starts_with(s: &str, prefix: &str) -> (r: bool)
    ensures
        r == prefix@.is_prefix_of(s@),
{
    let cs: Vec<char> = chars_of(s);
    let ps: Vec<char> = chars_of(prefix);
    matches_at(cs.as_slice(), ps.as_slice(), 0)
}

/// Whether `s` ends with `suffix`.
pub fn ends_with(s: &str, suffix: &str) -> (r: bool)
    ensures
        r == suffix@.is_suffix_of(s@),
{
    let cs: Vec<char> = chars_of(s);
    let ps: Vec<char> = chars_of(suffix);
    if cs.len() < ps.len() {
        return false;
    }
    matches_at(cs.as_slice(), ps.as_slice(), cs.len() - ps.len())
}

/// Whether `pat` stands anywhere in `s`.
pub fn contains(s: &str, pat: &str) -> (r: bool)
    ensures
        r == (find(s@, pat@) is Some),
{
    let cs: Vec<char> = chars_of(s);
    let ps: Vec<char> = chars_of(pat);
    find_chars(cs.as_slice(), ps.as_slice(), 0).is_some()
}

/// How many characters of `s` stand before the first `c`.
fn cut_index(s: &[char], c: char) -> (r: usize)
    ensures
        r == cut_at(s@, c),
        r <= s@.len(),
{
    let mut i: usize = 0;
    assert(s@.skip(0) =~= s@);
    while i < s.len() && s[i] != c
        invariant
            i <= s@.len(),
            cut_at(s@, c) == i + cut_at(s@.skip(i as int), c),
        decreases s@.len() - i,
    {
        assert(s@.skip(i as int).drop_first() =~= s@.skip(i + 1));
        i += 1;
    }
    i
}

/// What stands in `s` before the first `c`, and what stands after it.
pub fn split_once(s: &str, c: char) -> (r: (String, String))
    ensures
        r.0@ == before(s@, c),
        r.1@ == after(s@, c),
{
    let cs: Vec<char> = chars_of(s);
    let n: usize = cut_index(cs.as_slice(), c);
    let head: String = text_between(cs.as_slice(), 0, n);
    let tail: String = if n < cs.len() {
        text_between(cs.as_slice(), n + 1, cs.len())
    } else {
        String::new()
    };
    proof {
        assert(cs@.subrange(0, n as int) =~= cs@.take(n as int));
        if n < cs@.len() {
            assert(cs@.subrange(n + 1, cs@.len() as int) =~= cs@.skip(n + 1));
        }
    }
    (head, tail)
}

/// The first line of `s`.
pub fn take_first_line(s: &str) -> (r: String)
    ensures
        r@ == first_line(s@),
{
    let cs: Vec<char> = chars_of(s);
    let n: usize = cut_index(cs.as_slice(), '\n');
    proof {
        assert(cs@.subrange(0, n as int) =~= cs@.take(n as int));
        if n > 0 {
            assert(cs@.subrange(0, n - 1) =~= cs@.take(n as int).drop_last());
        }
    }
    if n < cs.len() && n > 0 && cs[n - 1] == '\r' {
        text_between(cs.as_slice(), 0, n - 1)
    } else {
        text_between(cs.as_slice(), 0, n)
    }
}

/// The index at which the white space that `s` has from `from` on ends.
fn skip_space(s: &[char], from: usize) -> (r: usize)
    requires
        from <= s@.len(),
    ensures
        from <= r <= s@.len(),
        trim_start(s@.skip(from as int)) == s@.skip(r as int),
        r < s@.len() ==> !is_white_space(s@[r as int]),
{
    let mut i: usize = from;
    while i < s.len() && is_whitespace(s[i])
        invariant
            from <= i <= s@.len(),
            trim_start(s@.skip(from as int)) == trim_start(s@.skip(i as int)),
        decreases s@.len() - i,
    {
        assert(s@.skip(i as int).drop_first() =~= s@.skip(i + 1));
        i += 1;
    }
    i
}

/// The index at which the word that `s` has at `from` ends.
fn skip_word(s: &[char], from: usize) -> (r: usize)
    requires
        from <= s@.len(),
    ensures
        from <= r <= s@.len(),
        leading_word(s@.skip(from as int)) == s@.subrange(from as int, r as int),
{
    let mut i: usize = from;
    assert(leading_word(s@.skip(from as int)) =~= s@.subrange(from as int, from as int)
        + leading_word(s@.skip(from as int)));
    while i < s.len() && !is_whitespace(s[i])
        invariant
            from <= i <= s@.len(),
            leading_word(s@.skip(from as int)) == s@.subrange(from as int, i as int)
                + leading_word(s@.skip(i as int)),
        decreases s@.len() - i,
    {
        assert(s@.skip(i as int).drop_first() =~= s@.skip(i + 1));
        assert(s@.subrange(from as int, i as int) + (seq![s@[i as int]] + leading_word(
            s@.skip(i + 1),
        )) =~= s@.subrange(from as int, i + 1) + leading_word(s@.skip(i + 1)));
        i += 1;
    }
    assert(leading_word(s@.skip(i as int)) =~= Seq::<char>::empty());
    assert(s@.subrange(from as int, i as int) + Seq::<char>::empty() =~= s@.subrange(
        from as int,
        i as int,
    ));
    i
}

/// The second of the words of `s`; empty where there is none.
pub fn take_second_word(s: &str) -> (r: String)
    ensures
        r@ == second_word(s@),
{
    let cs: Vec<char> = chars_of(s);
    let a: usize = skip_space(cs.as_slice(), 0);
    let b: usize = skip_word(cs.as_slice(), a);
    let c: usize = skip_space(cs.as_slice(), b);
    let d: usize = skip_word(cs.as_slice(), c);
    proof {
        assert(cs@.skip(0) =~= cs@);
        assert(cs@.skip(a as int).skip(b - a) =~= cs@.skip(b as int));
    }
    text_between(cs.as_slice(), c, d)
}

/// `s` without the white space at either end.
pub fn trimmed(s: &str) -> (r: String)
    ensures
        r@ == trim(s@),
{
    let cs: Vec<char> = chars_of(s);
    let from: usize = skip_space(cs.as_slice(), 0);
    let mut to: usize = cs.len();
    proof {
        assert(cs@.skip(0) =~= cs@);
        assert(cs@.skip(from as int) =~= cs@.subrange(from as int, to as int));
    }
    while to > from && is_whitespace(cs[to - 1])
        invariant
            from <= to <= cs@.len(),
            trim(s@) == trim_end(cs@.subrange(from as int, to as int)),
        decreases to - from,
    {
        assert(cs@.subrange(from as int, to as int).drop_last() =~= cs@.subrange(
            from as int,
            to - 1,
        ));
        to -= 1;
    }
    text_between(cs.as_slice(), from, to)
}

/// Whether `s` holds white space only.
pub fn is_blank(s: &str) -> (r: bool)
    ensures
        r == (trim(s@).len() == 0),
{
    let t: String = trimmed(s);
    t.as_str().is_empty()
}

/// `s` without the white space that it starts with.
pub fn start_trimmed(s: &str) -> (r: String)
    ensures
        r@ == trim_start(s@),
{
    let cs: Vec<char> = chars_of(s);
    let from: usize = skip_space(cs.as_slice(), 0);
    proof {
        assert(cs@.skip(0) =~= cs@);
        assert(cs@.skip(from as int) =~= cs@.subrange(from as int, cs@.len() as int));
    }
    text_between(cs.as_slice(), from, cs.len())
}

/// `s` without the run of `c` that it ends with.
pub fn end_trimmed_of(s: &str, c: char) -> (r: String)
    ensures
        r@ == trim_end_char(s@, c),
{
    let cs: Vec<char> = chars_of(s);
    let mut to: usize = cs.len();
    assert(cs@.subrange(0, to as int) =~= cs@);
    while to > 0 && cs[to - 1] == c
        invariant
            to <= cs@.len(),
            trim_end_char(s@, c) == trim_end_char(cs@.subrange(0, to as int), c),
        decreases to,
    {
        assert(cs@.subrange(0, to as int).drop_last() =~= cs@.subrange(0, to - 1));
        to -= 1;
    }
    text_between(cs.as_slice(), 0, to)
}

/// `s` without the run of `c` that it starts with.
pub fn start_trimmed_of(s: &str, c: char) -> (r: String)
    ensures
        r@ == trim_start_char(s@, c),
{
    let cs: Vec<char> = chars_of(s);
    let mut from: usize = 0;
    assert(cs@.skip(0) =~= cs@);
    while from < cs.len() && cs[from] == c
        invariant
            from <= cs@.len(),
            trim_start_char(s@, c) == trim_start_char(cs@.skip(from as int), c),
        decreases cs@.len() - from,
    {
        assert(cs@.skip(from as int).drop_first() =~= cs@.skip(from + 1));
        from += 1;
    }
    assert(cs@.skip(from as int) =~= cs@.subrange(from as int, cs@.len() as int));
    text_between(cs.as_slice(), from, cs.len())
}

/// `s` with every `c` replaced by `by`.
pub fn replace_char(s: &str, c: char, by: &str) -> (r: String)
    ensures
        r@ == replaced(s@, c, by@),
{
    let cs: Vec<char> = chars_of(s);
    let mut r: String = String::new();
    let mut i: usize = 0;
    while i < cs.len()
        invariant
            i <= cs@.len(),
            r@ == replaced(cs@.take(i as int), c, by@),
        decreases cs@.len() - i,
    {
        assert(cs@.take(i + 1).drop_last() =~= cs@.take(i as int));
        if cs[i] == c {
            r.append(by);
        } else {
            r.push(cs[i]);
        }
        i += 1;
    }
    assert(cs@.take(i as int) =~= cs@);
    r
}

/// `s` without its white space.
pub fn drop_white_space(s: &str) -> (r: String)
    ensures
        r@ == without_white_space(s@),
{
    let cs: Vec<char> = chars_of(s);
    let mut r: String = String::new();
    let mut i: usize = 0;
    while i < cs.len()
        invariant
            i <= cs@.len(),
            r@ == without_white_space(cs@.take(i as int)),
        decreases cs@.len() - i,
    {
        assert(cs@.take(i + 1).drop_last() =~= cs@.take(i as int));
        if !is_whitespace(cs[i]) {
            r.push(cs[i]);
        }
        i += 1;
    }
    assert(cs@.take(i as int) =~= cs@);
    r
}

// ---------------------------------------------------------------------------------------------
// Facts about cutting
// ---------------------------------------------------------------------------------------------

/// Text without `c`, then `c`, then more text is cut just before that `c`.
pub proof fn lemma_cut(head: Seq<char>, c: char, tail: Seq<char>)
    requires
        !head.contains(c),
    ensures
        cut_at(head, c) == head.len(),
        before(head, c) == head,
        after(head, c) == Seq::<char>::empty(),
        cut_at(head.push(c) + tail, c) == head.len(),
        before(head.push(c) + tail, c) == head,
        after(head.push(c) + tail, c) == tail,
    decreases head.len(),
{
    let whole = head.push(c) + tail;
    if head.len() > 0 {
        let rest = head.drop_first();
        assert forall|i: int| 0 <= i < rest.len() implies rest[i] != c by {
            assert(rest[i] == head[i + 1]);
        }
        lemma_cut(rest, c, tail);
        assert(head[0] != c);
        assert(whole.drop_first() =~= rest.push(c) + tail);
    }
    assert(head.take(head.len() as int) =~= head);
    assert(whole.take(head.len() as int) =~= head);
    assert(whole.skip(head.len() as int + 1) =~= tail);
}

/// A cut lies within the text.
pub proof fn lemma_cut_within(s: Seq<char>, c: char)
    ensures
        cut_at(s, c) <= s.len(),
        before(s, c).len() == cut_at(s, c),
    decreases s.len(),
{
    if s.len() > 0 && s[0] != c {
        lemma_cut_within(s.drop_first(), c);
    }
}

/// Where a text occurs, it is found, there or earlier.
pub proof fn lemma_find_first(s: Seq<char>, pat: Seq<char>, from: int, at: int)
    requires
        0 <= from <= at,
        occurs_at(s, pat, at),
    ensures
        find_from(s, pat, from) matches Some(i) && from <= i <= at && occurs_at(s, pat, i),
    decreases at - from,
{
    if !occurs_at(s, pat, from) {
        lemma_find_first(s, pat, from + 1, at);
    }
}

/// Where a text occurs and not before, it is found there.
pub proof fn lemma_find_is_first(s: Seq<char>, pat: Seq<char>, from: int, at: int)
    requires
        0 <= from <= at,
        occurs_at(s, pat, at),
        forall|i: int| from <= i < at ==> !#[trigger] occurs_at(s, pat, i),
    ensures
        find_from(s, pat, from) == Some(at),
{
    lemma_find_first(s, pat, from, at);
}

/// A text that does not occur is not found.
pub proof fn lemma_find_none(s: Seq<char>, pat: Seq<char>, from: int)
    requires
        0 <= from,
        forall|i: int| from <= i ==> !#[trigger] occurs_at(s, pat, i),
    ensures
        find_from(s, pat, from) is None,
    decreases s.len() - from + 1,
{
    if from + pat.len() <= s.len() {
        assert(!occurs_at(s, pat, from));
        lemma_find_none(s, pat, from + 1);
    }
}

/// Replacing a character by another one keeps the length and changes only that character.
pub proof fn lemma_replaced_by_one(s: Seq<char>, c: char, by: char)
    ensures
        replaced(s, c, seq![by]) == s.map_values(
            |x: char|
                if x == c {
                    by
                } else {
                    x
                },
        ),
    decreases s.len(),
{
    if s.len() > 0 {
        lemma_replaced_by_one(s.drop_last(), c, by);
    }
    assert(replaced(s, c, seq![by]) =~= s.map_values(
        |x: char|
            if x == c {
                by
            } else {
                x
            },
    ));
}

/// A word that white space follows is the leading word.
pub proof fn lemma_leading_word(word: Seq<char>, c: char, tail: Seq<char>)
    requires
        has_no_space(word),
        is_white_space(c),
    ensures
        leading_word(word.push(c) + tail) == word,
    decreases word.len(),
{
    let whole = word.push(c) + tail;
    if word.len() > 0 {
        let rest = word.drop_first();
        assert forall|i: int| 0 <= i < rest.len() implies !is_white_space(#[trigger] rest[i]) by {
            assert(rest[i] == word[i + 1]);
        }
        lemma_leading_word(rest, c, tail);
        assert(!is_white_space(word[0]));
        assert(whole.drop_first() =~= rest.push(c) + tail);
        assert(seq![word[0]] + rest =~= word);
    } else {
        assert(word =~= Seq::empty());
    }
}

} // verus!
