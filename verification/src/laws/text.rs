//! Laws of searching, cutting, trimming and replacing.

use vstd::prelude::*;

use crate::text::{
    after, before, chars_of, contains, cut_at, drop_white_space, end_trimmed_of, ends_with,
    find_chars, find_from, has_no_space, is_blank, is_white_space, is_whitespace, leading_word,
    occurs_at, replace_char, replaced, same_text, split_once, start_trimmed, start_trimmed_of,
    starts_with, take_first_line, take_second_word, text_between, trim, trim_end, trim_end_char,
    trim_start, trim_start_char, trimmed, without_white_space,
};

verus! {

/// Whether all of `s` is white space.
pub open spec fn all_white(s: Seq<char>) -> bool {
    forall|i: int| 0 <= i < s.len() ==> is_white_space(#[trigger] s[i])
}

/// Whether all of `s` is the character `c`.
pub open spec fn run_of(s: Seq<char>, c: char) -> bool {
    forall|i: int| 0 <= i < s.len() ==> #[trigger] s[i] == c
}

/// The characters that count as white space, by their code points.
pub proof fn law_white_space(c: char, r: bool)
    requires
        call_ensures(is_whitespace, (c,), r),
    ensures
        r <==> {
            let n = c as u32;
            ||| 9 <= n <= 13
            ||| n == 32
            ||| n == 133
            ||| n == 160
            ||| n == 5760
            ||| 8192 <= n <= 8202
            ||| n == 8232
            ||| n == 8233
            ||| n == 8239
            ||| n == 8287
            ||| n == 12288
        },
        r == is_white_space(c),
{
}

/// The first occurrence is found, and where there is one something is found.
pub proof fn law_find(s: &[char], pat: &[char], from: usize, r: Option<usize>)
    requires
        from <= s@.len(),
        call_ensures(find_chars, (s, pat, from), r),
    ensures
        match r {
            Some(i) => {
                &&& from <= i <= s@.len() - pat@.len()
                &&& s@.subrange(i as int, i + pat@.len()) == pat@
                &&& forall|k: int|
                    from <= k < i ==> #[trigger] s@.subrange(k, k + pat@.len()) != pat@
            },
            None => forall|k: int|
                from <= k <= s@.len() - pat@.len() ==> #[trigger] s@.subrange(k, k + pat@.len())
                    != pat@,
        },
{
    lemma_found(s@, pat@, from as int);
}

/// What is found, and what it means that nothing is.
pub proof fn lemma_found(s: Seq<char>, pat: Seq<char>, from: int)
    requires
        0 <= from,
    ensures
        match find_from(s, pat, from) {
            Some(i) => {
                &&& from <= i <= s.len() - pat.len()
                &&& s.subrange(i, i + pat.len()) == pat
                &&& forall|k: int| from <= k < i ==> #[trigger] s.subrange(k, k + pat.len()) != pat
            },
            None => forall|k: int|
                from <= k <= s.len() - pat.len() ==> #[trigger] s.subrange(k, k + pat.len()) != pat,
        },
    decreases s.len() - from + 1,
{
    if from + pat.len() <= s.len() && !occurs_at(s, pat, from) {
        lemma_found(s, pat, from + 1);
    }
}

/// One text holds another where it stands somewhere in it.
pub proof fn law_contains(s: &str, pat: &str, r: bool)
    requires
        call_ensures(contains, (s, pat), r),
    ensures
        r <==> exists|k: int|
            0 <= k <= s@.len() - pat@.len() && #[trigger] s@.subrange(k, k + pat@.len()) == pat@,
{
    lemma_found(s@, pat@, 0);
}

/// Characters, equality, starts and ends are those of the whole texts.
pub proof fn law_whole_texts(s: &str, t: &str, cs: Vec<char>, same: bool, starts: bool, ends: bool)
    requires
        call_ensures(chars_of, (s,), cs),
        call_ensures(same_text, (s, t), same),
        call_ensures(starts_with, (s, t), starts),
        call_ensures(ends_with, (s, t), ends),
    ensures
        cs@ == s@,
        same <==> s@ == t@,
        starts <==> t@.len() <= s@.len() && s@.take(t@.len() as int) == t@,
        ends <==> t@.len() <= s@.len() && s@.skip(s@.len() - t@.len()) == t@,
{
}

/// A text between two places is what stands there.
pub proof fn law_text_between(cs: &[char], from: usize, to: usize, r: String)
    requires
        from <= to <= cs@.len(),
        call_ensures(text_between, (cs, from, to), r),
    ensures
        r@.len() == to - from,
        forall|i: int| 0 <= i < r@.len() ==> #[trigger] r@[i] == cs@[from + i],
{
}

/// The two parts of a text and the first of the characters between them make the text; without that
/// character the first part is the text.
pub proof fn law_split(s: &str, c: char, r: (String, String))
    requires
        call_ensures(split_once, (s, c), r),
    ensures
        !r.0@.contains(c),
        s@.contains(c) ==> s@ == r.0@ + seq![c] + r.1@,
        !s@.contains(c) ==> r.0@ == s@ && r.1@.len() == 0,
{
    lemma_split(s@, c);
}

/// The parts of a text around the first of a character.
pub proof fn lemma_split(s: Seq<char>, c: char)
    ensures
        cut_at(s, c) <= s.len(),
        !before(s, c).contains(c),
        s.contains(c) ==> s == before(s, c) + seq![c] + after(s, c),
        !s.contains(c) ==> before(s, c) == s && after(s, c).len() == 0,
        s.contains(c) <==> cut_at(s, c) < s.len(),
    decreases s.len(),
{
    if s.len() == 0 {
        assert(before(s, c) =~= s);
    } else if s[0] == c {
        assert(s.contains(s[0]));
        assert(before(s, c) =~= Seq::<char>::empty());
        assert(s =~= before(s, c) + seq![c] + after(s, c));
    } else {
        let rest = s.drop_first();
        lemma_split(rest, c);
        let n = cut_at(rest, c) as int;
        assert(before(s, c) =~= seq![s[0]] + before(rest, c));
        assert forall|i: int| 0 <= i < before(s, c).len() implies before(s, c)[i] != c by {
            if i > 0 {
                assert(before(s, c)[i] == before(rest, c)[i - 1]);
                assert(before(rest, c).contains(before(rest, c)[i - 1]));
            }
        }
        if rest.contains(c) {
            let i = choose|i: int| 0 <= i < rest.len() && rest[i] == c;
            assert(s[i + 1] == c);
            assert(after(s, c) =~= after(rest, c));
            assert(s =~= seq![s[0]] + rest);
            assert(s =~= before(s, c) + seq![c] + after(s, c));
        } else {
            assert forall|i: int| 0 <= i < s.len() implies s[i] != c by {
                if i > 0 {
                    assert(rest.contains(rest[i - 1]));
                }
            }
            assert(before(s, c) =~= s);
        }
    }
}

/// Trimming takes white space off both ends and nothing else.
pub proof fn law_trimmed(s: &str, r: String)
    requires
        call_ensures(trimmed, (s,), r),
    ensures
        exists|a: Seq<char>, b: Seq<char>|
            #![trigger all_white(a), all_white(b)]
            all_white(a) && all_white(b) && s@ == a + r@ + b,
        r@.len() > 0 ==> !is_white_space(r@[0]) && !is_white_space(r@.last()),
{
    lemma_trim_start(s@);
    lemma_trim_end(trim_start(s@));
    let t = trim_start(s@);
    let a = s@.take(s@.len() - t.len());
    let b = t.skip(r@.len() as int);
    assert(s@ =~= a + r@ + b);
    assert(all_white(a) && all_white(b));
}

/// Trimming the start takes white space off the start and nothing else.
pub proof fn law_start_trimmed(s: &str, r: String)
    requires
        call_ensures(start_trimmed, (s,), r),
    ensures
        exists|a: Seq<char>| #[trigger] all_white(a) && s@ == a + r@,
        r@.len() > 0 ==> !is_white_space(r@[0]),
{
    lemma_trim_start(s@);
    let a = s@.take(s@.len() - r@.len());
    assert(s@ =~= a + r@);
    assert(all_white(a));
}

/// What trimming the start takes off.
pub proof fn lemma_trim_start(s: Seq<char>)
    ensures
        trim_start(s).len() <= s.len(),
        s.skip(s.len() - trim_start(s).len()) == trim_start(s),
        all_white(s.take(s.len() - trim_start(s).len())),
        trim_start(s).len() > 0 ==> !is_white_space(trim_start(s)[0]),
    decreases s.len(),
{
    if s.len() > 0 && is_white_space(s[0]) {
        let rest = s.drop_first();
        lemma_trim_start(rest);
        let n = rest.len() - trim_start(rest).len();
        assert(s.skip(n + 1) =~= rest.skip(n));
        let head = s.take(n + 1);
        assert forall|i: int| 0 <= i < head.len() implies is_white_space(#[trigger] head[i]) by {
            if i > 0 {
                assert(head[i] == rest.take(n)[i - 1]);
            }
        }
    } else {
        assert(s.skip(0) =~= s);
    }
}

/// What trimming the end takes off.
pub proof fn lemma_trim_end(s: Seq<char>)
    ensures
        trim_end(s).len() <= s.len(),
        s.take(trim_end(s).len() as int) == trim_end(s),
        all_white(s.skip(trim_end(s).len() as int)),
        trim_end(s).len() > 0 ==> !is_white_space(trim_end(s).last()) && trim_end(s)[0] == s[0],
    decreases s.len(),
{
    if s.len() > 0 && is_white_space(s.last()) {
        let rest = s.drop_last();
        lemma_trim_end(rest);
        let n = trim_end(rest).len() as int;
        assert(s.take(n) =~= rest.take(n));
        let tail = s.skip(n);
        assert forall|i: int| 0 <= i < tail.len() implies is_white_space(#[trigger] tail[i]) by {
            if i < tail.len() - 1 {
                assert(tail[i] == rest.skip(n)[i]);
            }
        }
    } else {
        assert(s.take(s.len() as int) =~= s);
    }
}

/// Text is blank where all of it is white space.
pub proof fn law_blank(s: &str, r: bool)
    requires
        call_ensures(is_blank, (s,), r),
    ensures
        r <==> all_white(s@),
{
    lemma_blank(s@);
}

/// Text is blank where all of it is white space.
pub proof fn lemma_blank(s: Seq<char>)
    ensures
        trim(s).len() == 0 <==> all_white(s),
{
    lemma_trim_start(s);
    let t = trim_start(s);
    lemma_trim_end(t);
    let n = s.len() - t.len();
    if trim(s).len() == 0 {
        if t.len() > 0 {
            assert(t.skip(0)[0] == t[0]);
            assert(is_white_space(t.skip(0)[0]));
            assert(!is_white_space(t[0]));
        }
        assert(s.take(n) =~= s);
    } else {
        assert(s.skip(n)[0] == s[n]);
        assert(!is_white_space(s[n]));
    }
}

/// The run of a character at an end of a text is taken off, and nothing else.
pub proof fn law_runs(s: &str, c: char, start: String, end: String)
    requires
        call_ensures(start_trimmed_of, (s, c), start),
        call_ensures(end_trimmed_of, (s, c), end),
    ensures
        exists|a: Seq<char>| #[trigger] run_of(a, c) && s@ == a + start@,
        start@.len() > 0 ==> start@[0] != c,
        exists|b: Seq<char>| #[trigger] run_of(b, c) && s@ == end@ + b,
        end@.len() > 0 ==> end@.last() != c,
{
    lemma_start_run(s@, c);
    lemma_end_run(s@, c);
}

/// What is taken off the start of a text.
pub proof fn lemma_start_run(s: Seq<char>, c: char)
    ensures
        exists|a: Seq<char>| #[trigger] run_of(a, c) && s == a + trim_start_char(s, c),
        trim_start_char(s, c).len() > 0 ==> trim_start_char(s, c)[0] != c,
    decreases s.len(),
{
    if s.len() > 0 && s[0] == c {
        let rest = s.drop_first();
        lemma_start_run(rest, c);
        let a = choose|a: Seq<char>| #[trigger] run_of(a, c) && rest == a + trim_start_char(rest, c);
        let b = seq![c] + a;
        assert(run_of(b, c));
        assert(trim_start_char(s, c) == trim_start_char(rest, c));
        assert(s =~= seq![c] + rest);
        assert(s =~= b + trim_start_char(s, c));
    } else {
        let none = Seq::<char>::empty();
        assert(run_of(none, c));
        assert(s =~= none + s);
    }
}

/// What is taken off the end of a text.
pub proof fn lemma_end_run(s: Seq<char>, c: char)
    ensures
        exists|b: Seq<char>| #[trigger] run_of(b, c) && s == trim_end_char(s, c) + b,
        trim_end_char(s, c).len() > 0 ==> trim_end_char(s, c).last() != c,
    decreases s.len(),
{
    if s.len() > 0 && s.last() == c {
        let rest = s.drop_last();
        lemma_end_run(rest, c);
        let b = choose|b: Seq<char>| #[trigger] run_of(b, c) && rest == trim_end_char(rest, c) + b;
        let d = b.push(c);
        assert(run_of(d, c));
        assert(trim_end_char(s, c) == trim_end_char(rest, c));
        assert(s =~= rest.push(c));
        assert(s =~= trim_end_char(s, c) + d);
    } else {
        let none = Seq::<char>::empty();
        assert(run_of(none, c));
        assert(s =~= s + none);
    }
}

/// Replacing goes character by character: the parts of a text are replaced on their own, the
/// character by what stands for it, and any other character by itself.
pub proof fn law_replace(
    s: &str,
    a: &str,
    b: &str,
    c: char,
    by: &str,
    r: String,
    ra: String,
    rb: String,
)
    requires
        s@ == a@ + b@,
        call_ensures(replace_char, (s, c, by), r),
        call_ensures(replace_char, (a, c, by), ra),
        call_ensures(replace_char, (b, c, by), rb),
    ensures
        r@ == ra@ + rb@,
        s@.len() == 0 ==> r@.len() == 0,
        s@.len() == 1 ==> r@ == (if s@[0] == c {
            by@
        } else {
            s@
        }),
{
    lemma_replace_sum(a@, b@, c, by@);
    reveal_with_fuel(replaced, 2);
    if s@.len() == 1 {
        assert(s@.drop_last() =~= Seq::<char>::empty());
        assert(replaced(s@.drop_last(), c, by@) =~= Seq::<char>::empty());
        assert(Seq::<char>::empty() + by@ =~= by@);
        assert(Seq::<char>::empty().push(s@[0]) =~= s@);
    }
}

/// Two texts are replaced on their own.
pub proof fn lemma_replace_sum(a: Seq<char>, b: Seq<char>, c: char, by: Seq<char>)
    ensures
        replaced(a + b, c, by) == replaced(a, c, by) + replaced(b, c, by),
    decreases b.len(),
{
    if b.len() == 0 {
        assert(a + b =~= a);
        assert(replaced(a, c, by) + replaced(b, c, by) =~= replaced(a, c, by));
    } else {
        lemma_replace_sum(a, b.drop_last(), c, by);
        assert((a + b).drop_last() =~= a + b.drop_last());
        assert(replaced(a + b, c, by) =~= replaced(a, c, by) + replaced(b, c, by));
    }
}

/// What is left without white space are the other characters, in their order.
pub proof fn law_drop_white_space(s: &str, r: String)
    requires
        call_ensures(drop_white_space, (s,), r),
    ensures
        r@ == s@.filter(|c: char| !is_white_space(c)),
{
    lemma_without_white_space(s@);
}

/// What is left without white space are the other characters.
pub proof fn lemma_without_white_space(s: Seq<char>)
    ensures
        without_white_space(s) == s.filter(|c: char| !is_white_space(c)),
    decreases s.len(),
{
    reveal(Seq::filter);
    if s.len() > 0 {
        lemma_without_white_space(s.drop_last());
    }
}

/// The first line is what stands before the first line feed, without a carriage return there; a
/// text without a line feed is its own first line.
pub proof fn law_first_line(s: &str, r: String)
    requires
        call_ensures(take_first_line, (s,), r),
    ensures
        !r@.contains('\n'),
        !s@.contains('\n') ==> r@ == s@,
        s@.contains('\n') ==> exists|rest: Seq<char>|
            {
                ||| s@ == #[trigger] (r@ + seq!['\n'] + rest) && !(r@.len() > 0 && r@.last() == '\r')
                ||| s@ == r@.push('\r') + seq!['\n'] + rest
            },
{
    lemma_split(s@, '\n');
    let line = before(s@, '\n');
    let rest = after(s@, '\n');
    if s@.contains('\n') {
        if line.len() > 0 && line.last() == '\r' {
            assert(line =~= r@.push('\r'));
            assert forall|i: int| 0 <= i < r@.len() implies r@[i] != '\n' by {
                assert(line.contains(line[i]));
            }
            let shorter = r@ + seq!['\n'] + rest;
        }
    }
}

/// The second word is the one behind the first: white space parts the words, and may stand before
/// the first one.
pub proof fn law_second_word(
    s: &str,
    start: Seq<char>,
    first: Seq<char>,
    between: Seq<char>,
    second: Seq<char>,
    rest: Seq<char>,
    r: String,
)
    requires
        call_ensures(take_second_word, (s,), r),
        s@ == start + first + between + second + rest,
        all_white(start),
        has_no_space(first),
        all_white(between),
        has_no_space(second),
        rest.len() == 0 || is_white_space(rest[0]),
        first.len() > 0 || between.len() + second.len() + rest.len() == 0,
        between.len() > 0 || second.len() + rest.len() == 0,
        second.len() > 0 || rest.len() == 0,
    ensures
        r@ == second,
{
    let tail = first + between + second + rest;
    assert(s@ =~= start + tail);
    if tail.len() > 0 {
        assert(tail[0] == first[0]);
        assert(!is_white_space(first[0]));
    }
    lemma_skip_white(start, tail);
    let more = between + second + rest;
    assert(tail =~= first + more);
    if more.len() > 0 {
        assert(more[0] == between[0]);
        assert(is_white_space(between[0]));
    }
    lemma_take_word(first, more);
    assert(tail.skip(first.len() as int) =~= more);
    let end = second + rest;
    assert(more =~= between + end);
    if end.len() > 0 {
        assert(end[0] == second[0]);
        assert(!is_white_space(second[0]));
    }
    lemma_skip_white(between, end);
    lemma_take_word(second, rest);
}

/// White space before other text is skipped.
proof fn lemma_skip_white(a: Seq<char>, b: Seq<char>)
    requires
        all_white(a),
        b.len() > 0 ==> !is_white_space(b[0]),
    ensures
        trim_start(a + b) == b,
    decreases a.len(),
{
    if a.len() == 0 {
        assert(a + b =~= b);
    } else {
        let rest = a.drop_first();
        assert forall|i: int| 0 <= i < rest.len() implies is_white_space(#[trigger] rest[i]) by {
            assert(rest[i] == a[i + 1]);
        }
        lemma_skip_white(rest, b);
        assert((a + b)[0] == a[0]);
        assert((a + b).drop_first() =~= rest + b);
    }
}

/// A word before white space or the end is the leading word.
proof fn lemma_take_word(word: Seq<char>, rest: Seq<char>)
    requires
        has_no_space(word),
        rest.len() > 0 ==> is_white_space(rest[0]),
    ensures
        leading_word(word + rest) == word,
    decreases word.len(),
{
    let whole = word + rest;
    if word.len() == 0 {
        assert(whole =~= rest);
        assert(leading_word(whole) =~= word);
    } else {
        let tail = word.drop_first();
        assert forall|i: int| 0 <= i < tail.len() implies !is_white_space(#[trigger] tail[i]) by {
            assert(tail[i] == word[i + 1]);
        }
        lemma_take_word(tail, rest);
        assert(whole[0] == word[0]);
        assert(whole.drop_first() =~= tail + rest);
        assert(seq![word[0]] + tail =~= word);
    }
}

} // verus!
