//! Greedy word wrapping of already-complete text, used when printing a
//! finished answer.
//!
//! Lines are kept, blank lines collapse to a single line break, words are
//! packed greedily up to the width, a word longer than the whole width is
//! hard-broken into width-sized chunks, and trailing whitespace is removed
//! at the end. Widths are in characters.

use vstd::prelude::*;
use crate::text::{chars_to_string, string_to_chars};

verus! {

pub open spec fn is_space(c: char) -> bool {
    c == ' ' || c == '\t' || c == '\r' || c == '\n'
}

/// Index of the first line break, if any.
pub open spec fn spec_first_nl(s: Seq<char>) -> Option<int>
    decreases s.len(),
{
    if s.len() == 0 {
        None
    } else if s[0] == '\n' {
        Some(0)
    } else {
        match spec_first_nl(s.drop_first()) {
            Some(k) => Some(k + 1),
            None => None,
        }
    }
}

pub proof fn lemma_first_nl_some(s: Seq<char>, k: int)
    requires
        0 <= k < s.len(),
        s[k] == '\n',
        forall|j: int| 0 <= j < k ==> s[j] != '\n',
    ensures
        spec_first_nl(s) == Some(k),
    decreases s.len(),
{
    if k > 0 {
        assert(forall|j: int| 0 <= j < k - 1 ==> s.drop_first()[j] != '\n');
        lemma_first_nl_some(s.drop_first(), k - 1);
    }
}

pub proof fn lemma_first_nl_none(s: Seq<char>)
    requires
        forall|j: int| 0 <= j < s.len() ==> s[j] != '\n',
    ensures
        spec_first_nl(s) is None,
    decreases s.len(),
{
    if s.len() > 0 {
        lemma_first_nl_none(s.drop_first());
    }
}

/// A line piece that ended in a line break loses one trailing carriage
/// return, as usual line splitting does.
pub open spec fn spec_strip_cr(line: Seq<char>) -> Seq<char> {
    if line.len() > 0 && line.last() == '\r' {
        line.drop_last()
    } else {
        line
    }
}

/// The lines of `text`: split at line breaks, one optional carriage return
/// removed per break, no final empty line for a trailing break.
pub open spec fn spec_split_lines(text: Seq<char>) -> Seq<Seq<char>>
    decreases text.len(),
{
    if text.len() == 0 {
        Seq::empty()
    } else {
        match spec_first_nl(text) {
            Some(k) => if 0 <= k < text.len() {
                seq![spec_strip_cr(text.subrange(0, k))] + spec_split_lines(
                    text.subrange(k + 1, text.len() as int),
                )
            } else {
                seq![text]
            },
            None => seq![text],
        }
    }
}

/// Number of leading non-space characters.
pub open spec fn spec_word_len(s: Seq<char>) -> int
    decreases s.len(),
{
    if s.len() == 0 {
        0
    } else if is_space(s[0]) {
        0
    } else {
        1 + spec_word_len(s.drop_first())
    }
}

pub proof fn lemma_word_len_bounds(s: Seq<char>)
    ensures
        0 <= spec_word_len(s) <= s.len(),
        spec_word_len(s) < s.len() ==> is_space(s[spec_word_len(s)]),
        forall|j: int| 0 <= j < spec_word_len(s) ==> !is_space(s[j]),
    decreases s.len(),
{
    if s.len() > 0 && !is_space(s[0]) {
        lemma_word_len_bounds(s.drop_first());
        assert forall|j: int| 0 <= j < spec_word_len(s) implies !is_space(s[j]) by {
            if j > 0 {
                assert(s.drop_first()[j - 1] == s[j]);
            }
        }
    }
}

/// The whitespace-separated words of a line.
pub open spec fn spec_split_words(line: Seq<char>) -> Seq<Seq<char>>
    decreases line.len(),
{
    if line.len() == 0 {
        Seq::empty()
    } else if is_space(line[0]) {
        spec_split_words(line.drop_first())
    } else {
        let k = spec_word_len(line);
        if 1 <= k <= line.len() {
            seq![line.subrange(0, k)] + spec_split_words(line.subrange(k, line.len() as int))
        } else {
            Seq::empty()
        }
    }
}

pub open spec fn all_space(line: Seq<char>) -> bool {
    forall|j: int| 0 <= j < line.len() ==> is_space(line[j])
}

/// A word longer than the whole width, emitted as width-sized chunks, each
/// with its own line break.
pub open spec fn spec_chunks(w: Seq<char>, width: int) -> Seq<char>
    decreases w.len(),
{
    if w.len() == 0 {
        Seq::empty()
    } else {
        let take = if w.len() < width {
            w.len() as int
        } else {
            width
        };
        if 1 <= take <= w.len() {
            w.subrange(0, take) + seq!['\n'] + spec_chunks(w.subrange(take, w.len() as int), width)
        } else {
            Seq::empty()
        }
    }
}

/// Greedy packing of words onto lines of at most `width` characters, with
/// `cur` the line being filled. A word that does not fit closes the line;
/// a word that alone exceeds the width is hard-broken only when the line
/// was empty.
pub open spec fn spec_wrap_words(ws: Seq<Seq<char>>, cur: Seq<char>, width: int) -> Seq<char>
    decreases ws.len(),
{
    if ws.len() == 0 {
        if cur.len() == 0 {
            Seq::empty()
        } else {
            cur + seq!['\n']
        }
    } else {
        let w = ws[0];
        let space: int = if cur.len() == 0 {
            0
        } else {
            1
        };
        if cur.len() + space + w.len() > width {
            if cur.len() > 0 {
                cur + seq!['\n'] + spec_wrap_words(ws.drop_first(), w, width)
            } else {
                spec_chunks(w, width) + spec_wrap_words(ws.drop_first(), Seq::empty(), width)
            }
        } else {
            spec_wrap_words(
                ws.drop_first(),
                if cur.len() == 0 {
                    w
                } else {
                    cur + seq![' '] + w
                },
                width,
            )
        }
    }
}

/// One line's contribution: a blank line keeps a single line break, any
/// other line is wrapped.
pub open spec fn spec_wrap_line(line: Seq<char>, width: int) -> Seq<char> {
    if all_space(line) {
        seq!['\n']
    } else {
        spec_wrap_words(spec_split_words(line), Seq::empty(), width)
    }
}

pub open spec fn spec_wrap_lines(lines: Seq<Seq<char>>, width: int) -> Seq<char>
    decreases lines.len(),
{
    if lines.len() == 0 {
        Seq::empty()
    } else {
        spec_wrap_line(lines[0], width) + spec_wrap_lines(lines.drop_first(), width)
    }
}

/// Trailing whitespace removed.
pub open spec fn spec_trim_end(s: Seq<char>) -> Seq<char>
    decreases s.len(),
{
    if s.len() > 0 && is_space(s.last()) {
        spec_trim_end(s.drop_last())
    } else {
        s
    }
}

pub proof fn lemma_trim_end_at(s: Seq<char>, m: int)
    requires
        0 <= m <= s.len(),
        forall|j: int| m <= j < s.len() ==> is_space(s[j]),
        m > 0 ==> !is_space(s[m - 1]),
    ensures
        spec_trim_end(s) == s.subrange(0, m),
    decreases s.len(),
{
    if s.len() > 0 && is_space(s.last()) {
        assert(m < s.len());
        assert(forall|j: int| m <= j < s.drop_last().len() ==> s.drop_last()[j] == s[j]);
        lemma_trim_end_at(s.drop_last(), m);
        assert(s.drop_last().subrange(0, m) =~= s.subrange(0, m));
    } else {
        assert(m == s.len());
        assert(s.subrange(0, m) =~= s);
    }
}

/// The whole transformation.
pub open spec fn spec_word_wrap(text: Seq<char>, width: int) -> Seq<char> {
    spec_trim_end(spec_wrap_lines(spec_split_lines(text), width))
}

// ---------------------------------------------------------------------------
// Executable wrapping
// ---------------------------------------------------------------------------

/// The characters of `s` between `a` and `b`.
fn vec_subrange(s: &Vec<char>, a: usize, b: usize) -> (r: Vec<char>)
    requires
        a <= b <= s@.len(),
    ensures
        r@ == s@.subrange(a as int, b as int),
{
    let mut r: Vec<char> = Vec::new();
    let mut k: usize = a;
    while k < b
        invariant
            a <= k <= b <= s@.len(),
            r@ == s@.subrange(a as int, k as int),
        decreases b - k,
    {
        r.push(s[k]);
        k = k + 1;
        proof {
            assert(r@ =~= s@.subrange(a as int, k as int));
        }
    }
    r
}

fn is_space_exec(c: char) -> (r: bool)
    ensures
        r == is_space(c),
{
    c == ' ' || c == '\t' || c == '\r' || c == '\n'
}

fn find_nl(s: &Vec<char>) -> (r: Option<usize>)
    ensures
        r matches Some(k) ==> spec_first_nl(s@) == Some(k as int) && k < s@.len(),
        r is None ==> spec_first_nl(s@) is None,
{
    let mut k: usize = 0;
    while k < s.len()
        invariant
            k <= s@.len(),
            forall|j: int| 0 <= j < k ==> s@[j] != '\n',
        decreases s@.len() - k,
    {
        if s[k] == '\n' {
            proof {
                lemma_first_nl_some(s@, k as int);
            }
            return Some(k);
        }
        k = k + 1;
    }
    proof {
        lemma_first_nl_none(s@);
    }
    None
}

fn strip_cr_exec(line: Vec<char>) -> (r: Vec<char>)
    ensures
        r@ == spec_strip_cr(line@),
{
    let mut v = line;
    let ghost orig = v@;
    if v.len() > 0 && v[v.len() - 1] == '\r' {
        v.pop();
        proof {
            assert(v@ =~= spec_strip_cr(orig));
        }
    }
    v
}

fn split_lines_exec(s: &Vec<char>) -> (r: Vec<Vec<char>>)
    ensures
        Seq::new(r@.len(), |i: int| r@[i]@) == spec_split_lines(s@),
    decreases s@.len(),
{
    if s.len() == 0 {
        let r: Vec<Vec<char>> = Vec::new();
        proof {
            assert(Seq::new(r@.len(), |i: int| r@[i]@) =~= spec_split_lines(s@));
        }
        return r;
    }
    match find_nl(s) {
        Some(k) => {
            let piece = strip_cr_exec(vec_subrange(s, 0, k));
            let rest = vec_subrange(s, k + 1, s.len());
            let tail = split_lines_exec(&rest);
            let ghost tv = Seq::new(tail@.len(), |i: int| tail@[i]@);
            let mut r = tail;
            r.insert(0, piece);
            proof {
                assert(Seq::new(r@.len(), |i: int| r@[i]@) =~= seq![
                    spec_strip_cr(s@.subrange(0, k as int)),
                ] + tv);
            }
            r
        },
        None => {
            let mut r: Vec<Vec<char>> = Vec::new();
            r.push(vec_subrange(s, 0, s.len()));
            proof {
                assert(s@.subrange(0, s@.len() as int) =~= s@);
                assert(Seq::new(r@.len(), |i: int| r@[i]@) =~= seq![s@]);
            }
            r
        },
    }
}

fn word_len_exec(s: &Vec<char>) -> (r: usize)
    ensures
        r == spec_word_len(s@),
        r <= s@.len(),
    decreases s@.len(),
{
    if s.len() == 0 {
        return 0;
    }
    if is_space_exec(s[0]) {
        return 0;
    }
    let rest = vec_subrange(s, 1, s.len());
    proof {
        assert(rest@ =~= s@.drop_first());
    }
    let n = word_len_exec(&rest);
    n + 1
}

fn split_words_exec(line: &Vec<char>) -> (r: Vec<Vec<char>>)
    ensures
        Seq::new(r@.len(), |i: int| r@[i]@) == spec_split_words(line@),
    decreases line@.len(),
{
    if line.len() == 0 {
        let r: Vec<Vec<char>> = Vec::new();
        proof {
            assert(Seq::new(r@.len(), |i: int| r@[i]@) =~= spec_split_words(line@));
        }
        return r;
    }
    if is_space_exec(line[0]) {
        let rest = vec_subrange(line, 1, line.len());
        proof {
            assert(rest@ =~= line@.drop_first());
        }
        return split_words_exec(&rest);
    }
    let k = word_len_exec(line);
    proof {
        lemma_word_len_bounds(line@);
        assert(k >= 1);
    }
    let word = vec_subrange(line, 0, k);
    let rest = vec_subrange(line, k, line.len());
    let tail = split_words_exec(&rest);
    let ghost tv = Seq::new(tail@.len(), |i: int| tail@[i]@);
    let mut r = tail;
    r.insert(0, word);
    proof {
        assert(Seq::new(r@.len(), |i: int| r@[i]@) =~= seq![line@.subrange(0, k as int)] + tv);
    }
    r
}

fn all_space_exec(line: &Vec<char>) -> (r: bool)
    ensures
        r == all_space(line@),
{
    let mut k: usize = 0;
    while k < line.len()
        invariant
            k <= line@.len(),
            forall|j: int| 0 <= j < k ==> is_space(line@[j]),
        decreases line@.len() - k,
    {
        if !is_space_exec(line[k]) {
            return false;
        }
        k = k + 1;
    }
    true
}

fn emit_chunks(out: &mut Vec<char>, w: &Vec<char>, from: usize, width: usize)
    requires
        width >= 1,
        from <= w@.len(),
    ensures
        final(out)@ == old(out)@ + spec_chunks(w@.subrange(from as int, w@.len() as int), width as int),
    decreases w@.len() - from,
{
    let ghost rest = w@.subrange(from as int, w@.len() as int);
    if from == w.len() {
        proof {
            assert(out@ =~= old(out)@ + spec_chunks(rest, width as int));
        }
        return;
    }
    let remaining = w.len() - from;
    let take = if remaining < width {
        remaining
    } else {
        width
    };
    let n = w.len();
    let mut k: usize = from;
    proof {
        assert(out@ =~= old(out)@ + w@.subrange(from as int, from as int));
    }
    while k < from + take
        invariant
            n == w@.len(),
            from <= k,
            k <= from + take,
            from + take <= n,
            out@ == old(out)@ + w@.subrange(from as int, k as int),
        decreases from + take - k,
    {
        out.push(w[k]);
        k = k + 1;
        proof {
            assert(out@ =~= old(out)@ + w@.subrange(from as int, k as int));
        }
    }
    out.push('\n');
    proof {
        assert(out@ =~= old(out)@ + (w@.subrange(from as int, (from + take) as int) + seq!['\n']));
    }
    emit_chunks(out, w, from + take, width);
    proof {
        assert(rest.subrange(take as int, rest.len() as int) =~= w@.subrange(
            (from + take) as int,
            w@.len() as int,
        ));
        assert(rest.subrange(0, take as int) =~= w@.subrange(from as int, (from + take) as int));
        assert(out@ =~= old(out)@ + spec_chunks(rest, width as int));
    }
}

fn wrap_words_exec(out: &mut Vec<char>, words: &Vec<Vec<char>>, width: usize)
    requires
        width >= 1,
    ensures
        final(out)@ == old(out)@ + spec_wrap_words(
            Seq::new(words@.len(), |i: int| words@[i]@),
            Seq::empty(),
            width as int,
        ),
{
    let ghost wv = Seq::new(words@.len(), |i: int| words@[i]@);
    let mut cur: Vec<char> = Vec::new();
    let mut i: usize = 0;
    proof {
        assert(wv.subrange(0, wv.len() as int) =~= wv);
    }
    while i < words.len()
        invariant
            width >= 1,
            i <= words@.len(),
            wv == Seq::new(words@.len(), |k: int| words@[k]@),
            old(out)@ + spec_wrap_words(wv, Seq::empty(), width as int) == out@ + spec_wrap_words(
                wv.subrange(i as int, wv.len() as int),
                cur@,
                width as int,
            ),
        decreases words@.len() - i,
    {
        let ghost rest = wv.subrange(i as int, wv.len() as int);
        proof {
            assert(rest[0] == wv[i as int]);
            assert(rest.drop_first() =~= wv.subrange(i as int + 1, wv.len() as int));
        }
        let w = &words[i];
        let space: usize = if cur.len() == 0 {
            0
        } else {
            1
        };
        let fits = cur.len() <= width && space <= width - cur.len() && w.len() <= width - cur.len()
            - space;
        proof {
            assert(fits == (cur@.len() + space + w@.len() <= width));
        }
        if !fits {
            if cur.len() > 0 {
                let ghost opre = out@;
                let mut k: usize = 0;
                proof {
                    assert(out@ =~= opre + cur@.subrange(0, 0));
                }
                while k < cur.len()
                    invariant
                        k <= cur@.len(),
                        out@ == opre + cur@.subrange(0, k as int),
                    decreases cur@.len() - k,
                {
                    let c = cur[k];
                    out.push(c);
                    k = k + 1;
                    proof {
                        assert(out@ =~= opre + cur@.subrange(0, k as int));
                    }
                }
                out.push('\n');
                proof {
                    assert(cur@.subrange(0, cur@.len() as int) =~= cur@);
                    assert(out@ =~= opre + (cur@ + seq!['\n']));
                }
                cur = vec_subrange(w, 0, w.len());
                proof {
                    assert(cur@ =~= wv[i as int]);
                }
            } else {
                emit_chunks(out, w, 0, width);
                proof {
                    assert(w@.subrange(0, w@.len() as int) =~= wv[i as int]);
                }
                cur = Vec::new();
                proof {
                    assert(cur@ =~= Seq::<char>::empty());
                }
            }
        } else {
            if cur.len() == 0 {
                cur = vec_subrange(w, 0, w.len());
                proof {
                    assert(cur@ =~= wv[i as int]);
                }
            } else {
                let ghost cpre = cur@;
                cur.push(' ');
                let mut k: usize = 0;
                while k < w.len()
                    invariant
                        k <= w@.len(),
                        cur@ == cpre + seq![' '] + w@.subrange(0, k as int),
                    decreases w@.len() - k,
                {
                    cur.push(w[k]);
                    k = k + 1;
                    proof {
                        assert(cur@ =~= cpre + seq![' '] + w@.subrange(0, k as int));
                    }
                }
                proof {
                    assert(w@.subrange(0, w@.len() as int) =~= wv[i as int]);
                    assert(cur@ =~= cpre + seq![' '] + wv[i as int]);
                }
            }
        }
        i = i + 1;
    }
    proof {
        assert(wv.subrange(wv.len() as int, wv.len() as int) =~= Seq::<Seq<char>>::empty());
    }
    if cur.len() > 0 {
        let mut k: usize = 0;
        let ghost opre = out@;
        proof {
            assert(out@ =~= opre + cur@.subrange(0, 0));
        }
        while k < cur.len()
            invariant
                k <= cur@.len(),
                out@ == opre + cur@.subrange(0, k as int),
            decreases cur@.len() - k,
        {
            out.push(cur[k]);
            k = k + 1;
            proof {
                assert(out@ =~= opre + cur@.subrange(0, k as int));
            }
        }
        out.push('\n');
        proof {
            assert(cur@.subrange(0, cur@.len() as int) =~= cur@);
            assert(out@ =~= opre + (cur@ + seq!['\n']));
        }
    }
}


/// Wraps `text` to lines of at most `width` characters: lines are kept,
/// blank lines collapse to a single break, words are packed greedily, a
/// word longer than the width is hard-broken, and trailing whitespace is
/// removed. Character counts, not bytes, measure the width.
pub fn word_wrap(text: &str, width: usize) -> (r: String)
    requires
        width >= 1,
    ensures
        r@ == spec_word_wrap(text@, width as int),
{
    let chars = string_to_chars(text);
    let lines = split_lines_exec(&chars);
    let ghost lv = Seq::new(lines@.len(), |i: int| lines@[i]@);
    let mut out: Vec<char> = Vec::new();
    let mut i: usize = 0;
    proof {
        assert(lv.subrange(0, lv.len() as int) =~= lv);
        assert(Seq::<char>::empty() + spec_wrap_lines(lv, width as int) =~= spec_wrap_lines(
            lv,
            width as int,
        ));
    }
    while i < lines.len()
        invariant
            width >= 1,
            i <= lines@.len(),
            lv == Seq::new(lines@.len(), |k: int| lines@[k]@),
            spec_wrap_lines(lv, width as int) == out@ + spec_wrap_lines(
                lv.subrange(i as int, lv.len() as int),
                width as int,
            ),
        decreases lines@.len() - i,
    {
        let ghost rest = lv.subrange(i as int, lv.len() as int);
        proof {
            assert(rest[0] == lv[i as int]);
            assert(rest.drop_first() =~= lv.subrange(i as int + 1, lv.len() as int));
        }
        let ghost opre = out@;
        if all_space_exec(&lines[i]) {
            out.push('\n');
            proof {
                assert(out@ =~= opre + spec_wrap_line(lv[i as int], width as int));
            }
        } else {
            let words = split_words_exec(&lines[i]);
            wrap_words_exec(&mut out, &words, width);
            proof {
                assert(out@ =~= opre + spec_wrap_line(lv[i as int], width as int));
            }
        }
        i = i + 1;
    }
    proof {
        assert(lv.subrange(lv.len() as int, lv.len() as int) =~= Seq::<Seq<char>>::empty());
        assert(out@ =~= spec_wrap_lines(lv, width as int));
    }
    let mut m = out.len();
    while m > 0 && is_space_exec(out[m - 1])
        invariant
            m <= out@.len(),
            forall|j: int| m <= j < out@.len() ==> is_space(out@[j]),
        decreases m,
    {
        m = m - 1;
    }
    proof {
        lemma_trim_end_at(out@, m as int);
    }
    let trimmed = vec_subrange(&out, 0, m);
    chars_to_string(&trimmed)
}

} // verus!
