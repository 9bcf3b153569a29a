//! Greedy line wrapping by a character budget.
//!
//! Words are accumulated into a line buffer, each followed by one space.
//! When appending the next word would make the buffer reach or exceed the
//! budget, the buffer is flushed as one line and the word starts a new
//! buffer.  A single word at least as long as the budget is placed on a line
//! of its own, without splitting.

use vstd::prelude::*;
use crate::text::{is_space, word_chars, word_views, words_of, words_weight, lemma_words_clean,
    lemma_words_weight};

verus! {

/// The lines produced by wrapping the words `ws` with a partially filled
/// line buffer `buf` (each buffered word already carries its trailing
/// space).  A word is appended when the buffer is empty or stays strictly
/// under `wmax`; otherwise the buffer is flushed as one line.
pub open spec fn wrap_from(ws: Seq<Seq<u8>>, buf: Seq<u8>, wmax: int) -> Seq<Seq<u8>>
    decreases ws.len(),
{
    if ws.len() == 0 {
        if buf.len() == 0 {
            Seq::empty()
        } else {
            seq![buf]
        }
    } else if buf.len() == 0 || buf.len() + ws[0].len() < wmax {
        wrap_from(ws.drop_first(), buf + ws[0] + seq![32u8], wmax)
    } else {
        seq![buf] + wrap_from(ws.drop_first(), ws[0] + seq![32u8], wmax)
    }
}

/// The lines produced by wrapping the words `ws` under the budget `wmax`.
pub open spec fn wrap_lines(ws: Seq<Seq<u8>>, wmax: int) -> Seq<Seq<u8>> {
    wrap_from(ws, Seq::empty(), wmax)
}

/// A line consisting of a single word followed by its separating space.
pub open spec fn single_word_line(line: Seq<u8>) -> bool {
    &&& line.len() >= 2
    &&& line[line.len() - 1] == 32
    &&& forall|i: int| 0 <= i < line.len() - 1 ==> !is_space(#[trigger] line[i])
}

/// What every emitted line looks like: nonempty, ending in one space, and
/// within the budget unless it is a single over-long word on its own line.
pub open spec fn line_ok(line: Seq<u8>, wmax: int) -> bool {
    &&& line.len() >= 1
    &&& line[line.len() - 1] == 32
    &&& (line.len() <= wmax || single_word_line(line))
}

/// Appends a word and one separating space to the line buffer.
fn push_word(buf: &mut Vec<u8>, w: &Vec<u8>)
    ensures
        final(buf)@ == old(buf)@ + w@ + seq![32u8],
{
    let mut k: usize = 0;
    while k < w.len()
        invariant
            k <= w.len(),
            buf@ =~= old(buf)@ + w@.take(k as int),
        decreases w.len() - k,
    {
        buf.push(w[k]);
        k = k + 1;
    }
    buf.push(32u8);
    proof {
        assert(buf@ =~= old(buf)@ + w@ + seq![32u8]);
    }
}

/// Wraps words into lines under the budget `wmax`, greedily.
pub fn wrap_words(words: &Vec<Vec<u8>>, wmax: usize) -> (lines: Vec<Vec<u8>>)
    ensures
        word_views(lines@) == wrap_lines(word_views(words@), wmax as int),
        lines@.len() <= words@.len(),
{
    let n = words.len();
    let mut lines: Vec<Vec<u8>> = Vec::new();
    let mut buf: Vec<u8> = Vec::new();
    let mut i: usize = 0;
    proof {
        assert(word_views(words@).skip(0) =~= word_views(words@));
        assert(word_views(lines@) =~= Seq::<Seq<u8>>::empty());
        assert(word_views(lines@) + wrap_from(word_views(words@), buf@, wmax as int) =~= wrap_from(
            word_views(words@),
            buf@,
            wmax as int,
        ));
    }
    while i < n
        invariant
            i <= n,
            n == words@.len(),
            wrap_lines(word_views(words@), wmax as int) == word_views(lines@) + wrap_from(
                word_views(words@).skip(i as int),
                buf@,
                wmax as int,
            ),
            lines@.len() + (if buf@.len() > 0 { 1int } else { 0int }) <= i,
        decreases n - i,
    {
        let w = &words[i];
        proof {
            assert(word_views(words@)[i as int] == words@[i as int]@);
            assert(word_views(words@).skip(i as int)[0] == word_views(words@)[i as int]);
            assert(word_views(words@).skip(i as int).drop_first() =~= word_views(words@).skip(
                i as int + 1,
            ));
        }
        if buf.len() != 0 && (buf.len() >= wmax || w.len() >= wmax - buf.len()) {
            proof {
                assert(buf@.len() + w@.len() >= wmax as int);
                assert(word_views(lines@.push(buf)) =~= word_views(lines@).push(buf@));
                assert(word_views(lines@).push(buf@) + wrap_from(
                    word_views(words@).skip(i as int + 1),
                    w@ + seq![32u8],
                    wmax as int,
                ) =~= word_views(lines@) + (seq![buf@] + wrap_from(
                    word_views(words@).skip(i as int + 1),
                    w@ + seq![32u8],
                    wmax as int,
                )));
            }
            lines.push(buf);
            buf = Vec::new();
            push_word(&mut buf, w);
            proof {
                assert(buf@ =~= w@ + seq![32u8]);
            }
        } else {
            push_word(&mut buf, w);
        }
        i = i + 1;
    }
    proof {
        assert(word_views(words@).skip(i as int) =~= Seq::<Seq<u8>>::empty());
    }
    if buf.len() != 0 {
        proof {
            assert(word_views(lines@.push(buf)) =~= word_views(lines@).push(buf@));
            assert(word_views(lines@).push(buf@) =~= word_views(lines@) + seq![buf@]);
        }
        lines.push(buf);
    } else {
        proof {
            assert(word_views(lines@) + Seq::<Seq<u8>>::empty() =~= word_views(lines@));
        }
    }
    lines
}

/// The weight of a word sequence is never negative.
proof fn lemma_weight_nonneg(ws: Seq<Seq<u8>>)
    ensures
        words_weight(ws) >= 0,
    decreases ws.len(),
{
    if ws.len() > 0 {
        lemma_weight_nonneg(ws.drop_first());
    }
}

/// If the buffer and all remaining words together stay within the budget,
/// wrapping never flushes early and produces exactly one line.
proof fn lemma_wrap_no_flush(ws: Seq<Seq<u8>>, buf: Seq<u8>, wmax: int)
    requires
        buf.len() >= 1,
        buf.len() + words_weight(ws) <= wmax,
    ensures
        wrap_from(ws, buf, wmax).len() == 1,
    decreases ws.len(),
{
    if ws.len() > 0 {
        lemma_weight_nonneg(ws.drop_first());
        assert(buf.len() + ws[0].len() < wmax);
        lemma_wrap_no_flush(ws.drop_first(), buf + ws[0] + seq![32u8], wmax);
    }
}

/// Text shorter than the budget wraps to exactly one line (provided it has
/// at least one word at all; whitespace-only text produces no line).
pub proof fn lemma_short_text_single_line(text: Seq<u8>, wmax: int)
    requires
        words_of(text).len() >= 1,
        text.len() < wmax,
    ensures
        wrap_lines(words_of(text), wmax).len() == 1,
{
    let ws = words_of(text);
    lemma_words_weight(text);
    lemma_weight_nonneg(ws.drop_first());
    assert(words_weight(ws) == ws[0].len() + 1 + words_weight(ws.drop_first()));
    assert(Seq::<u8>::empty().len() == 0);
    assert(wrap_lines(ws, wmax) == wrap_from(ws.drop_first(), Seq::<u8>::empty() + ws[0] + seq![
        32u8,
    ], wmax));
    assert((Seq::<u8>::empty() + ws[0] + seq![32u8]).len() == ws[0].len() + 1);
    lemma_wrap_no_flush(ws.drop_first(), Seq::<u8>::empty() + ws[0] + seq![32u8], wmax);
}

/// Helper for the line-count floor, generalized over the buffer.
proof fn lemma_wrap_count_from(ws: Seq<Seq<u8>>, buf: Seq<u8>, wmax: int)
    requires
        wmax >= 1,
        buf.len() <= wmax,
        forall|k: int| 0 <= k < ws.len() ==> (#[trigger] ws[k]).len() < wmax,
    ensures
        wrap_from(ws, buf, wmax).len() * wmax >= word_chars(ws) + buf.len(),
    decreases ws.len(),
{
    if ws.len() == 0 {
        if buf.len() > 0 {
            assert(wrap_from(ws, buf, wmax).len() == 1);
        }
    } else {
        let w0 = ws[0];
        assert(ws.drop_first().len() == ws.len() - 1);
        assert(forall|k: int|
            0 <= k < ws.drop_first().len() ==> (#[trigger] ws.drop_first()[k]).len() < wmax);
        assert(word_chars(ws) == w0.len() + word_chars(ws.drop_first()));
        if buf.len() == 0 || buf.len() + w0.len() < wmax {
            let nbuf = buf + w0 + seq![32u8];
            assert(nbuf.len() == buf.len() + w0.len() + 1);
            lemma_wrap_count_from(ws.drop_first(), nbuf, wmax);
        } else {
            let nbuf = w0 + seq![32u8];
            assert(nbuf.len() == w0.len() + 1);
            lemma_wrap_count_from(ws.drop_first(), nbuf, wmax);
            let l2 = wrap_from(ws.drop_first(), nbuf, wmax).len();
            assert(wrap_from(ws, buf, wmax).len() == 1 + l2);
            assert((1 + l2) * wmax == wmax + l2 * wmax) by (nonlinear_arith);
        }
    }
}

/// The line-count floor: wrapping emits at least `ceil(total_word_chars /
/// wmax)` lines, stated multiplicatively.  Words at least as long as the
/// budget each occupy an arbitrarily long line of their own, so they are
/// excluded here.
pub proof fn lemma_line_count_floor(text: Seq<u8>, wmax: int)
    requires
        wmax >= 1,
        forall|k: int| 0 <= k < words_of(text).len() ==> (#[trigger] words_of(text)[k]).len()
            < wmax,
    ensures
        wrap_lines(words_of(text), wmax).len() * wmax >= word_chars(words_of(text)),
{
    lemma_wrap_count_from(words_of(text), Seq::empty(), wmax);
}

/// Helper for line shapes, generalized over the buffer.
proof fn lemma_wrap_shapes_from(ws: Seq<Seq<u8>>, buf: Seq<u8>, wmax: int)
    requires
        forall|k: int| 0 <= k < ws.len() ==> (#[trigger] ws[k]).len() >= 1,
        forall|k: int, j: int|
            0 <= k < ws.len() && 0 <= j < ws[k].len() ==> !is_space(#[trigger] ws[k][j]),
        buf.len() == 0 || line_ok(buf, wmax),
    ensures
        forall|k: int| 0 <= k < wrap_from(ws, buf, wmax).len() ==> line_ok(
            #[trigger] wrap_from(ws, buf, wmax)[k],
            wmax,
        ),
    decreases ws.len(),
{
    if ws.len() == 0 {
        if buf.len() > 0 {
            assert(wrap_from(ws, buf, wmax) =~= seq![buf]);
            assert(wrap_from(ws, buf, wmax)[0] == buf);
        }
    } else {
        let w0 = ws[0];
        assert(forall|j: int| 0 <= j < w0.len() ==> !is_space(#[trigger] w0[j]));
        let single = w0 + seq![32u8];
        assert(single.len() == w0.len() + 1);
        assert(single[single.len() - 1] == 32);
        assert(forall|j: int| 0 <= j < single.len() - 1 ==> !is_space(#[trigger] single[j]));
        assert(single_word_line(single));
        assert(forall|k: int|
            0 <= k < ws.drop_first().len() ==> (#[trigger] ws.drop_first()[k]).len() >= 1);
        assert(forall|k: int, j: int|
            0 <= k < ws.drop_first().len() && 0 <= j < ws.drop_first()[k].len() ==> !is_space(
                #[trigger] ws.drop_first()[k][j],
            ));
        if buf.len() == 0 {
            assert(buf + w0 + seq![32u8] =~= single);
            lemma_wrap_shapes_from(ws.drop_first(), single, wmax);
            assert(wrap_from(ws, buf, wmax) == wrap_from(ws.drop_first(), single, wmax));
        } else if buf.len() + w0.len() < wmax {
            let nbuf = buf + w0 + seq![32u8];
            assert(nbuf.len() <= wmax);
            assert(nbuf[nbuf.len() - 1] == 32);
            assert(line_ok(nbuf, wmax));
            lemma_wrap_shapes_from(ws.drop_first(), nbuf, wmax);
            assert(wrap_from(ws, buf, wmax) == wrap_from(ws.drop_first(), nbuf, wmax));
        } else {
            lemma_wrap_shapes_from(ws.drop_first(), single, wmax);
            let rest = wrap_from(ws.drop_first(), single, wmax);
            let out = wrap_from(ws, buf, wmax);
            assert(out == seq![buf] + rest);
            assert forall|k: int| 0 <= k < out.len() implies line_ok(out[k], wmax) by {
                if k == 0 {
                    assert(out[0] == buf);
                } else {
                    assert(out[k] == rest[k - 1]);
                    assert(line_ok(rest[k - 1], wmax));
                }
            }
        }
    }
}

/// Every emitted line is nonempty, ends in exactly one separating space, and
/// stays within the budget unless it is a single over-long word, which
/// occupies a line of its own regardless of its length.
pub proof fn lemma_line_shapes(text: Seq<u8>, wmax: int)
    ensures
        forall|k: int| 0 <= k < wrap_lines(words_of(text), wmax).len() ==> line_ok(
            #[trigger] wrap_lines(words_of(text), wmax)[k],
            wmax,
        ),
{
    lemma_words_clean(text);
    lemma_wrap_shapes_from(words_of(text), Seq::empty(), wmax);
}

} // verus!
