//! Splitting run text into whitespace-separated words.
//!
//! [`words_of`] is the mathematical definition of the split; [`split_words`]
//! is the executable version, proved to produce exactly that sequence.

use vstd::prelude::*;

verus! {

/// ASCII whitespace: space, tab, line feed, form feed, carriage return.
pub open spec fn is_space(b: u8) -> bool {
    b == 32 || b == 9 || b == 10 || b == 12 || b == 13
}

/// Executable whitespace test.
pub fn is_space_byte(b: u8) -> (r: bool)
    ensures
        r == is_space(b),
{
    b == 32 || b == 9 || b == 10 || b == 12 || b == 13
}

/// The whitespace-separated words of `s`, in order.  Whitespace bytes act as
/// separators and never appear in a word; empty words do not arise.
pub open spec fn words_of(s: Seq<u8>) -> Seq<Seq<u8>>
    decreases s.len(),
{
    if s.len() == 0 {
        Seq::empty()
    } else {
        let rest = words_of(s.drop_first());
        if is_space(s[0]) {
            rest
        } else if s.len() >= 2 && !is_space(s[1]) {
            rest.update(0, seq![s[0]] + rest[0])
        } else {
            seq![seq![s[0]]] + rest
        }
    }
}

/// Total length of a word sequence counting one separator per word.
pub open spec fn words_weight(ws: Seq<Seq<u8>>) -> int
    decreases ws.len(),
{
    if ws.len() == 0 {
        0
    } else {
        ws[0].len() + 1 + words_weight(ws.drop_first())
    }
}

/// Total number of word characters in a word sequence.
pub open spec fn word_chars(ws: Seq<Seq<u8>>) -> int
    decreases ws.len(),
{
    if ws.len() == 0 {
        0
    } else {
        ws[0].len() + word_chars(ws.drop_first())
    }
}

/// The models of a sequence of byte vectors.
pub open spec fn word_views(ws: Seq<Vec<u8>>) -> Seq<Seq<u8>> {
    ws.map_values(|w: Vec<u8>| w@)
}

/// A string that starts with a non-space byte has a first word, and it
/// starts with that byte.
pub proof fn lemma_words_pos(s: Seq<u8>)
    requires
        s.len() > 0,
        !is_space(s[0]),
    ensures
        words_of(s).len() >= 1,
        words_of(s)[0].len() >= 1,
        words_of(s)[0][0] == s[0],
    decreases s.len(),
{
    if s.len() >= 2 && !is_space(s[1]) {
        lemma_words_pos(s.drop_first());
    }
}

/// Every word is nonempty and free of whitespace bytes.
pub proof fn lemma_words_clean(s: Seq<u8>)
    ensures
        forall|k: int| 0 <= k < words_of(s).len() ==> (#[trigger] words_of(s)[k]).len() >= 1,
        forall|k: int, i: int|
            0 <= k < words_of(s).len() && 0 <= i < words_of(s)[k].len()
                ==> !is_space(#[trigger] words_of(s)[k][i]),
    decreases s.len(),
{
    if s.len() > 0 {
        lemma_words_clean(s.drop_first());
        let rest = words_of(s.drop_first());
        if is_space(s[0]) {
        } else if s.len() >= 2 && !is_space(s[1]) {
            lemma_words_pos(s.drop_first());
            let grown = seq![s[0]] + rest[0];
            assert forall|i: int| 0 <= i < grown.len() implies !is_space(grown[i]) by {
                if i > 0 {
                    assert(grown[i] == rest[0][i - 1]);
                }
            }
        }
    }
}

/// There are no more words than bytes.
pub proof fn lemma_words_count(s: Seq<u8>)
    ensures
        words_of(s).len() <= s.len(),
    decreases s.len(),
{
    if s.len() > 0 {
        lemma_words_count(s.drop_first());
        if !is_space(s[0]) && s.len() >= 2 && !is_space(s[1]) {
            lemma_words_pos(s.drop_first());
        }
    }
}

/// Words together with one separator each never outweigh the text plus one.
pub proof fn lemma_words_weight(s: Seq<u8>)
    ensures
        words_weight(words_of(s)) <= s.len() + 1,
    decreases s.len(),
{
    if s.len() == 0 {
    } else {
        let d = s.drop_first();
        lemma_words_weight(d);
        let rest = words_of(d);
        if is_space(s[0]) {
        } else if s.len() >= 2 && !is_space(s[1]) {
            lemma_words_pos(d);
            let grown = rest.update(0, seq![s[0]] + rest[0]);
            assert(grown.drop_first() =~= rest.drop_first());
            assert(words_weight(grown) == grown[0].len() + 1 + words_weight(grown.drop_first()));
            assert(words_weight(rest) == rest[0].len() + 1 + words_weight(rest.drop_first()));
        } else if s.len() >= 2 {
            assert(is_space(d[0]));
            assert(rest == words_of(d.drop_first()));
            lemma_words_weight(d.drop_first());
            let out = seq![seq![s[0]]] + rest;
            assert(out.drop_first() =~= rest);
            assert(words_weight(out) == 2 + words_weight(rest));
        } else {
            let out = seq![seq![s[0]]] + rest;
            assert(out.drop_first() =~= rest);
            assert(words_weight(out) == 2 + words_weight(rest));
        }
    }
}

/// Splitting a word followed by a separator (or the end of the text) yields
/// that word and then the words of the remainder.
pub proof fn lemma_words_split(w: Seq<u8>, t: Seq<u8>)
    requires
        w.len() >= 1,
        forall|i: int| 0 <= i < w.len() ==> !is_space(#[trigger] w[i]),
        t.len() == 0 || is_space(t[0]),
    ensures
        words_of(w + t) == seq![w] + words_of(t),
    decreases w.len(),
{
    let s = w + t;
    assert(s[0] == w[0]);
    if w.len() == 1 {
        if t.len() == 0 {
            assert(s.len() == 1);
            assert(s.drop_first() =~= Seq::<u8>::empty());
            assert(words_of(s.drop_first()) == Seq::<Seq<u8>>::empty());
            assert(words_of(t) == Seq::<Seq<u8>>::empty());
            assert(seq![s[0]] =~= w);
            assert(words_of(s) == seq![seq![s[0]]] + words_of(s.drop_first()));
            assert(words_of(s) =~= seq![w] + words_of(t));
        } else {
            assert(s.len() >= 2 && is_space(s[1]));
            assert(s.drop_first() =~= t);
            assert(seq![s[0]] =~= w);
            assert(words_of(s) == seq![seq![s[0]]] + words_of(t));
        }
    } else {
        assert(s.len() >= 2);
        assert(s[1] == w[1]);
        assert(!is_space(s[1]));
        assert(s.drop_first() =~= w.drop_first() + t);
        lemma_words_split(w.drop_first(), t);
        let rest = words_of(s.drop_first());
        assert(rest == seq![w.drop_first()] + words_of(t));
        assert(rest[0] == w.drop_first());
        assert(seq![s[0]] + rest[0] =~= w);
        assert(rest.update(0, w) =~~= seq![w] + words_of(t));
    }
}

/// Copies a byte vector.
pub fn clone_bytes(v: &Vec<u8>) -> (r: Vec<u8>)
    ensures
        r@ == v@,
{
    let mut r: Vec<u8> = Vec::new();
    let mut i: usize = 0;
    while i < v.len()
        invariant
            i <= v.len(),
            r@ =~= v@.take(i as int),
        decreases v.len() - i,
    {
        r.push(v[i]);
        i = i + 1;
    }
    assert(r@ =~= v@);
    r
}

/// Splits text into its whitespace-separated words.
pub fn split_words(text: &Vec<u8>) -> (ws: Vec<Vec<u8>>)
    ensures
        word_views(ws@) == words_of(text@),
        ws@.len() <= text@.len(),
{
    let s_len = text.len();
    let mut ws: Vec<Vec<u8>> = Vec::new();
    let mut i: usize = 0;
    proof {
        assert(text@.skip(0) =~= text@);
        assert(word_views(ws@) =~= Seq::<Seq<u8>>::empty());
        assert(word_views(ws@) + words_of(text@) =~= words_of(text@));
    }
    while i < s_len
        invariant
            i <= s_len,
            s_len == text@.len(),
            words_of(text@) == word_views(ws@) + words_of(text@.skip(i as int)),
            ws@.len() <= i,
        decreases s_len - i,
    {
        if is_space_byte(text[i]) {
            proof {
                assert(text@.skip(i as int)[0] == text@[i as int]);
                assert(text@.skip(i as int).drop_first() =~= text@.skip(i as int + 1));
            }
            i = i + 1;
        } else {
            let ghost start = i as int;
            let mut w: Vec<u8> = Vec::new();
            while i < s_len && !is_space_byte(text[i])
                invariant
                    start <= i <= s_len,
                    s_len == text@.len(),
                    start < s_len,
                    !is_space(text@[start]),
                    w@.len() == i - start,
                    forall|k: int|
                        0 <= k < w@.len() ==> #[trigger] w@[k] == text@[start + k] && !is_space(
                            w@[k],
                        ),
                decreases s_len - i,
            {
                w.push(text[i]);
                i = i + 1;
            }
            proof {
                if i as int == start {
                    assert(!is_space(text@[i as int]));
                    assert(false);
                }
                assert(w@.len() >= 1);
                assert(i as int > start);
                assert(text@.skip(start) =~= w@ + text@.skip(i as int));
                if text@.skip(i as int).len() > 0 {
                    assert(text@.skip(i as int)[0] == text@[i as int]);
                }
                lemma_words_split(w@, text@.skip(i as int));
                assert(word_views(ws@.push(w)) =~= word_views(ws@).push(w@));
                assert(word_views(ws@).push(w@) + words_of(text@.skip(i as int)) =~= word_views(
                    ws@,
                ) + (seq![w@] + words_of(text@.skip(i as int))));
            }
            ws.push(w);
        }
    }
    proof {
        assert(text@.skip(i as int) =~= Seq::<u8>::empty());
        lemma_words_count(text@);
        assert(word_views(ws@).len() == ws@.len());
    }
    ws
}

} // verus!
