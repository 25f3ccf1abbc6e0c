//! White space and words in text.

use vstd::prelude::*;

use crate::text::chars_of;
use crate::text::texts;

verus! {

/// A white-space character of Unicode.
pub open spec fn is_white(c: char) -> bool {
    ||| '\u{9}' <= c <= '\u{d}'
    ||| c == ' '
    ||| c == '\u{85}'
    ||| c == '\u{a0}'
    ||| c == '\u{1680}'
    ||| '\u{2000}' <= c <= '\u{200a}'
    ||| c == '\u{2028}'
    ||| c == '\u{2029}'
    ||| c == '\u{202f}'
    ||| c == '\u{205f}'
    ||| c == '\u{3000}'
}

/// Whether a character is white space.
pub fn is_white_space(c: char) -> (yes: bool)
    ensures
        yes == is_white(c),
{
    ('\u{9}' <= c && c <= '\u{d}') || c == ' ' || c == '\u{85}' || c == '\u{a0}' || c == '\u{1680}'
        || ('\u{2000}' <= c && c <= '\u{200a}') || c == '\u{2028}' || c == '\u{2029}' || c
        == '\u{202f}' || c == '\u{205f}' || c == '\u{3000}'
}

/// The words of a text: a character that is no white space begins a word at the start of the text
/// and after white space, and continues the last word elsewhere.
pub open spec fn words_of(s: Seq<char>) -> Seq<Seq<char>>
    decreases s.len(),
{
    if s.len() == 0 {
        Seq::empty()
    } else {
        let words = words_of(s.drop_last());
        if is_white(s.last()) {
            words
        } else if s.len() == 1 || is_white(s[s.len() - 2]) {
            words.push(seq![s.last()])
        } else {
            words.drop_last().push(words.last().push(s.last()))
        }
    }
}

/// The text without white space at its start.
pub open spec fn trimmed_start(s: Seq<char>) -> Seq<char>
    decreases s.len(),
{
    if s.len() > 0 && is_white(s.first()) {
        trimmed_start(s.drop_first())
    } else {
        s
    }
}

/// The text without white space at its end.
pub open spec fn trimmed_end(s: Seq<char>) -> Seq<char>
    decreases s.len(),
{
    if s.len() > 0 && is_white(s.last()) {
        trimmed_end(s.drop_last())
    } else {
        s
    }
}

/// The text without white space at either end.
pub open spec fn trimmed(s: Seq<char>) -> Seq<char> {
    trimmed_end(trimmed_start(s))
}

/// A text that ends within a word has a last word.
proof fn lemma_open_word(s: Seq<char>)
    requires
        s.len() > 0,
        !is_white(s.last()),
    ensures
        words_of(s).len() > 0,
{
}

/// Cuts a command line into its words, the program and its arguments.
pub fn command_words(cmd: &str) -> (words: Vec<String>)
    ensures
        texts(words@) == words_of(cmd@),
{
    let chars: Vec<char> = chars_of(cmd);
    let mut words: Vec<String> = Vec::new();
    let mut open: bool = false;
    let mut start: usize = 0;
    assert(texts(words@) =~= words_of(cmd@.take(0)));
    for i in 0..chars.len()
        invariant
            chars@ == cmd@,
            open == (i > 0 && !is_white(cmd@[i - 1])),
            open ==> start < i && words_of(cmd@.take(i as int)) == texts(words@).push(
                cmd@.subrange(start as int, i as int),
            ),
            !open ==> words_of(cmd@.take(i as int)) == texts(words@),
    {
        let ghost before = cmd@.take(i as int);
        let ghost now = cmd@.take(i + 1);
        assert(now.drop_last() =~= before);
        assert(now.last() == cmd@[i as int]);
        if is_white_space(chars[i]) {
            if open {
                let ghost earlier = texts(words@);
                words.push(cmd.substring_char(start, i).to_string());
                assert(texts(words@) =~= earlier.push(cmd@.subrange(start as int, i as int)));
                open = false;
            }
        } else {
            if !open {
                start = i;
                assert(cmd@.subrange(i as int, i + 1) =~= seq![cmd@[i as int]]);
                open = true;
            } else {
                let ghost word = cmd@.subrange(start as int, i as int);
                assert(texts(words@).push(word).drop_last() =~= texts(words@));
                assert(word.push(cmd@[i as int]) =~= cmd@.subrange(start as int, i + 1));
            }
        }
    }
    assert(cmd@.take(cmd@.len() as int) =~= cmd@);
    if open {
        let ghost earlier = texts(words@);
        words.push(cmd.substring_char(start, chars.len()).to_string());
        assert(texts(words@) =~= earlier.push(cmd@.subrange(start as int, cmd@.len() as int)));
    }
    words
}

/// Takes the white space at both ends of a text away.
pub fn trim(s: &str) -> (inner: String)
    ensures
        inner@ == trimmed(s@),
{
    let chars: Vec<char> = chars_of(s);
    let mut from: usize = 0;
    assert(s@.skip(0) =~= s@);
    while from < chars.len() && is_white_space(chars[from])
        invariant
            chars@ == s@,
            from <= s@.len(),
            trimmed_start(s@) == trimmed_start(s@.skip(from as int)),
        decreases s@.len() - from,
    {
        assert(s@.skip(from as int).drop_first() =~= s@.skip(from + 1));
        from = from + 1;
    }
    assert(trimmed_start(s@) == s@.skip(from as int));
    let mut to: usize = chars.len();
    assert(s@.subrange(from as int, to as int) =~= s@.skip(from as int));
    while to > from && is_white_space(chars[to - 1])
        invariant
            chars@ == s@,
            from <= to <= s@.len(),
            trimmed(s@) == trimmed_end(s@.subrange(from as int, to as int)),
        decreases to,
    {
        assert(s@.subrange(from as int, to as int).drop_last() =~= s@.subrange(
            from as int,
            to - 1,
        ));
        to = to - 1;
    }
    s.substring_char(from, to).to_string()
}

/// All of some texts in a row.
pub open spec fn joined(words: Seq<Seq<char>>) -> Seq<char>
    decreases words.len(),
{
    if words.len() == 0 {
        Seq::empty()
    } else {
        joined(words.drop_last()) + words.last()
    }
}

/// No word is empty or holds white space, and the words in a row are the text without its white
/// space.
pub proof fn law_words_leave_out_white_space(s: Seq<char>)
    ensures
        forall|i: int| 0 <= i < words_of(s).len() ==> (#[trigger] words_of(s)[i]).len() > 0,
        forall|i: int, j: int|
            0 <= i < words_of(s).len() && 0 <= j < words_of(s)[i].len() ==> !is_white(
                #[trigger] words_of(s)[i][j],
            ),
        joined(words_of(s)) == s.filter(|c: char| !is_white(c)),
    decreases s.len(),
{
    reveal_with_fuel(Seq::filter, 2);
    if s.len() > 0 {
        let rest = s.drop_last();
        let words = words_of(rest);
        law_words_leave_out_white_space(rest);
        if !is_white(s.last()) {
            if s.len() == 1 || is_white(s[s.len() - 2]) {
                assert(words.push(seq![s.last()]).drop_last() =~= words);
                assert(joined(words) + seq![s.last()] =~= joined(words).push(s.last()));
            } else {
                lemma_open_word(rest);
                let last = words.last().push(s.last());
                assert(words.drop_last().push(last).drop_last() =~= words.drop_last());
                assert(joined(words.drop_last()) + last =~= joined(words).push(s.last()));
                assert forall|i: int, j: int|
                    0 <= i < words_of(s).len() && 0 <= j < words_of(s)[i].len() implies !is_white(
                    #[trigger] words_of(s)[i][j],
                ) by {
                    if i == words.len() - 1 {
                        if j < words.last().len() {
                            assert(words[i][j] == last[j]);
                        }
                    } else {
                        assert(words[i][j] == words_of(s)[i][j]);
                    }
                }
            }
        }
    }
}

/// A trimmed text is empty or begins and ends with something else than white space.
pub proof fn law_trimmed_texts_are_bare(s: Seq<char>)
    ensures
        trimmed(s).len() > 0 ==> !is_white(trimmed(s).first()) && !is_white(trimmed(s).last()),
        trimmed(trimmed(s)) == trimmed(s),
{
    lemma_trimmed_start(s);
    lemma_trimmed_end(trimmed_start(s));
}

proof fn lemma_trimmed_start(s: Seq<char>)
    ensures
        trimmed_start(s).len() > 0 ==> !is_white(trimmed_start(s).first()),
    decreases s.len(),
{
    if s.len() > 0 && is_white(s.first()) {
        lemma_trimmed_start(s.drop_first());
    }
}

proof fn lemma_trimmed_end(s: Seq<char>)
    ensures
        trimmed_end(s).len() > 0 ==> !is_white(trimmed_end(s).last()) && trimmed_end(s).first()
            == s.first(),
    decreases s.len(),
{
    if s.len() > 0 && is_white(s.last()) {
        lemma_trimmed_end(s.drop_last());
    }
}

/// Words end at white space and nowhere else: the words of two texts with white space between them
/// are those of the one and those of the other; a text without white space is one word; and an
/// empty text has none.
pub proof fn law_words_end_at_white_space(a: Seq<char>, white: char, b: Seq<char>)
    requires
        is_white(white),
    ensures
        words_of(a.push(white) + b) == words_of(a) + words_of(b),
        words_of(Seq::empty()) == Seq::<Seq<char>>::empty(),
        b.len() > 0 && (forall|i: int| 0 <= i < b.len() ==> !is_white(#[trigger] b[i])) ==> words_of(
            b,
        ) == seq![b],
    decreases b.len(),
{
    let s = a.push(white) + b;
    if b.len() == 0 {
        assert(s =~= a.push(white));
        assert(a.push(white).drop_last() =~= a);
        assert(words_of(a) + words_of(b) =~= words_of(a));
    } else {
        let rest = b.drop_last();
        law_words_end_at_white_space(a, white, rest);
        assert(s.drop_last() =~= a.push(white) + rest);
        assert(s.last() == b.last());
        let (x, y) = (words_of(a), words_of(rest));
        if !is_white(b.last()) {
            if b.len() == 1 {
                assert(s[s.len() - 2] == white);
                assert((x + y).push(seq![b.last()]) =~= x + y.push(seq![b.last()]));
                assert(seq![b.last()] =~= b);
                assert(words_of(b) =~= seq![b]);
            } else {
                assert(s[s.len() - 2] == b[b.len() - 2]);
                if is_white(b[b.len() - 2]) {
                    assert((x + y).push(seq![b.last()]) =~= x + y.push(seq![b.last()]));
                } else {
                    lemma_open_word(rest);
                    let last = y.last().push(b.last());
                    assert((x + y).last() == y.last());
                    assert((x + y).drop_last().push(last) =~= x + y.drop_last().push(last));
                    if forall|i: int| 0 <= i < b.len() ==> !is_white(#[trigger] b[i]) {
                        assert forall|i: int| 0 <= i < rest.len() implies !is_white(
                            #[trigger] rest[i],
                        ) by {
                            assert(!is_white(b[i]));
                        }
                        assert(rest.push(b.last()) =~= b);
                        assert(words_of(b) =~= seq![b]);
                    }
                }
            }
        } else {
            assert(is_white(b[b.len() - 1]));
        }
    }
}

/// Trimming takes away white space at the ends, all of it and nothing else.
pub proof fn law_trimming_takes_the_ends(before: Seq<char>, inner: Seq<char>, after: Seq<char>)
    requires
        forall|i: int| 0 <= i < before.len() ==> is_white(#[trigger] before[i]),
        forall|i: int| 0 <= i < after.len() ==> is_white(#[trigger] after[i]),
        inner.len() > 0 ==> !is_white(inner.first()) && !is_white(inner.last()),
    ensures
        trimmed(before + inner + after) == inner,
{
    if inner.len() > 0 {
        lemma_trims_start(before, inner + after);
        assert(before + inner + after =~= before + (inner + after));
        assert((inner + after).first() == inner.first());
        lemma_trims_end(inner, after);
    } else {
        let s = before + inner + after;
        assert forall|i: int| 0 <= i < s.len() implies is_white(#[trigger] s[i]) by {
            if i < before.len() {
                assert(s[i] == before[i]);
            } else {
                assert(s[i] == after[i - before.len()]);
            }
        }
        lemma_trims_start(s, Seq::empty());
        assert(s + Seq::<char>::empty() =~= s);
        assert(inner =~= Seq::empty());
    }
}

proof fn lemma_trims_start(white: Seq<char>, s: Seq<char>)
    requires
        forall|i: int| 0 <= i < white.len() ==> is_white(#[trigger] white[i]),
    ensures
        trimmed_start(white + s) == trimmed_start(s),
    decreases white.len(),
{
    if white.len() > 0 {
        assert(is_white(white[0]));
        assert((white + s).drop_first() =~= white.drop_first() + s);
        assert forall|i: int| 0 <= i < white.drop_first().len() implies is_white(
            #[trigger] white.drop_first()[i],
        ) by {
            assert(is_white(white[i + 1]));
        }
        lemma_trims_start(white.drop_first(), s);
    } else {
        assert(white + s =~= s);
    }
}

proof fn lemma_trims_end(s: Seq<char>, white: Seq<char>)
    requires
        forall|i: int| 0 <= i < white.len() ==> is_white(#[trigger] white[i]),
    ensures
        trimmed_end(s + white) == trimmed_end(s),
    decreases white.len(),
{
    if white.len() > 0 {
        assert(is_white(white[white.len() - 1]));
        assert((s + white).drop_last() =~= s + white.drop_last());
        lemma_trims_end(s, white.drop_last());
    } else {
        assert(s + white =~= s);
    }
}

} // verus!
