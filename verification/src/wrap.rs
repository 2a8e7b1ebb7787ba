//! Greedy word wrapping of a labelled text.

use vstd::prelude::*;
use crate::text::{
    display_columns, display_width, is_word, lemma_words_append_space, lemma_words_append_word,
    lemma_words_are_words, lemma_words_of_spaces, padding, slice_texts, spaces, split_whitespace,
    texts, words_of,
};

verus! {

/// The line that results if `word` joins the line `current`: the line, one
/// space, the word. Its width decides whether the word still goes there.
pub open spec fn probe(current: Seq<char>, word: Seq<char>) -> Seq<char> {
    current + seq![' '] + word
}

/// The finished lines and the line in progress after `word` is placed.
///
/// An empty line takes the word as it is. Otherwise the word joins the line
/// behind one space if the line is then at most `max_width` columns wide
/// (`probe_width` is that width); if it would be wider, the line is
/// finished and the word opens a new one behind `indent` spaces.
pub open spec fn placed(
    lines: Seq<Seq<char>>,
    current: Seq<char>,
    word: Seq<char>,
    probe_width: nat,
    max_width: nat,
    indent: nat,
) -> (Seq<Seq<char>>, Seq<char>) {
    if current.len() == 0 {
        (lines, word)
    } else if probe_width <= max_width {
        (lines, probe(current, word))
    } else {
        (lines.push(current), spaces(indent) + word)
    }
}

/// The lines that result when `words` are placed one after the other,
/// starting from the finished `lines` and the line in progress `current`.
pub open spec fn wrap_from(
    words: Seq<Seq<char>>,
    lines: Seq<Seq<char>>,
    current: Seq<char>,
    max_width: nat,
    indent: nat,
) -> Seq<Seq<char>>
    decreases words.len(),
{
    if words.len() == 0 {
        lines.push(current)
    } else {
        let step = placed(
            lines,
            current,
            words[0],
            display_columns(probe(current, words[0])),
            max_width,
            indent,
        );
        wrap_from(words.drop_first(), step.0, step.1, max_width, indent)
    }
}

/// The lines of `text` wrapped behind the label `prefix`: the first line
/// begins with the label, every later one with `indent` spaces, and a line
/// is finished only when the next word would make it wider than
/// `max_width` columns.
pub open spec fn wrapped(text: Seq<char>, prefix: Seq<char>, max_width: nat, indent: nat) -> Seq<
    Seq<char>,
> {
    wrap_from(words_of(text), Seq::empty(), prefix, max_width, indent)
}

/// The line in progress with `word` behind it, one space between them.
pub fn probe_text(current: &str, word: &str) -> (r: String)
    ensures
        r@ == probe(current@, word@),
{
    let mut out = String::from_str(current);
    proof {
        reveal_strlit(" ");
        assert(" "@ =~= seq![' ']);
    }
    out.append(" ");
    out.append(word);
    out
}

/// Places one word, given the width that the line in progress would have
/// with the word on it: finishes the line where the word does not fit, and
/// returns the line that is in progress afterwards.
pub fn place_word(
    lines: &mut Vec<String>,
    current: String,
    word: &str,
    probe_width: usize,
    max_width: usize,
    indent_after_first: usize,
) -> (next: String)
    ensures
        (texts(final(lines)@), next@) == placed(
            texts(old(lines)@),
            current@,
            word@,
            probe_width as nat,
            max_width as nat,
            indent_after_first as nat,
        ),
{
    let mut current = current;
    if current.as_str().is_empty() {
        current.append(word);
        assert(current@ =~= word@);
        current
    } else if probe_width <= max_width {
        proof {
            reveal_strlit(" ");
            assert(" "@ =~= seq![' ']);
        }
        current.append(" ");
        current.append(word);
        current
    } else {
        let ghost before = lines@;
        lines.push(current);
        assert(texts(lines@) =~= texts(before).push(current@));
        let mut fresh = padding(indent_after_first);
        fresh.append(word);
        fresh
    }
}

/// Wraps `text` behind the label `prefix`. Words are packed greedily: a word
/// stays on the line in progress as long as the line, with a space and the
/// word behind it, is at most `max_width` columns wide. The first line
/// begins with the label, every later one with `indent_after_first` spaces.
pub fn wrap_text(text: &str, prefix: &str, max_width: usize, indent_after_first: usize) -> (lines:
    Vec<String>)
    ensures
        texts(lines@) == wrapped(
            text@,
            prefix@,
            max_width as nat,
            indent_after_first as nat,
        ),
{
    let mut lines: Vec<String> = Vec::new();
    let mut current_line = String::from_str(prefix);
    let words = split_whitespace(text);
    let ghost all = words_of(text@);
    let mut i: usize = 0;
    assert(all.skip(0) =~= all);
    assert(texts(lines@) =~= Seq::<Seq<char>>::empty());
    while i < words.len()
        invariant
            i <= words.len(),
            slice_texts(words@) == all,
            wrap_from(
                all.skip(i as int),
                texts(lines@),
                current_line@,
                max_width as nat,
                indent_after_first as nat,
            ) == wrapped(text@, prefix@, max_width as nat, indent_after_first as nat),
        decreases words.len() - i,
    {
        let word = words[i];
        assert(all.skip(i as int)[0] == word@);
        assert(all.skip(i as int).drop_first() =~= all.skip(i + 1));
        let probe_width = display_width(probe_text(current_line.as_str(), word).as_str());
        current_line =
        place_word(&mut lines, current_line, word, probe_width, max_width, indent_after_first);
        i += 1;
    }
    let ghost before = lines@;
    lines.push(current_line);
    assert(texts(lines@) =~= texts(before).push(current_line@));
    lines
}

/// The words of all lines, in reading order.
pub open spec fn line_words(lines: Seq<Seq<char>>) -> Seq<Seq<char>>
    decreases lines.len(),
{
    if lines.len() == 0 {
        Seq::empty()
    } else {
        line_words(lines.drop_last()) + words_of(lines.last())
    }
}

/// Placing a word adds it as the last word of the line in progress, whether
/// that line is the old one or a new one.
pub proof fn lemma_placed_words(
    lines: Seq<Seq<char>>,
    current: Seq<char>,
    word: Seq<char>,
    probe_width: nat,
    max_width: nat,
    indent: nat,
)
    requires
        is_word(word),
    ensures
        ({
            let step = placed(lines, current, word, probe_width, max_width, indent);
            &&& line_words(step.0) + words_of(step.1) == (line_words(lines) + words_of(
                current,
            )).push(word)
            &&& words_of(step.1) == if step.0 == lines {
                words_of(current).push(word)
            } else {
                seq![word]
            }
        }),
{
    let step = placed(lines, current, word, probe_width, max_width, indent);
    let target = (line_words(lines) + words_of(current)).push(word);
    if current.len() == 0 {
        lemma_words_append_word(current, word);
        assert(current + word =~= word);
        assert(line_words(step.0) + words_of(step.1) =~= target);
    } else if probe_width <= max_width {
        lemma_words_append_space(current);
        lemma_words_append_word(current + seq![' '], word);
        assert(line_words(step.0) + words_of(step.1) =~= target);
    } else {
        lemma_words_of_spaces(indent);
        lemma_words_append_word(spaces(indent), word);
        assert(words_of(spaces(indent)) =~= Seq::<Seq<char>>::empty());
        assert(Seq::<Seq<char>>::empty().push(word) =~= seq![word]);
        assert(step.0.drop_last() =~= lines);
        assert(step.0.len() != lines.len());
        assert(line_words(step.0) + words_of(step.1) =~= target);
    }
}

/// Wrapping from any state keeps the words that the lines hold already and
/// adds the words to place, in their order.
pub proof fn lemma_wrap_from_words(
    words: Seq<Seq<char>>,
    lines: Seq<Seq<char>>,
    current: Seq<char>,
    max_width: nat,
    indent: nat,
)
    requires
        forall|i: int| 0 <= i < words.len() ==> is_word(#[trigger] words[i]),
    ensures
        line_words(wrap_from(words, lines, current, max_width, indent)) == line_words(lines)
            + words_of(current) + words,
    decreases words.len(),
{
    if words.len() == 0 {
        assert(lines.push(current).drop_last() =~= lines);
        assert(line_words(lines) + words_of(current) + words =~= line_words(lines) + words_of(
            current,
        ));
    } else {
        let width = display_columns(probe(current, words[0]));
        let step = placed(lines, current, words[0], width, max_width, indent);
        lemma_placed_words(lines, current, words[0], width, max_width, indent);
        let rest = words.drop_first();
        assert forall|i: int| 0 <= i < rest.len() implies is_word(#[trigger] rest[i]) by {
            assert(rest[i] == words[i + 1]);
        }
        lemma_wrap_from_words(rest, step.0, step.1, max_width, indent);
        assert((line_words(lines) + words_of(current)).push(words[0]) + rest =~= line_words(lines)
            + words_of(current) + words);
    }
}

/// Wrapping loses no word, adds none and moves none: read line by line, the
/// wrapped text holds the words of the label and then the words of the text,
/// each in its place.
pub proof fn lemma_wrapped_keeps_words(
    text: Seq<char>,
    prefix: Seq<char>,
    max_width: nat,
    indent: nat,
)
    ensures
        line_words(wrapped(text, prefix, max_width, indent)) == words_of(prefix) + words_of(text),
{
    lemma_words_are_words(text);
    lemma_wrap_from_words(words_of(text), Seq::empty(), prefix, max_width, indent);
    assert(line_words(Seq::<Seq<char>>::empty()) + words_of(prefix) =~= words_of(prefix));
}

/// What holds of the line at place `i`: it begins with the label if it is
/// the first, with the indent if it is a later one; and unless it is the
/// bare label or holds at most one word, it is at most `max_width` columns
/// wide.
pub open spec fn line_in_shape(
    i: int,
    line: Seq<char>,
    prefix: Seq<char>,
    max_width: nat,
    indent: nat,
) -> bool {
    &&& if i == 0 {
        prefix.is_prefix_of(line)
    } else {
        spaces(indent).is_prefix_of(line)
    }
    &&& (line == prefix || words_of(line).len() <= 1 || display_columns(line) <= max_width)
}

/// Wrapping from a state whose lines are in shape gives lines in shape.
pub proof fn lemma_wrap_from_shape(
    words: Seq<Seq<char>>,
    lines: Seq<Seq<char>>,
    current: Seq<char>,
    prefix: Seq<char>,
    max_width: nat,
    indent: nat,
)
    requires
        forall|i: int| 0 <= i < words.len() ==> is_word(#[trigger] words[i]),
        forall|i: int|
            0 <= i < lines.len() ==> line_in_shape(i, #[trigger] lines[i], prefix, max_width, indent),
        line_in_shape(lines.len() as int, current, prefix, max_width, indent),
    ensures
        forall|i: int|
            0 <= i < wrap_from(words, lines, current, max_width, indent).len() ==> line_in_shape(
                i,
                #[trigger] wrap_from(words, lines, current, max_width, indent)[i],
                prefix,
                max_width,
                indent,
            ),
    decreases words.len(),
{
    if words.len() > 0 {
        let word = words[0];
        let width = display_columns(probe(current, word));
        let step = placed(lines, current, word, width, max_width, indent);
        let rest = words.drop_first();
        assert forall|i: int| 0 <= i < rest.len() implies is_word(#[trigger] rest[i]) by {
            assert(rest[i] == words[i + 1]);
        }
        if current.len() == 0 {
            lemma_words_append_word(current, word);
            assert(current + word =~= word);
            assert(spaces(0) =~= Seq::<char>::empty());
        } else if width > max_width {
            lemma_words_of_spaces(indent);
            lemma_words_append_word(spaces(indent), word);
        }
        lemma_wrap_from_shape(rest, step.0, step.1, prefix, max_width, indent);
        assert(wrap_from(words, lines, current, max_width, indent) == wrap_from(
            rest,
            step.0,
            step.1,
            max_width,
            indent,
        ));
    }
}

/// The shape of a wrapped text: the first line begins with the label, every
/// later one with the indent; and every line on which a word was packed
/// behind another is at most `max_width` columns wide. A line that holds a
/// single word is as wide as that word makes it, and the bare label as wide
/// as the label.
pub proof fn lemma_wrapped_shape(text: Seq<char>, prefix: Seq<char>, max_width: nat, indent: nat)
    ensures
        forall|i: int|
            0 <= i < wrapped(text, prefix, max_width, indent).len() ==> line_in_shape(
                i,
                #[trigger] wrapped(text, prefix, max_width, indent)[i],
                prefix,
                max_width,
                indent,
            ),
{
    lemma_words_are_words(text);
    lemma_wrap_from_shape(words_of(text), Seq::empty(), prefix, prefix, max_width, indent);
}

/// Whether `line` was rightly finished before `next` began: `next` holds a
/// word, and with its first word behind it `line` would have been wider
/// than `max_width` columns.
pub open spec fn finished_late(line: Seq<char>, next: Seq<char>, max_width: nat) -> bool {
    &&& words_of(next).len() > 0
    &&& display_columns(probe(line, words_of(next)[0])) > max_width
}

/// Whether every line but the last was rightly finished.
pub open spec fn breaks_late(lines: Seq<Seq<char>>, max_width: nat) -> bool {
    forall|i: int|
        0 <= i < lines.len() - 1 ==> finished_late(#[trigger] lines[i], lines[i + 1], max_width)
}

/// Wrapping from a state in which no line was finished too early finishes
/// no line too early.
pub proof fn lemma_wrap_from_breaks_late(
    words: Seq<Seq<char>>,
    lines: Seq<Seq<char>>,
    current: Seq<char>,
    max_width: nat,
    indent: nat,
)
    requires
        forall|i: int| 0 <= i < words.len() ==> is_word(#[trigger] words[i]),
        breaks_late(lines.push(current), max_width),
    ensures
        breaks_late(wrap_from(words, lines, current, max_width, indent), max_width),
    decreases words.len(),
{
    if words.len() > 0 {
        let word = words[0];
        let width = display_columns(probe(current, word));
        let step = placed(lines, current, word, width, max_width, indent);
        let rest = words.drop_first();
        let before = lines.push(current);
        let after = step.0.push(step.1);
        assert forall|i: int| 0 <= i < rest.len() implies is_word(#[trigger] rest[i]) by {
            assert(rest[i] == words[i + 1]);
        }
        lemma_placed_words(lines, current, word, width, max_width, indent);
        assert forall|i: int| 0 <= i < after.len() - 1 implies finished_late(
            #[trigger] after[i],
            after[i + 1],
            max_width,
        ) by {
            if current.len() == 0 || width <= max_width {
                assert(finished_late(before[i], before[i + 1], max_width));
                assert(after[i] == before[i]);
                if i + 1 < lines.len() {
                    assert(after[i + 1] == before[i + 1]);
                } else {
                    assert(before[i + 1] == current);
                    assert(after[i + 1] == step.1);
                    assert(words_of(step.1)[0] == words_of(current)[0]);
                }
            } else {
                if i < lines.len() {
                    assert(finished_late(before[i], before[i + 1], max_width));
                    assert(after[i] == before[i]);
                    assert(after[i + 1] == before[i + 1]);
                } else {
                    assert(after[i] == current);
                    assert(after[i + 1] == step.1);
                }
            }
        }
        lemma_wrap_from_breaks_late(rest, step.0, step.1, max_width, indent);
        assert(wrap_from(words, lines, current, max_width, indent) == wrap_from(
            rest,
            step.0,
            step.1,
            max_width,
            indent,
        ));
    }
}

/// Wrapping is greedy: a line is finished only where the next word, which
/// then opens the following line, would have made it wider than
/// `max_width` columns.
pub proof fn lemma_wrapped_breaks_late(
    text: Seq<char>,
    prefix: Seq<char>,
    max_width: nat,
    indent: nat,
)
    ensures
        breaks_late(wrapped(text, prefix, max_width, indent), max_width),
{
    lemma_words_are_words(text);
    lemma_wrap_from_breaks_late(words_of(text), Seq::empty(), prefix, max_width, indent);
}

} // verus!
