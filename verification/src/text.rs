//! Character-level building blocks: white space, words, joining, padding,
//! and the few text operations whose results come from outside this crate.

use vstd::prelude::*;

verus! {

/// The characters that separate words: the code points that Unicode marks
/// as `White_Space`.
pub open spec fn is_white_space(c: char) -> bool {
    ||| '\u{9}' <= c <= '\u{D}'
    ||| c == ' '
    ||| c == '\u{85}'
    ||| c == '\u{A0}'
    ||| c == '\u{1680}'
    ||| '\u{2000}' <= c <= '\u{200A}'
    ||| c == '\u{2028}'
    ||| c == '\u{2029}'
    ||| c == '\u{202F}'
    ||| c == '\u{205F}'
    ||| c == '\u{3000}'
}

/// A word is a non-empty run of characters none of which is white space.
pub open spec fn is_word(w: Seq<char>) -> bool {
    &&& w.len() > 0
    &&& forall|i: int| 0 <= i < w.len() ==> !is_white_space(#[trigger] w[i])
}

/// The words of `s`: its maximal runs of characters that are not white space,
/// in the order in which they occur.
pub open spec fn words_of(s: Seq<char>) -> Seq<Seq<char>>
    decreases s.len(),
{
    if s.len() == 0 {
        Seq::empty()
    } else {
        let before = words_of(s.drop_last());
        if is_white_space(s.last()) {
            before
        } else if s.len() >= 2 && !is_white_space(s[s.len() - 2]) {
            before.drop_last().push(before.last().push(s.last()))
        } else {
            before.push(seq![s.last()])
        }
    }
}

/// `n` space characters.
pub open spec fn spaces(n: nat) -> Seq<char> {
    Seq::new(n, |i: int| ' ')
}

/// `unit` written `n` times in a row.
pub open spec fn repeated(unit: Seq<char>, n: nat) -> Seq<char>
    decreases n,
{
    if n == 0 {
        Seq::empty()
    } else {
        repeated(unit, (n - 1) as nat) + unit
    }
}

/// The words joined into one text, with a single space between neighbours.
pub open spec fn join_words(words: Seq<Seq<char>>) -> Seq<char>
    decreases words.len(),
{
    if words.len() == 0 {
        Seq::empty()
    } else if words.len() == 1 {
        words[0]
    } else {
        join_words(words.drop_last()) + seq![' '] + words.last()
    }
}

/// The character sequences of a list of owned strings.
pub open spec fn texts(v: Seq<String>) -> Seq<Seq<char>> {
    Seq::new(v.len(), |i: int| v[i]@)
}

/// The character sequences of a list of string slices.
pub open spec fn slice_texts(v: Seq<&str>) -> Seq<Seq<char>> {
    Seq::new(v.len(), |i: int| v[i]@)
}

/// Whether `c` separates words.
pub fn char_is_white_space(c: char) -> (r: bool)
    ensures
        r == is_white_space(c),
{
    ('\u{9}' <= c && c <= '\u{D}') || c == ' ' || c == '\u{85}' || c == '\u{A0}' || c == '\u{1680}'
        || ('\u{2000}' <= c && c <= '\u{200A}') || c == '\u{2028}' || c == '\u{2029}' || c
        == '\u{202F}' || c == '\u{205F}' || c == '\u{3000}'
}

/// The characters of `s`, one by one.
pub fn chars_of(s: &str) -> (r: Vec<char>)
    ensures
        r@ == s@,
{
    let mut out: Vec<char> = Vec::new();
    for c in it: s.chars()
        invariant
            out@ == it.seq().take(it.index@),
    {
        out.push(c);
    }
    out
}

/// Splits `s` into its words, each a slice of `s`.
pub fn split_whitespace<'a>(s: &'a str) -> (words: Vec<&'a str>)
    ensures
        slice_texts(words@) == words_of(s@),
{
    let cs = chars_of(s);
    let n = cs.len();
    let mut out: Vec<&'a str> = Vec::new();
    let mut start: usize = 0;
    let mut in_word = false;
    let mut i: usize = 0;
    assert(s@.take(0) =~= Seq::<char>::empty());
    assert(slice_texts(out@) =~= Seq::<Seq<char>>::empty());
    while i < n
        invariant
            i <= n,
            n == s@.len(),
            cs@ == s@,
            in_word ==> start < i && !is_white_space(s@[i - 1]) && slice_texts(out@).push(
                s@.subrange(start as int, i as int),
            ) == words_of(s@.take(i as int)),
            !in_word ==> slice_texts(out@) == words_of(s@.take(i as int)) && (i == 0
                || is_white_space(s@[i - 1])),
        decreases n - i,
    {
        let c = cs[i];
        let ghost upto = s@.take(i as int);
        let ghost next = s@.take(i + 1);
        assert(next.drop_last() =~= upto);
        assert(next.last() == c);
        assert(i >= 1 ==> next[next.len() - 2] == s@[i - 1]);
        if char_is_white_space(c) {
            if in_word {
                let word = s.substring_char(start, i);
                let ghost prev = out@;
                out.push(word);
                assert(slice_texts(out@) =~= slice_texts(prev).push(word@));
                in_word = false;
            }
        } else {
            if in_word {
                let ghost run = s@.subrange(start as int, i as int);
                assert(run.push(c) =~= s@.subrange(start as int, i + 1));
                assert(slice_texts(out@).push(run).drop_last() =~= slice_texts(out@));
            } else {
                start = i;
                in_word = true;
                assert(seq![c] =~= s@.subrange(i as int, i + 1));
            }
        }
        i += 1;
    }
    assert(s@.take(n as int) =~= s@);
    if in_word {
        let word = s.substring_char(start, n);
        let ghost prev = out@;
        out.push(word);
        assert(slice_texts(out@) =~= slice_texts(prev).push(word@));
    }
    out
}

/// What `str::to_lowercase` makes of a text: its lower-case form.
pub uninterp spec fn lowercase_of(text: Seq<char>) -> Seq<char>;

/// The number of terminal columns that a text takes, as
/// `unicode_width::UnicodeWidthStr::width` counts them.
pub uninterp spec fn display_columns(text: Seq<char>) -> nat;

/// Calls `str::to_lowercase`. Its result depends on the characters of `s`
/// alone; the contract gives that result its name and claims nothing more.
#[verifier::external_body]
pub(crate) fn to_lowercase(s: &str) -> (r: String)
    ensures
        r@ == lowercase_of(s@),
{
    s.to_lowercase()
}

/// Calls `unicode_width::UnicodeWidthStr::width` on `s`. The width is
/// computed from the characters of `s` alone, by table lookups that cannot
/// fail; the contract gives it its name and claims nothing more.
#[verifier::external_body]
pub(crate) fn display_width(s: &str) -> (r: usize)
    ensures
        r == display_columns(s@),
{
    unicode_width::UnicodeWidthStr::width(s)
}

/// Calls `str::starts_with` with a string pattern: whether the characters of
/// `pattern` are the first characters of `s`.
#[verifier::external_body]
pub(crate) fn starts_with(s: &str, pattern: &str) -> (r: bool)
    ensures
        r == pattern@.is_prefix_of(s@),
{
    s.starts_with(pattern)
}

/// Calls `==` on two string slices: whether they hold the same characters.
#[verifier::external_body]
pub(crate) fn same_text(a: &str, b: &str) -> (r: bool)
    ensures
        r == (a@ == b@),
{
    a == b
}

/// `unit` written `n` times in a row.
pub fn repeat(unit: &str, n: usize) -> (r: String)
    ensures
        r@ == repeated(unit@, n as nat),
{
    let mut out = String::new();
    let mut i: usize = 0;
    while i < n
        invariant
            i <= n,
            out@ == repeated(unit@, i as nat),
        decreases n - i,
    {
        out.append(unit);
        i += 1;
    }
    out
}

/// `n` spaces.
pub fn padding(n: usize) -> (r: String)
    ensures
        r@ == spaces(n as nat),
{
    let out = repeat(" ", n);
    proof {
        reveal_strlit(" ");
        assert(" "@ =~= seq![' ']);
        lemma_repeated_space(" "@, n as nat);
    }
    out
}

/// Writing a single space `n` times gives `n` spaces.
pub proof fn lemma_repeated_space(unit: Seq<char>, n: nat)
    requires
        unit == seq![' '],
    ensures
        repeated(unit, n) == spaces(n),
    decreases n,
{
    if n > 0 {
        lemma_repeated_space(unit, (n - 1) as nat);
    }
    assert(repeated(unit, n) =~= spaces(n));
}

/// Joins the words with a single space between neighbours.
pub fn join(words: &Vec<&str>) -> (r: String)
    ensures
        r@ == join_words(slice_texts(words@)),
{
    let mut out = String::new();
    let mut i: usize = 0;
    assert(slice_texts(words@).take(0) =~= Seq::<Seq<char>>::empty());
    while i < words.len()
        invariant
            i <= words.len(),
            out@ == join_words(slice_texts(words@).take(i as int)),
        decreases words.len() - i,
    {
        let ghost all = slice_texts(words@);
        assert(all.take(i + 1).drop_last() =~= all.take(i as int));
        assert(all.take(i + 1).last() == words@[i as int]@);
        if i > 0 {
            out.append(" ");
            proof {
                reveal_strlit(" ");
            }
        } else {
            assert(out@ + words@[0]@ =~= words@[0]@);
        }
        out.append(words[i]);
        i += 1;
    }
    assert(slice_texts(words@).take(words.len() as int) =~= slice_texts(words@));
    out
}

/// Whether one of `seen` holds the characters of `name`.
pub fn contains_text(seen: &Vec<String>, name: &str) -> (r: bool)
    ensures
        r == texts(seen@).contains(name@),
{
    let mut i: usize = 0;
    while i < seen.len()
        invariant
            i <= seen.len(),
            forall|j: int| 0 <= j < i ==> texts(seen@)[j] != name@,
        decreases seen.len() - i,
    {
        if same_text(seen[i].as_str(), name) {
            assert(texts(seen@)[i as int] == name@);
            return true;
        }
        i += 1;
    }
    false
}

/// Every word of a text is a word: not empty, and free of white space.
pub proof fn lemma_words_are_words(s: Seq<char>)
    ensures
        forall|i: int| 0 <= i < words_of(s).len() ==> is_word(#[trigger] words_of(s)[i]),
        s.len() > 0 && !is_white_space(s.last()) ==> words_of(s).len() > 0,
    decreases s.len(),
{
    if s.len() > 0 {
        lemma_words_are_words(s.drop_last());
        let before = words_of(s.drop_last());
        if !is_white_space(s.last()) && s.len() >= 2 && !is_white_space(s[s.len() - 2]) {
            assert(s.drop_last().last() == s[s.len() - 2]);
            assert(is_word(before.last()));
        }
    }
}

/// A space at the end of a text adds no word.
pub proof fn lemma_words_append_space(a: Seq<char>)
    ensures
        words_of(a + seq![' ']) == words_of(a),
{
    let s = a + seq![' '];
    assert(s.drop_last() =~= a);
    assert(s.last() == ' ');
}

/// A run of spaces holds no word.
pub proof fn lemma_words_of_spaces(n: nat)
    ensures
        words_of(spaces(n)).len() == 0,
    decreases n,
{
    if n > 0 {
        lemma_words_of_spaces((n - 1) as nat);
        assert(spaces(n).drop_last() =~= spaces((n - 1) as nat));
    }
}

/// A word written behind a text that is empty or ends in white space is
/// that text's next word.
pub proof fn lemma_words_append_word(a: Seq<char>, w: Seq<char>)
    requires
        is_word(w),
        a.len() == 0 || is_white_space(a.last()),
    ensures
        words_of(a + w) == words_of(a).push(w),
    decreases w.len(),
{
    let s = a + w;
    let c = w.last();
    assert(s.last() == c);
    if w.len() == 1 {
        assert(s.drop_last() =~= a);
        assert(seq![c] =~= w);
        if a.len() > 0 {
            assert(s[s.len() - 2] == a.last());
        }
    } else {
        let shorter = w.drop_last();
        assert(is_word(shorter)) by {
            assert forall|i: int| 0 <= i < shorter.len() implies !is_white_space(
                #[trigger] shorter[i],
            ) by {
                assert(shorter[i] == w[i]);
            }
        }
        lemma_words_append_word(a, shorter);
        assert(s.drop_last() =~= a + shorter);
        assert(s[s.len() - 2] == w[w.len() - 2]);
        assert(shorter.push(c) =~= w);
        assert(words_of(a).push(shorter).drop_last() =~= words_of(a));
    }
}

/// Joining words and splitting the result gives the words back.
pub proof fn lemma_words_of_join(words: Seq<Seq<char>>)
    requires
        forall|i: int| 0 <= i < words.len() ==> is_word(#[trigger] words[i]),
    ensures
        words_of(join_words(words)) == words,
    decreases words.len(),
{
    if words.len() == 0 {
        assert(words =~= Seq::<Seq<char>>::empty());
    } else if words.len() == 1 {
        lemma_words_append_word(Seq::empty(), words[0]);
        assert(Seq::<char>::empty() + words[0] =~= words[0]);
        assert(Seq::<Seq<char>>::empty().push(words[0]) =~= words);
    } else {
        let init = words.drop_last();
        assert forall|i: int| 0 <= i < init.len() implies is_word(#[trigger] init[i]) by {
            assert(init[i] == words[i]);
        }
        lemma_words_of_join(init);
        lemma_words_append_space(join_words(init));
        lemma_words_append_word(join_words(init) + seq![' '], words.last());
        assert(init.push(words.last()) =~= words);
    }
}

} // verus!
