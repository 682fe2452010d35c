//! What the breaking up of keywords achieves: none of them is left in the
//! text, and the text reads as before.

use vstd::prelude::*;
use crate::pings::{remove_special_pings_spec, replace_all};

verus! {

/// The zero-width space that breaks up a keyword.
pub open spec fn gap() -> char {
    '\u{200B}'
}

/// `word` stands in `text` at position `at`.
pub open spec fn occurs_at(text: Seq<char>, word: Seq<char>, at: int) -> bool {
    0 <= at && at + word.len() <= text.len() && text.subrange(at, at + word.len()) == word
}

/// `word` stands somewhere in `text`.
pub open spec fn occurs(text: Seq<char>, word: Seq<char>) -> bool {
    exists|at: int| occurs_at(text, word, at)
}

/// `c` is no character of `word`.
pub open spec fn free_of(word: Seq<char>, c: char) -> bool {
    forall|j: int| 0 <= j < word.len() ==> #[trigger] word[j] != c
}

/// A word of at least two characters whose first character comes only
/// first.
pub open spec fn head_comes_once(word: Seq<char>) -> bool {
    word.len() >= 2 && forall|j: int| 1 <= j < word.len() ==> #[trigger] word[j] != word[0]
}

/// `to` is `from` with the character `c` put behind its first character.
pub open spec fn broken_by(from: Seq<char>, to: Seq<char>, c: char) -> bool {
    from.len() >= 2 && to == seq![from[0], c] + from.subrange(1, from.len() as int)
}

/// `text` without the characters `c`.
pub open spec fn without(text: Seq<char>, c: char) -> Seq<char>
    decreases text.len(),
{
    if text.len() == 0 {
        Seq::empty()
    } else if text.last() == c {
        without(text.drop_last(), c)
    } else {
        without(text.drop_last(), c).push(text.last())
    }
}

proof fn lemma_occurs_in_suffix(text: Seq<char>, from: int, word: Seq<char>)
    requires
        0 <= from <= text.len(),
        occurs(text.subrange(from, text.len() as int), word),
    ensures
        occurs(text, word),
{
    let rest = text.subrange(from, text.len() as int);
    let at = choose|at: int| occurs_at(rest, word, at);
    assert(text.subrange(from + at, from + at + word.len()) =~= rest.subrange(
        at,
        at + word.len(),
    ));
    assert(occurs_at(text, word, from + at));
}

/// Where the replaced text begins with a word that is free of the first
/// character of `from`, the text itself begins with that word.
proof fn lemma_prefix_was_there(
    text: Seq<char>,
    from: Seq<char>,
    to: Seq<char>,
    c: char,
    word: Seq<char>,
)
    requires
        broken_by(from, to, c),
        free_of(word, from[0]),
        word.len() <= replace_all(text, from, to).len(),
        replace_all(text, from, to).subrange(0, word.len() as int) == word,
    ensures
        word.len() <= text.len(),
        text.subrange(0, word.len() as int) == word,
    decreases text.len(),
{
    let out = replace_all(text, from, to);
    if word.len() == 0 {
        assert(text.subrange(0, 0) =~= word);
    } else if text.len() < from.len() {
    } else if text.subrange(0, from.len() as int) == from {
        assert(out[0] == to[0]);
        assert(out.subrange(0, word.len() as int)[0] == out[0]);
        assert(word[0] == from[0]);
    } else {
        let rest = text.subrange(1, text.len() as int);
        let rest_out = replace_all(rest, from, to);
        let tail = word.subrange(1, word.len() as int);
        assert(out == seq![text[0]] + rest_out);
        assert(out.subrange(0, word.len() as int)[0] == out[0]);
        assert(rest_out.subrange(0, tail.len() as int) =~= out.subrange(
            0,
            word.len() as int,
        ).subrange(1, word.len() as int));
        lemma_prefix_was_there(rest, from, to, c, tail);
        assert forall|j: int| 0 <= j < word.len() implies text[j] == word[j] by {
            if j > 0 {
                assert(rest.subrange(0, tail.len() as int)[j - 1] == tail[j - 1]);
            }
        }
        assert(text.subrange(0, word.len() as int) =~= word);
    }
}

/// Breaking up `from` leaves no `word` in the text, where `word` is `from`
/// itself or a word of the same kind that was not in the text before.
pub proof fn lemma_word_stays_out(
    text: Seq<char>,
    from: Seq<char>,
    to: Seq<char>,
    c: char,
    word: Seq<char>,
)
    requires
        broken_by(from, to, c),
        head_comes_once(from),
        head_comes_once(word),
        word[0] == from[0],
        c != from[0],
        free_of(word, c),
        word == from || !occurs(text, word),
    ensures
        !occurs(replace_all(text, from, to), word),
    decreases text.len(),
{
    let out = replace_all(text, from, to);
    let n = word.len() as int;
    if text.len() < from.len() {
        assert forall|at: int| !occurs_at(out, word, at) by {
            if occurs_at(out, word, at) {
                assert(occurs(text, word));
            }
        }
    } else if text.subrange(0, from.len() as int) == from {
        let rest = text.subrange(from.len() as int, text.len() as int);
        let rest_out = replace_all(rest, from, to);
        if word != from {
            if occurs(rest, word) {
                lemma_occurs_in_suffix(text, from.len() as int, word);
            }
        }
        lemma_word_stays_out(rest, from, to, c, word);
        assert(out == to + rest_out);
        assert forall|at: int| !occurs_at(out, word, at) by {
            if occurs_at(out, word, at) {
                let found = out.subrange(at, at + n);
                assert(found[0] == out[at]);
                assert(found[1] == out[at + 1]);
                if at >= to.len() {
                    assert(rest_out.subrange(at - to.len(), at - to.len() + n) =~= found);
                    assert(occurs_at(rest_out, word, at - to.len()));
                } else if at == 0 {
                    assert(out[1] == to[1]);
                    assert(word[1] == c);
                } else {
                    assert(out[at] == to[at]);
                    if at >= 2 {
                        assert(to[at] == from[at - 1]);
                    }
                    assert(word[0] != from[0]);
                }
            }
        }
    } else {
        let rest = text.subrange(1, text.len() as int);
        let rest_out = replace_all(rest, from, to);
        if word != from {
            if occurs(rest, word) {
                lemma_occurs_in_suffix(text, 1, word);
            }
        }
        lemma_word_stays_out(rest, from, to, c, word);
        assert(out == seq![text[0]] + rest_out);
        assert forall|at: int| !occurs_at(out, word, at) by {
            if occurs_at(out, word, at) {
                let found = out.subrange(at, at + n);
                if at >= 1 {
                    assert(rest_out.subrange(at - 1, at - 1 + n) =~= found);
                    assert(occurs_at(rest_out, word, at - 1));
                } else {
                    let tail = word.subrange(1, n);
                    assert(found[0] == out[0]);
                    assert(rest_out.subrange(0, n - 1) =~= found.subrange(1, n));
                    assert(free_of(tail, from[0]));
                    lemma_prefix_was_there(rest, from, to, c, tail);
                    assert forall|j: int| 0 <= j < n implies text[j] == word[j] by {
                        if j > 0 {
                            assert(rest.subrange(0, n - 1)[j - 1] == tail[j - 1]);
                        }
                    }
                    assert(text.subrange(0, n) =~= word);
                    assert(occurs_at(text, word, 0));
                }
            }
        }
    }
}

proof fn lemma_without_concat(first: Seq<char>, second: Seq<char>, c: char)
    ensures
        without(first + second, c) == without(first, c) + without(second, c),
    decreases second.len(),
{
    if second.len() == 0 {
        assert(first + second =~= first);
        assert(without(first, c) + without(second, c) =~= without(first, c));
    } else {
        lemma_without_concat(first, second.drop_last(), c);
        assert((first + second).drop_last() =~= first + second.drop_last());
        assert(without(first + second, c) =~= without(first, c) + without(second, c));
    }
}

/// Breaking up a word by a character changes nothing but in that character:
/// with it taken out, the text is what it was.
pub proof fn lemma_reads_as_before(text: Seq<char>, from: Seq<char>, to: Seq<char>, c: char)
    requires
        broken_by(from, to, c),
    ensures
        without(replace_all(text, from, to), c) == without(text, c),
    decreases text.len(),
{
    if text.len() < from.len() {
    } else if text.subrange(0, from.len() as int) == from {
        let rest = text.subrange(from.len() as int, text.len() as int);
        lemma_reads_as_before(rest, from, to, c);
        lemma_without_concat(to, replace_all(rest, from, to), c);
        lemma_without_concat(from, rest, c);
        assert(from + rest =~= text);
        let head = seq![from[0], c];
        let tail = from.subrange(1, from.len() as int);
        lemma_without_concat(head, tail, c);
        lemma_without_concat(seq![from[0]], tail, c);
        assert(seq![from[0]] + tail =~= from);
        assert(head.drop_last() =~= seq![from[0]]);
        assert(without(head, c) == without(seq![from[0]], c));
    } else {
        let rest = text.subrange(1, text.len() as int);
        lemma_reads_as_before(rest, from, to, c);
        lemma_without_concat(seq![text[0]], replace_all(rest, from, to), c);
        lemma_without_concat(seq![text[0]], rest, c);
        assert(seq![text[0]] + rest =~= text);
    }
}

proof fn lemma_keywords()
    ensures
        broken_by("@someone"@, "@\u{200B}someone"@, gap()),
        broken_by("@everyone"@, "@\u{200B}everyone"@, gap()),
        broken_by("@here"@, "@\u{200B}here"@, gap()),
        head_comes_once("@someone"@),
        head_comes_once("@everyone"@),
        head_comes_once("@here"@),
        free_of("@someone"@, gap()),
        free_of("@everyone"@, gap()),
        free_of("@here"@, gap()),
        "@someone"@[0] == '@',
        "@everyone"@[0] == '@',
        "@here"@[0] == '@',
{
    reveal_strlit("@someone");
    reveal_strlit("@everyone");
    reveal_strlit("@here");
    reveal_strlit("@\u{200B}someone");
    reveal_strlit("@\u{200B}everyone");
    reveal_strlit("@\u{200B}here");
    assert("@\u{200B}someone"@ =~= seq!['@', gap()] + "@someone"@.subrange(1, 8));
    assert("@\u{200B}everyone"@ =~= seq!['@', gap()] + "@everyone"@.subrange(1, 9));
    assert("@\u{200B}here"@ =~= seq!['@', gap()] + "@here"@.subrange(1, 5));
}

/// Once the keywords are broken up, none of the three is left in the text.
pub proof fn lemma_no_keyword_is_left(message: Seq<char>)
    ensures
        !occurs(remove_special_pings_spec(message), "@someone"@),
        !occurs(remove_special_pings_spec(message), "@everyone"@),
        !occurs(remove_special_pings_spec(message), "@here"@),
{
    lemma_keywords();
    let someone = "@someone"@;
    let everyone = "@everyone"@;
    let here = "@here"@;
    let first = replace_all(message, someone, "@\u{200B}someone"@);
    let second = replace_all(first, everyone, "@\u{200B}everyone"@);
    lemma_word_stays_out(message, someone, "@\u{200B}someone"@, gap(), someone);
    lemma_word_stays_out(first, everyone, "@\u{200B}everyone"@, gap(), everyone);
    lemma_word_stays_out(first, everyone, "@\u{200B}everyone"@, gap(), someone);
    lemma_word_stays_out(second, here, "@\u{200B}here"@, gap(), here);
    lemma_word_stays_out(second, here, "@\u{200B}here"@, gap(), someone);
    lemma_word_stays_out(second, here, "@\u{200B}here"@, gap(), everyone);
}

/// Once the keywords are broken up, the text reads as before: but for the
/// zero-width spaces in it, it is the text that it was.
pub proof fn lemma_keywords_read_as_before(message: Seq<char>)
    ensures
        without(remove_special_pings_spec(message), gap()) == without(message, gap()),
{
    lemma_keywords();
    let first = replace_all(message, "@someone"@, "@\u{200B}someone"@);
    let second = replace_all(first, "@everyone"@, "@\u{200B}everyone"@);
    lemma_reads_as_before(message, "@someone"@, "@\u{200B}someone"@, gap());
    lemma_reads_as_before(first, "@everyone"@, "@\u{200B}everyone"@, gap());
    lemma_reads_as_before(second, "@here"@, "@\u{200B}here"@, gap());
}

/// Replacing a word that is not in the text changes nothing.
pub proof fn lemma_nothing_to_replace(text: Seq<char>, from: Seq<char>, to: Seq<char>)
    requires
        !occurs(text, from),
    ensures
        replace_all(text, from, to) == text,
    decreases text.len(),
{
    if from.len() == 0 || text.len() < from.len() {
    } else if text.subrange(0, from.len() as int) == from {
        assert(occurs_at(text, from, 0));
    } else {
        let rest = text.subrange(1, text.len() as int);
        if occurs(rest, from) {
            lemma_occurs_in_suffix(text, 1, from);
        }
        lemma_nothing_to_replace(rest, from, to);
        assert(seq![text[0]] + rest =~= text);
    }
}

/// Breaking up the keywords a second time changes nothing more.
pub proof fn lemma_breaking_up_twice(message: Seq<char>)
    ensures
        remove_special_pings_spec(remove_special_pings_spec(message)) == remove_special_pings_spec(
            message,
        ),
{
    let once = remove_special_pings_spec(message);
    lemma_no_keyword_is_left(message);
    lemma_nothing_to_replace(once, "@someone"@, "@\u{200B}someone"@);
    lemma_nothing_to_replace(once, "@everyone"@, "@\u{200B}everyone"@);
    lemma_nothing_to_replace(once, "@here"@, "@\u{200B}here"@);
}

} // verus!
