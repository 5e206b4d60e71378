//! The words of a text.

use vstd::prelude::*;
use crate::text;

verus! {

/// What stands between words.
#[derive(Clone, Copy, PartialEq, Eq, Structural)]
pub enum Break {
    /// White space.
    Space,
    /// All but ASCII letters and digits.
    Symbol,
}

impl Break {
    /// Whether a character stands between words.
    pub open spec fn parts(self, ch: char) -> bool {
        match self {
            Break::Space => text::is_space(ch),
            Break::Symbol => !text::is_alnum(ch),
        }
    }

    fn part(self, ch: char) -> (result: bool)
        ensures
            result == self.parts(ch),
    {
        match self {
            Break::Space => text::space(ch),
            Break::Symbol => !text::alnum(ch),
        }
    }
}

/// The words of a text: the longest pieces without a break.
pub open spec fn words_of(value: Seq<char>, kind: Break) -> Seq<Seq<char>>
    decreases value.len(),
{
    if value.len() == 0 {
        Seq::empty()
    } else {
        let front = words_of(value.drop_last(), kind);
        let last = value.last();
        if kind.parts(last) {
            front
        } else if value.len() == 1 || kind.parts(value[value.len() - 2]) {
            front.push(seq![last])
        } else {
            front.drop_last().push(front.last().push(last))
        }
    }
}

/// Where a text ends in a word, there is one.
pub proof fn lemma_words_last(value: Seq<char>, kind: Break)
    requires
        value.len() > 0,
        !kind.parts(value.last()),
    ensures
        words_of(value, kind).len() > 0,
    decreases value.len(),
{
    if value.len() > 1 && !kind.parts(value[value.len() - 2]) {
        lemma_words_last(value.drop_last(), kind);
    }
}

/// Each word holds something, and nothing that stands between words.
pub proof fn lemma_words_solid(value: Seq<char>, kind: Break)
    ensures
        forall|i: int|
            0 <= i < words_of(value, kind).len() ==> (#[trigger] words_of(value, kind)[i]).len() > 0
                && text::every(words_of(value, kind)[i], |ch: char| !kind.parts(ch)),
    decreases value.len(),
{
    if value.len() > 0 {
        let front = words_of(value.drop_last(), kind);
        let all = words_of(value, kind);
        let last = value.last();
        lemma_words_solid(value.drop_last(), kind);
        if !kind.parts(last) && value.len() > 1 && !kind.parts(value[value.len() - 2]) {
            lemma_words_last(value.drop_last(), kind);
            let test = |ch: char| !kind.parts(ch);
            assert forall|i: int| 0 <= i < all.len() implies (#[trigger] all[i]).len() > 0
                && text::every(all[i], test) by {
                if i < all.len() - 1 {
                    assert(all[i] == front[i]);
                } else {
                    let word = front[i];
                    assert(all[i] == word.push(last));
                    assert(text::every(word, test));
                    assert forall|j: int| 0 <= j < all[i].len() implies test(
                        #[trigger] all[i][j],
                    ) by {
                        if j < word.len() {
                            assert(test(word[j]));
                        }
                    }
                }
            }
        }
    }
}

/// The words of a text.
pub fn words(value: &str, kind: Break) -> (result: Vec<String>)
    ensures
        text::views(result@) == words_of(value@, kind),
{
    let all = text::chars(value);
    let mut result: Vec<String> = Vec::new();
    let mut word = String::new();
    let mut inside = false;
    let mut index: usize = 0;
    assert(text::views(result@) == Seq::<Seq<char>>::empty());
    while index < all.len()
        invariant
            index <= all.len(),
            all@ == value@,
            inside == (index > 0 && !kind.parts(value@[index - 1])),
            inside ==> words_of(value@.take(index as int), kind) == text::views(result@).push(word@),
            !inside ==> words_of(value@.take(index as int), kind) == text::views(result@)
                && word@.len() == 0,
        decreases all.len() - index,
    {
        let ch = all[index];
        let ghost next = value@.take(index + 1);
        proof {
            assert(next.drop_last() == value@.take(index as int));
            assert(next.last() == ch);
            if index > 0 {
                assert(next[next.len() - 2] == value@[index - 1]);
            }
        }
        if kind.part(ch) {
            if inside {
                assert(text::views(result@.push(word)) == text::views(result@).push(word@));
                result.push(word);
                word = String::new();
            }
            inside = false;
        } else {
            let ghost before = word@;
            word.push(ch);
            proof {
                if inside {
                    let front = words_of(value@.take(index as int), kind);
                    assert(front.drop_last() =~= text::views(result@));
                    assert(front.last() == before);
                } else {
                    assert(word@ =~= seq![ch]);
                }
            }
            inside = true;
        }
        index = index + 1;
    }
    assert(value@.take(value@.len() as int) == value@);
    if inside {
        assert(text::views(result@.push(word)) == text::views(result@).push(word@));
        result.push(word);
    }
    result
}

/// Joining words with a break between them keeps the words.
pub proof fn lemma_words_joined(items: Seq<Seq<char>>, separator: char, kind: Break)
    requires
        kind.parts(separator),
        forall|i: int|
            0 <= i < items.len() ==> (#[trigger] items[i]).len() > 0 && text::every(
                items[i],
                |ch: char| !kind.parts(ch),
            ),
    ensures
        words_of(text::joined(items, seq![separator]), kind) == items,
    decreases items.len(),
{
    if items.len() > 0 {
        let front = items.drop_last();
        let value = text::joined(front, seq![separator]);
        let word = items.last();
        assert forall|i: int| 0 <= i < front.len() implies (#[trigger] front[i]).len() > 0
            && text::every(front[i], |ch: char| !kind.parts(ch)) by {
            assert(front[i] == items[i]);
        }
        lemma_words_joined(front, separator, kind);
        assert(text::every(items[items.len() - 1], |ch: char| !kind.parts(ch)));
        if items.len() == 1 {
            lemma_word_appended(Seq::empty(), word, word.len() as int, kind);
            assert(text::joined(items, seq![separator]) =~= Seq::<char>::empty() + word);
            assert(words_of(Seq::empty(), kind) =~= front);
            assert(front.push(word) =~= items);
        } else {
            let base = value.push(separator);
            assert(base.drop_last() =~= value);
            assert(words_of(base, kind) == words_of(value, kind));
            lemma_word_appended(base, word, word.len() as int, kind);
            assert(text::joined(items, seq![separator]) =~= base + word);
            assert(front.push(word) =~= items);
        }
    }
}

proof fn lemma_word_appended(base: Seq<char>, word: Seq<char>, count: int, kind: Break)
    requires
        base.len() == 0 || kind.parts(base.last()),
        text::every(word, |ch: char| !kind.parts(ch)),
        0 <= count <= word.len(),
        word.len() > 0,
    ensures
        count > 0 ==> words_of(base + word.take(count), kind) == words_of(base, kind).push(
            word.take(count),
        ),
        count == word.len() ==> words_of(base + word, kind) == words_of(base, kind).push(word),
    decreases count,
{
    let test = |ch: char| !kind.parts(ch);
    if count > 0 {
        let all = base + word.take(count);
        lemma_word_appended(base, word, count - 1, kind);
        assert(all.drop_last() =~= base + word.take(count - 1));
        assert(all.last() == word[count - 1]);
        assert(test(word[count - 1]));
        if count == 1 {
            assert(word.take(0) =~= Seq::<char>::empty());
            assert(all.drop_last() =~= base);
            if all.len() > 1 {
                assert(all[all.len() - 2] == base.last());
            }
            assert(word.take(1) =~= seq![all.last()]);
        } else {
            assert(all[all.len() - 2] == word[count - 2]);
            assert(test(word[count - 2]));
            let front = words_of(all.drop_last(), kind);
            assert(front == words_of(base, kind).push(word.take(count - 1)));
            assert(front.drop_last() =~= words_of(base, kind));
            assert(word.take(count) =~= word.take(count - 1).push(all.last()));
        }
    }
    if count == word.len() {
        assert(word.take(count) =~= word);
    }
}

/// A word goes on with each character that parts none, a new one starts behind one that does, and that belongs to none.
pub proof fn lemma_words_grow(value: Seq<char>, ch: char, kind: Break)
    ensures
        kind.parts(ch) ==> words_of(value.push(ch), kind) == words_of(value, kind),
        !kind.parts(ch) && (value.len() == 0 || kind.parts(value.last())) ==> words_of(value.push(ch), kind)
            == words_of(value, kind).push(seq![ch]),
        !kind.parts(ch) && value.len() > 0 && !kind.parts(value.last()) ==> words_of(value.push(ch), kind)
            == words_of(value, kind).drop_last().push(words_of(value, kind).last().push(ch)),
        Break::Space.parts(' ') && Break::Symbol.parts('-') && Break::Symbol.parts(' ') && !Break::Symbol.parts('a')
            && !Break::Space.parts('a'),
{
    let whole = value.push(ch);
    assert(whole.drop_last() =~= value);
    assert(whole.last() == ch);
    if value.len() > 0 {
        assert(whole[whole.len() - 2] == value.last());
    }
}

} // verus!
