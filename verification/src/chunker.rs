//! Greedy grouping of words into chunks under a length budget.
//!
//! A chunk is a run of consecutive words joined by single spaces. Words are
//! gathered for as long as the budget allows; a word is never split, so a word
//! that is longer than the budget forms a chunk of its own.

use vstd::prelude::*;
use vstd::seq_lib::lemma_flatten_concat;
use crate::summarizer::HuggingFaceSummarizer;
use crate::text::{
    is_word, join_words, lemma_words_are_words, normalized, split_words, words_of,
};

verus! {

/// What a run of words counts against the budget: the length of each word
/// plus one for the space that separates it from the next.
pub open spec fn weight(words: Seq<Seq<char>>) -> nat
    decreases words.len(),
{
    if words.len() == 0 {
        0
    } else {
        weight(words.drop_last()) + words.last().len() + 1
    }
}

/// How many leading words of `words` end up in the first chunk, given that
/// the first `k` of them already are in it: the chunk grows by one word for
/// as long as the grown run stays within `max`.
pub open spec fn chunk_extent(words: Seq<Seq<char>>, max: int, k: int) -> int
    decreases words.len() - k,
{
    if k < words.len() && weight(words.take(k + 1)) <= max {
        chunk_extent(words, max, k + 1)
    } else {
        k
    }
}

/// The words of each chunk, in order. The first word of a chunk is taken
/// whatever its length; further words are taken while they fit.
pub open spec fn group_words(words: Seq<Seq<char>>, max: int) -> Seq<Seq<Seq<char>>>
    decreases words.len(),
    via group_words_decreases
{
    if words.len() == 0 {
        Seq::empty()
    } else {
        let k = chunk_extent(words, max, 1);
        seq![words.take(k)] + group_words(words.skip(k), max)
    }
}

#[via_fn]
proof fn group_words_decreases(words: Seq<Seq<char>>, max: int) {
    if words.len() > 0 {
        lemma_chunk_extent(words, max, 1);
    }
}

/// The text of each group: its words joined by single spaces.
pub open spec fn joined(groups: Seq<Seq<Seq<char>>>) -> Seq<Seq<char>> {
    groups.map_values(|g: Seq<Seq<char>>| join_words(g))
}

/// The chunks that `words` are grouped into under the budget `max`.
pub open spec fn chunks_of(words: Seq<Seq<char>>, max: int) -> Seq<Seq<char>> {
    joined(group_words(words, max))
}

/// The chunks of `text` under the budget `max`: its words, grouped.
pub open spec fn chunk_text_spec(text: Seq<char>, max: int) -> Seq<Seq<char>> {
    chunks_of(words_of(text), max)
}

/// The extent of a chunk lies between the words it already holds and the end
/// of the text; a chunk that grew stays within the budget, and the word after
/// a chunk would have exceeded it.
pub proof fn lemma_chunk_extent(words: Seq<Seq<char>>, max: int, k: int)
    requires
        0 <= k <= words.len(),
    ensures
        k <= chunk_extent(words, max, k) <= words.len(),
        chunk_extent(words, max, k) > k ==> weight(words.take(chunk_extent(words, max, k)))
            <= max,
        chunk_extent(words, max, k) < words.len() ==> weight(
            words.take(chunk_extent(words, max, k) + 1),
        ) > max,
    decreases words.len() - k,
{
    if k < words.len() && weight(words.take(k + 1)) <= max {
        lemma_chunk_extent(words, max, k + 1);
    }
}

/// A non-empty run of words weighs one more than its joined text is long.
pub proof fn lemma_weight_of_joined(words: Seq<Seq<char>>)
    requires
        words.len() > 0,
    ensures
        weight(words) == join_words(words).len() + 1,
    decreases words.len(),
{
    if words.len() == 1 {
        assert(weight(words.drop_last()) == 0);
    } else {
        lemma_weight_of_joined(words.drop_last());
    }
}

/// Joining two non-empty runs one after the other is joining their texts
/// with a space.
pub proof fn lemma_join_concat(a: Seq<Seq<char>>, b: Seq<Seq<char>>)
    requires
        a.len() > 0,
        b.len() > 0,
    ensures
        join_words(a + b) == join_words(a) + seq![' '] + join_words(b),
    decreases b.len(),
{
    let ab = a + b;
    if b.len() == 1 {
        assert(ab.drop_last() =~= a);
    } else {
        assert(ab.drop_last() =~= a + b.drop_last());
        lemma_join_concat(a, b.drop_last());
    }
}

/// Grouping neither adds, removes, duplicates nor reorders a word, and no
/// group is empty.
pub proof fn lemma_groups_partition(words: Seq<Seq<char>>, max: int)
    ensures
        group_words(words, max).flatten() == words,
        forall|i: int|
            0 <= i < group_words(words, max).len() ==> (#[trigger] group_words(words, max)[i]).len()
                > 0,
        words.len() > 0 ==> group_words(words, max).len() > 0,
    decreases words.len(),
{
    if words.len() > 0 {
        lemma_chunk_extent(words, max, 1);
        let k = chunk_extent(words, max, 1);
        let rest = group_words(words.skip(k), max);
        lemma_groups_partition(words.skip(k), max);
        let head = seq![words.take(k)];
        lemma_flatten_concat(head, rest);
        head.lemma_flatten_one_element();
        assert forall|i: int| 0 <= i < group_words(words, max).len() implies (
        #[trigger] group_words(words, max)[i]).len() > 0 by {
            if i > 0 {
                assert(group_words(words, max)[i] == rest[i - 1]);
            }
        }
    }
}

/// Joining the chunks with single spaces gives the same text as joining the
/// words themselves.
pub proof fn lemma_chunks_rejoin(words: Seq<Seq<char>>, max: int)
    ensures
        join_words(chunks_of(words, max)) == join_words(words),
    decreases words.len(),
{
    if words.len() > 0 {
        lemma_chunk_extent(words, max, 1);
        let k = chunk_extent(words, max, 1);
        let head = words.take(k);
        let tail = words.skip(k);
        lemma_chunks_rejoin(tail, max);
        lemma_groups_partition(tail, max);
        assert(words =~= head + tail);
        assert(chunks_of(words, max) =~= seq![join_words(head)] + chunks_of(tail, max));
        if tail.len() > 0 {
            lemma_join_concat(seq![join_words(head)], chunks_of(tail, max));
            lemma_join_concat(head, tail);
        }
    }
}

/// A chunk is within the budget unless it consists of exactly one word that
/// is itself longer than the budget.
pub proof fn lemma_chunks_bounded(words: Seq<Seq<char>>, max: int)
    ensures
        chunks_of(words, max).len() == group_words(words, max).len(),
        forall|i: int|
            #![trigger group_words(words, max)[i]]
            #![trigger chunks_of(words, max)[i]]
            0 <= i < group_words(words, max).len() ==> {
                let group = group_words(words, max)[i];
                let chunk = chunks_of(words, max)[i];
                &&& chunk == join_words(group)
                &&& chunk.len() <= max || (group.len() == 1 && group[0] == chunk && chunk.len()
                    > max)
            },
    decreases words.len(),
{
    if words.len() > 0 {
        lemma_chunk_extent(words, max, 1);
        let k = chunk_extent(words, max, 1);
        let head = words.take(k);
        let rest = group_words(words.skip(k), max);
        lemma_chunks_bounded(words.skip(k), max);
        lemma_weight_of_joined(head);
        assert forall|i: int|
            #![trigger group_words(words, max)[i]]
            #![trigger chunks_of(words, max)[i]]
            0 <= i < group_words(words, max).len() implies {
            let group = group_words(words, max)[i];
            let chunk = chunks_of(words, max)[i];
            &&& chunk == join_words(group)
            &&& chunk.len() <= max || (group.len() == 1 && group[0] == chunk && chunk.len() > max)
        } by {
            if i > 0 {
                assert(group_words(words, max)[i] == rest[i - 1]);
            }
        }
    }
}

/// When every word is a word in the sense of [`is_word`], a chunk that is
/// over the budget is one such word, and no chunk is empty.
pub proof fn lemma_oversized_chunk_is_word(words: Seq<Seq<char>>, max: int)
    requires
        forall|j: int| 0 <= j < words.len() ==> is_word(#[trigger] words[j]),
    ensures
        forall|i: int|
            0 <= i < chunks_of(words, max).len() ==> {
                let chunk = #[trigger] chunks_of(words, max)[i];
                &&& chunk.len() > 0
                &&& chunk.len() <= max || is_word(chunk)
            },
    decreases words.len(),
{
    if words.len() > 0 {
        lemma_chunk_extent(words, max, 1);
        let k = chunk_extent(words, max, 1);
        let head = words.take(k);
        let tail = words.skip(k);
        lemma_oversized_chunk_is_word(tail, max);
        lemma_chunks_bounded(words, max);
        lemma_weight_of_joined(head);
        lemma_join_nonempty(head);
        assert forall|i: int| 0 <= i < chunks_of(words, max).len() implies {
            let chunk = #[trigger] chunks_of(words, max)[i];
            &&& chunk.len() > 0
            &&& chunk.len() <= max || is_word(chunk)
        } by {
            if i > 0 {
                assert(chunks_of(words, max)[i] == chunks_of(tail, max)[i - 1]);
            }
        }
    }
}

/// `String::push` of the standard library appends one character to the end
/// of the string.
pub assume_specification[ String::push ](s: &mut String, c: char)
    ensures
        final(s)@ == old(s)@.push(c),
;

/// Appends the characters of `word` to `out`.
fn push_word(out: &mut String, word: &Vec<char>)
    ensures
        final(out)@ == old(out)@ + word@,
{
    let mut j: usize = 0;
    while j < word.len()
        invariant
            0 <= j <= word.len(),
            out@ == old(out)@ + word@.take(j as int),
        decreases word.len() - j,
    {
        out.push(word[j]);
        j = j + 1;
    }
}

/// Groups `words` into chunks. A word joins the chunk under construction
/// when the words of the chunk and the new word, each counted with one
/// character more than it has, stay within `max_length`; otherwise the chunk
/// is closed and the word opens the next one.
pub fn group_chunks(words: &Vec<Vec<char>>, max_length: usize) -> (chunks: Vec<String>)
    ensures
        chunks.deep_view() == chunks_of(words.deep_view(), max_length as int),
{
    let ghost w = words.deep_view();
    let ghost max = max_length as int;
    let ghost mut done: Seq<Seq<Seq<char>>> = Seq::empty();
    let mut chunks: Vec<String> = Vec::new();
    let mut current = String::new();
    let mut current_len: usize = 0;
    let mut start: usize = 0;
    let mut i: usize = 0;
    assert(w.skip(0) =~= w);
    while i < words.len()
        invariant
            w == words.deep_view(),
            max == max_length as int,
            0 <= start <= i <= words.len(),
            start == i ==> i == 0,
            group_words(w, max) == done + group_words(w.skip(start as int), max),
            chunks.deep_view() == joined(done),
            current@ == join_words(w.subrange(start as int, i as int)),
            current_len == current@.len(),
            start < i ==> chunk_extent(w.skip(start as int), max, 1) == chunk_extent(
                w.skip(start as int),
                max,
                i - start,
            ),
        decreases words.len() - i,
    {
        let word = &words[i];
        let ghost group = w.subrange(start as int, i as int);
        let ghost tail = w.skip(start as int);
        proof {
            assert(w[i as int] =~= word@);
            assert(tail.take(i - start) =~= group);
            assert(tail.take(i - start + 1) =~= group.push(word@));
            assert(group.push(word@).drop_last() =~= group);
            if start < i {
                lemma_weight_of_joined(group);
            }
        }
        let fits = current_len < max_length && max_length - current_len >= 2 && word.len()
            <= max_length - current_len - 2;
        if start < i && !fits {
            assert(tail.skip(i - start) =~= w.skip(i as int));
            let ghost before = chunks.deep_view();
            chunks.push(current);
            proof {
                assert(chunks.deep_view() =~= before.push(join_words(group)));
                done = done.push(group);
            }
            current = String::new();
            current_len = 0;
            start = i;
        }
        if start < i {
            current.push(' ');
            push_word(&mut current, word);
            current_len = current_len + 1 + word.len();
        } else {
            push_word(&mut current, word);
            current_len = word.len();
        }
        assert(w.skip(start as int).take(i + 1 - start) =~= w.subrange(start as int, i + 1));
        i = i + 1;
    }
    if start < i {
        let ghost group = w.subrange(start as int, i as int);
        let ghost tail = w.skip(start as int);
        proof {
            assert(tail.take(i - start) =~= group);
            assert(group_words(tail, max) == seq![group] + group_words(tail.skip(i - start), max));
        }
        let ghost before = chunks.deep_view();
        chunks.push(current);
        assert(chunks.deep_view() =~= before.push(join_words(group)));
    }
    chunks
}

impl HuggingFaceSummarizer {
    /// Splits `text` into chunks of whole words, in document order. A chunk
    /// takes as many words as fit into `max_length`; a word that is longer
    /// than `max_length` is a chunk by itself.
    ///
    /// Joined by single spaces, the chunks give `text` with its whitespace
    /// normalized. No chunk is empty, and a chunk is longer than
    /// `max_length` only where it is a single word. A text without words
    /// has no chunks.
    pub fn chunk_text(text: &str, max_length: usize) -> (chunks: Vec<String>)
        ensures
            chunks.deep_view() == chunk_text_spec(text@, max_length as int),
            join_words(chunks.deep_view()) == normalized(text@),
            forall|i: int|
                0 <= i < chunks.len() ==> (#[trigger] chunks[i])@.len() <= max_length || is_word(
                    chunks[i]@,
                ),
            forall|i: int| 0 <= i < chunks.len() ==> (#[trigger] chunks[i])@.len() > 0,
            chunks.len() == 0 <==> words_of(text@).len() == 0,
    {
        let words = split_words(text);
        let chunks = group_chunks(&words, max_length);
        proof {
            let w = words_of(text@);
            let max = max_length as int;
            lemma_words_are_words(text@);
            lemma_chunks_rejoin(w, max);
            lemma_oversized_chunk_is_word(w, max);
            lemma_groups_partition(w, max);
            lemma_chunks_bounded(w, max);
            assert forall|i: int| 0 <= i < chunks.len() implies (#[trigger] chunks[i])@
                == chunks_of(w, max)[i] by {
                assert(chunks.deep_view()[i] == chunks[i]@);
            }
        }
        chunks
    }
}

/// The joined text of a run that holds a non-empty word is not empty.
proof fn lemma_join_nonempty(words: Seq<Seq<char>>)
    requires
        words.len() > 0,
        words[0].len() > 0,
    ensures
        join_words(words).len() > 0,
{
}

} // verus!
