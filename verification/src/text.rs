//! Words and whitespace: the text model that chunking is stated over.

use vstd::prelude::*;
use vstd::std_specs::iter::IteratorSpec;
use vstd::string::StringExecFns;

verus! {

/// Whether `c` is white space in the sense of Unicode (`White_Space`).
pub open spec fn is_whitespace(c: char) -> bool {
    let u = c as u32;
    ||| 0x09 <= u <= 0x0D
    ||| u == 0x20
    ||| u == 0x85
    ||| u == 0xA0
    ||| u == 0x1680
    ||| 0x2000 <= u <= 0x200A
    ||| u == 0x2028
    ||| u == 0x2029
    ||| u == 0x202F
    ||| u == 0x205F
    ||| u == 0x3000
}

/// A word is a non-empty run of characters none of which is whitespace.
pub open spec fn is_word(s: Seq<char>) -> bool {
    &&& s.len() > 0
    &&& forall|j: int| 0 <= j < s.len() ==> !is_whitespace(#[trigger] s[j])
}

/// Length of the longest whitespace-free prefix of `s`.
pub open spec fn word_end(s: Seq<char>) -> nat
    decreases s.len(),
{
    if s.len() == 0 || is_whitespace(s[0]) {
        0
    } else {
        1 + word_end(s.skip(1))
    }
}

/// The words of `s` in order: the maximal whitespace-free runs of `s`.
pub open spec fn words_of(s: Seq<char>) -> Seq<Seq<char>>
    decreases s.len(),
    via words_of_decreases
{
    if s.len() == 0 {
        Seq::empty()
    } else if is_whitespace(s[0]) {
        words_of(s.skip(1))
    } else {
        let n = word_end(s) as int;
        seq![s.take(n)] + words_of(s.skip(n))
    }
}

#[via_fn]
proof fn words_of_decreases(s: Seq<char>) {
    lemma_word_end_bounds(s);
}

/// `parts` written out in order with `separator` between neighbours.
pub open spec fn join(parts: Seq<Seq<char>>, separator: Seq<char>) -> Seq<char>
    decreases parts.len(),
{
    if parts.len() == 0 {
        Seq::empty()
    } else if parts.len() == 1 {
        parts[0]
    } else {
        join(parts.drop_last(), separator) + separator + parts.last()
    }
}

/// `words` written out with one space between neighbours.
pub open spec fn join_words(words: Seq<Seq<char>>) -> Seq<char> {
    join(words, seq![' '])
}

/// `s` with every run of whitespace between words replaced by one space and
/// the whitespace at both ends removed.
pub open spec fn normalized(s: Seq<char>) -> Seq<char> {
    join_words(words_of(s))
}

/// The whitespace-free prefix that `word_end` measures lies inside `s`, holds
/// no whitespace, and cannot be extended.
pub proof fn lemma_word_end_bounds(s: Seq<char>)
    ensures
        word_end(s) <= s.len(),
        s.len() > 0 && !is_whitespace(s[0]) ==> word_end(s) >= 1,
        forall|j: int| 0 <= j < word_end(s) ==> !is_whitespace(#[trigger] s[j]),
        word_end(s) < s.len() ==> is_whitespace(s[word_end(s) as int]),
    decreases s.len(),
{
    if s.len() == 0 || is_whitespace(s[0]) {
    } else {
        let t = s.skip(1);
        lemma_word_end_bounds(t);
        assert forall|j: int| 0 <= j < word_end(s) implies !is_whitespace(#[trigger] s[j]) by {
            if j > 0 {
                assert(s[j] == t[j - 1]);
            }
        }
    }
}

/// A whitespace-free prefix of length `k` that ends at whitespace or at the
/// end of `s` is the prefix that `word_end` measures.
pub proof fn lemma_word_end_is(s: Seq<char>, k: int)
    requires
        0 <= k <= s.len(),
        forall|j: int| 0 <= j < k ==> !is_whitespace(#[trigger] s[j]),
        k < s.len() ==> is_whitespace(s[k]),
    ensures
        word_end(s) == k,
    decreases k,
{
    if k == 0 {
    } else {
        let t = s.skip(1);
        assert forall|j: int| 0 <= j < k - 1 implies !is_whitespace(#[trigger] t[j]) by {
            assert(t[j] == s[j + 1]);
        }
        lemma_word_end_is(t, k - 1);
    }
}

/// Every element of `words_of(s)` is a word.
pub proof fn lemma_words_are_words(s: Seq<char>)
    ensures
        forall|i: int| 0 <= i < words_of(s).len() ==> is_word(#[trigger] words_of(s)[i]),
    decreases s.len(),
{
    if s.len() == 0 {
    } else if is_whitespace(s[0]) {
        lemma_words_are_words(s.skip(1));
        assert(words_of(s) == words_of(s.skip(1)));
    } else {
        lemma_word_end_bounds(s);
        let n = word_end(s) as int;
        lemma_words_are_words(s.skip(n));
        let rest = words_of(s.skip(n));
        assert forall|i: int| 0 <= i < words_of(s).len() implies is_word(
            #[trigger] words_of(s)[i],
        ) by {
            if i > 0 {
                assert(words_of(s)[i] == rest[i - 1]);
            }
        }
    }
}

/// Executable form of [`is_whitespace`].
pub fn is_whitespace_char(c: char) -> (b: bool)
    ensures
        b == is_whitespace(c),
{
    let u: u32 = c as u32;
    (0x09 <= u && u <= 0x0D) || u == 0x20 || u == 0x85 || u == 0xA0 || u == 0x1680 || (0x2000 <= u
        && u <= 0x200A) || u == 0x2028 || u == 0x2029 || u == 0x202F || u == 0x205F || u == 0x3000
}

/// The characters of `text`, in order.
pub fn chars_of(text: &str) -> (chars: Vec<char>)
    ensures
        chars@ == text@,
{
    let ghost s = text@;
    let mut chars: Vec<char> = Vec::new();
    let mut it = text.chars();
    loop
        invariant
            s == text@,
            chars@.len() <= s.len(),
            it.obeys_prophetic_iter_laws(),
            it.remaining() == s.skip(chars@.len() as int),
            chars@ == s.take(chars@.len() as int),
        ensures
            chars@ == s,
        decreases s.len() - chars@.len(),
    {
        match it.next() {
            Some(c) => {
                chars.push(c);
            },
            None => {
                break ;
            },
        }
    }
    chars
}

/// Splits `text` into its words, each as the vector of its characters.
pub fn split_words(text: &str) -> (words: Vec<Vec<char>>)
    ensures
        words.deep_view() == words_of(text@),
{
    let ghost s = text@;
    let mut words: Vec<Vec<char>> = Vec::new();
    let mut current: Vec<char> = Vec::new();
    let mut it = text.chars();
    let ghost mut i: int = 0;
    assert(s.skip(0) =~= s);
    loop
        invariant
            s == text@,
            0 <= i <= s.len(),
            it.obeys_prophetic_iter_laws(),
            it.remaining() == s.skip(i),
            current@.len() <= i,
            current@ == s.subrange(i - current@.len(), i),
            forall|j: int| 0 <= j < current@.len() ==> !is_whitespace(#[trigger] current@[j]),
            words_of(s) == words.deep_view() + words_of(s.skip(i - current@.len())),
        ensures
            i == s.len(),
            current@.len() <= i,
            current@ == s.subrange(i - current@.len(), i),
            forall|j: int| 0 <= j < current@.len() ==> !is_whitespace(#[trigger] current@[j]),
            words_of(s) == words.deep_view() + words_of(s.skip(i - current@.len())),
        decreases s.len() - i,
    {
        let ghost start = i - current@.len();
        let ghost tail = s.skip(start);
        match it.next() {
            Some(c) => {
                if is_whitespace_char(c) {
                    if current.len() > 0 {
                        proof {
                            lemma_first_word(tail, current@.len() as int);
                            assert(tail.take(current@.len() as int) =~= current@);
                            assert(tail.skip(current@.len() as int) =~= s.skip(i));
                        }
                        assert(current.deep_view() =~= current@);
                        words.push(current);
                        current = Vec::new();
                    }
                    proof {
                        lemma_leading_whitespace(s.skip(i));
                        assert(s.skip(i).skip(1) =~= s.skip(i + 1));
                        i = i + 1;
                    }
                } else {
                    current.push(c);
                    proof {
                        i = i + 1;
                    }
                }
            },
            None => {
                break ;
            },
        }
    }
    if current.len() > 0 {
        let ghost start = i - current@.len();
        let ghost tail = s.skip(start);
        proof {
            lemma_first_word(tail, current@.len() as int);
        }
        assert(current.deep_view() =~= current@);
        assert(tail.take(current@.len() as int) =~= tail);
        words.push(current);
    }
    words
}

/// Writes `parts` out in order with `separator` between neighbours.
pub fn join_strings(parts: &Vec<String>, separator: &str) -> (text: String)
    ensures
        text@ == join(parts.deep_view(), separator@),
{
    let ghost p = parts.deep_view();
    let mut text = String::new();
    let mut i: usize = 0;
    while i < parts.len()
        invariant
            p == parts.deep_view(),
            0 <= i <= parts.len(),
            text@ == join(p.take(i as int), separator@),
        decreases parts.len() - i,
    {
        if i > 0 {
            text.append(separator);
        }
        text.append(parts[i].as_str());
        assert(p.take(i + 1).drop_last() =~= p.take(i as int));
        i = i + 1;
    }
    assert(p.take(parts.len() as int) =~= p);
    text
}

/// Whitespace in front of the first word contributes nothing.
proof fn lemma_leading_whitespace(s: Seq<char>)
    requires
        s.len() > 0,
        is_whitespace(s[0]),
    ensures
        words_of(s) == words_of(s.skip(1)),
{
}

/// A text that opens with `k >= 1` characters free of whitespace, followed by
/// whitespace or nothing, has those `k` characters as its first word.
proof fn lemma_first_word(s: Seq<char>, k: int)
    requires
        1 <= k <= s.len(),
        forall|j: int| 0 <= j < k ==> !is_whitespace(#[trigger] s[j]),
        k < s.len() ==> is_whitespace(s[k]),
    ensures
        words_of(s) == seq![s.take(k)] + words_of(s.skip(k)),
{
    lemma_word_end_is(s, k);
}

} // verus!
