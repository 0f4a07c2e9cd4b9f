use video_summarizer::chunker::group_chunks;
use video_summarizer::summarizer::HuggingFaceSummarizer;
use video_summarizer::text::{chars_of, is_whitespace_char, join_strings, split_words};

fn chunk(text: &str, max_length: usize) -> Vec<String> {
    HuggingFaceSummarizer::chunk_text(text, max_length)
}

/// The grouping written the plain way: a counter that takes each word's
/// length plus one, and a flush when the next word would push it over.
fn chunk_by_counter(text: &str, max_length: usize) -> Vec<String> {
    let mut chunks = Vec::new();
    let mut current: Vec<&str> = Vec::new();
    let mut counter = 0usize;
    for word in text.split_whitespace() {
        let counted = word.chars().count() + 1;
        if counter + counted > max_length && !current.is_empty() {
            chunks.push(current.join(" "));
            current.clear();
            counter = 0;
        }
        current.push(word);
        counter += counted;
    }
    if !current.is_empty() {
        chunks.push(current.join(" "));
    }
    chunks
}

fn sample_texts() -> Vec<&'static str> {
    vec![
        "",
        "   ",
        "one",
        "hello world foo",
        "  leading and trailing  ",
        "tabs\tand\nnewlines\r\nmixed   with    runs",
        "a bb ccc dddd eeeee ffffff ggggggg hhhhhhhh",
        "supercalifragilisticexpialidocious is quite a long word to say",
        "h\u{e9}llo w\u{f6}rld na\u{ef}ve caf\u{e9}",
        "wide\u{3000}space and\u{a0}no-break and\u{2003}em",
    ]
}

#[test]
fn empty_text_has_no_chunks() {
    assert_eq!(chunk("", 10), Vec::<String>::new());
}

#[test]
fn whitespace_only_text_has_no_chunks() {
    assert_eq!(chunk(" \t\n\r  ", 10), Vec::<String>::new());
}

#[test]
fn a_word_counts_its_length_plus_one() {
    assert_eq!(chunk("hello world foo", 11), vec!["hello", "world foo"]);
}

#[test]
fn two_words_share_a_chunk_when_both_counts_fit() {
    assert_eq!(chunk("hello world foo", 12), vec!["hello world", "foo"]);
}

#[test]
fn a_run_that_counts_exactly_the_budget_fits() {
    assert_eq!(chunk("ab cd", 6), vec!["ab cd"]);
    assert_eq!(chunk("ab cd", 5), vec!["ab", "cd"]);
}

#[test]
fn a_single_word_fills_a_chunk() {
    assert_eq!(chunk("word", 4), vec!["word"]);
    assert_eq!(chunk("word", 100), vec!["word"]);
}

#[test]
fn an_oversized_word_is_a_chunk_by_itself() {
    assert_eq!(
        chunk("a supercalifragilistic b", 5),
        vec!["a", "supercalifragilistic", "b"]
    );
}

#[test]
fn an_oversized_word_is_not_split() {
    assert_eq!(chunk("abcdefghij", 3), vec!["abcdefghij"]);
}

#[test]
fn a_budget_of_zero_puts_every_word_alone() {
    assert_eq!(chunk("a b c", 0), vec!["a", "b", "c"]);
}

#[test]
fn a_budget_of_one_puts_every_word_alone() {
    assert_eq!(chunk("a b c", 1), vec!["a", "b", "c"]);
}

#[test]
fn a_huge_budget_takes_the_whole_text() {
    assert_eq!(
        chunk("  the quick\tbrown\nfox ", usize::MAX),
        vec!["the quick brown fox"]
    );
}

#[test]
fn runs_of_whitespace_collapse_to_one_space() {
    assert_eq!(chunk("a \t\n  b", 10), vec!["a b"]);
}

#[test]
fn length_is_counted_in_characters() {
    // Two words of five characters each, seven bytes each.
    assert_eq!(chunk("h\u{e9}\u{e9}lo w\u{f6}\u{f6}ld", 12).len(), 1);
    assert_eq!(chunk("h\u{e9}\u{e9}lo w\u{f6}\u{f6}ld", 11).len(), 2);
}

#[test]
fn unicode_whitespace_separates_words() {
    assert_eq!(chunk("a\u{3000}b\u{85}c\u{a0}d", 1), vec!["a", "b", "c", "d"]);
}

#[test]
fn rejoined_chunks_are_the_normalized_text() {
    for text in sample_texts() {
        let normalized = text.split_whitespace().collect::<Vec<_>>().join(" ");
        for max_length in [0usize, 1, 2, 3, 5, 8, 11, 12, 20, 1024] {
            assert_eq!(chunk(text, max_length).join(" "), normalized);
        }
    }
}

#[test]
fn every_chunk_is_within_the_budget_or_one_oversized_word() {
    for text in sample_texts() {
        for max_length in [0usize, 1, 2, 3, 5, 8, 11, 12, 20, 1024] {
            for piece in chunk(text, max_length) {
                let length = piece.chars().count();
                let one_word = !piece.chars().any(char::is_whitespace);
                assert!(length > 0);
                assert!(length <= max_length || one_word);
            }
        }
    }
}

#[test]
fn chunks_of_several_words_leave_room_for_a_space() {
    for text in sample_texts() {
        for max_length in [3usize, 5, 8, 11, 12, 20] {
            for piece in chunk(text, max_length) {
                if piece.contains(' ') {
                    assert!(piece.chars().count() + 1 <= max_length);
                }
            }
        }
    }
}

#[test]
fn chunks_agree_with_the_counter() {
    for text in sample_texts() {
        for max_length in 0usize..40 {
            assert_eq!(chunk(text, max_length), chunk_by_counter(text, max_length));
        }
    }
}

#[test]
fn no_chunks_exactly_when_no_words() {
    for text in sample_texts() {
        let wordless = text.split_whitespace().next().is_none();
        assert_eq!(chunk(text, 7).is_empty(), wordless);
    }
}

#[test]
fn whitespace_is_unicode_white_space() {
    let mut code = 0u32;
    while code <= 0x10FFFF {
        if let Some(c) = char::from_u32(code) {
            assert_eq!(is_whitespace_char(c), c.is_whitespace(), "U+{:04X}", code);
        }
        code += 1;
    }
}

#[test]
fn words_are_the_whitespace_free_runs() {
    for text in sample_texts() {
        let words: Vec<String> = split_words(text)
            .into_iter()
            .map(|word| word.into_iter().collect())
            .collect();
        let expected: Vec<String> = text.split_whitespace().map(String::from).collect();
        assert_eq!(words, expected);
    }
}

#[test]
fn split_words_keeps_order_and_drops_whitespace() {
    assert_eq!(
        split_words(" ab\tc "),
        vec![vec!['a', 'b'], vec!['c']]
    );
}

#[test]
fn chars_of_lists_the_characters() {
    assert_eq!(chars_of("a\u{e9}b"), vec!['a', '\u{e9}', 'b']);
    assert_eq!(chars_of(""), Vec::<char>::new());
}

#[test]
fn join_strings_puts_the_separator_between() {
    let parts = vec!["a".to_string(), "b".to_string(), "c".to_string()];
    assert_eq!(join_strings(&parts, ", "), "a, b, c");
    assert_eq!(join_strings(&parts[..1].to_vec(), ", "), "a");
    assert_eq!(join_strings(&Vec::new(), ", "), "");
}

#[test]
fn group_chunks_takes_words_as_they_are() {
    let words = vec![vec!['h', 'i'], vec!['y', 'o', 'u'], vec!['a']];
    assert_eq!(group_chunks(&words, 7), vec!["hi you", "a"]);
    assert_eq!(group_chunks(&words, 9), vec!["hi you a"]);
    assert_eq!(group_chunks(&Vec::new(), 9), Vec::<String>::new());
}
