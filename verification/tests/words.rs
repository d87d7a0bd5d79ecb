use wordcount::{analyze_text, count_unique, tokenize, WordSet};

fn strings(words: &[&str]) -> Vec<String> {
    words.iter().map(|w| w.to_string()).collect()
}

#[test]
fn words_come_in_order_and_in_lowercase() {
    assert_eq!(tokenize("Hello, World!"), strings(&["hello", "world"]));
    assert_eq!(tokenize("The quick BROWN fox"), strings(&["the", "quick", "brown", "fox"]));
}

#[test]
fn no_text_no_words() {
    assert!(tokenize("").is_empty());
    let report = analyze_text("empty.txt", "");
    assert_eq!(report.record.total_words, 0);
    assert_eq!(report.record.unique_words, 0);
}

#[test]
fn separators_alone_give_no_words() {
    assert!(tokenize(" \t\n").is_empty());
    assert!(tokenize("1234 5678").is_empty());
    assert!(tokenize("?!... --- ***").is_empty());
}

#[test]
fn every_other_character_separates() {
    assert_eq!(tokenize("word2vec"), strings(&["word", "vec"]));
    assert_eq!(tokenize("don't"), strings(&["don", "t"]));
    assert_eq!(tokenize("snake_case-and.dots"), strings(&["snake", "case", "and", "dots"]));
    assert_eq!(tokenize("a,b;c"), strings(&["a", "b", "c"]));
    assert_eq!(tokenize("tab\tnew\nline"), strings(&["tab", "new", "line"]));
}

#[test]
fn a_separator_splits_a_text_in_two() {
    let before = "one two";
    let behind = "three";
    for separator in [' ', ',', '7', '\n', '_'] {
        let whole = format!("{}{}{}", before, separator, behind);
        let mut parts = tokenize(before);
        parts.extend(tokenize(behind));
        assert_eq!(tokenize(&whole), parts);
    }
}

#[test]
fn runs_at_both_ends_count() {
    assert_eq!(tokenize("start middle end"), strings(&["start", "middle", "end"]));
    assert_eq!(tokenize("  padded  "), strings(&["padded"]));
    assert_eq!(tokenize("x"), strings(&["x"]));
}

#[test]
fn letters_of_other_scripts_are_letters() {
    assert_eq!(tokenize("Émile ÉTÉ naïve"), strings(&["émile", "été", "naïve"]));
    assert_eq!(tokenize("ΑΒΓ δ"), strings(&["αβγ", "δ"]));
    assert_eq!(tokenize("日本語 テキスト"), strings(&["日本語", "テキスト"]));
}

#[test]
fn lowercase_may_change_the_length() {
    assert_eq!(tokenize("İstanbul"), strings(&["i\u{307}stanbul"]));
}

#[test]
fn case_is_ignored_when_counting() {
    let report = analyze_text("case.txt", "hello hello HELLO");
    assert_eq!(report.record.total_words, 3);
    assert_eq!(report.record.unique_words, 1);
    assert_eq!(report.words, strings(&["hello", "hello", "hello"]));
}

#[test]
fn report_holds_path_counts_and_words() {
    let report = analyze_text("poem.txt", "A rose is a rose");
    assert_eq!(report.record.file_path, "poem.txt");
    assert_eq!(report.record.total_words, 5);
    assert_eq!(report.record.unique_words, 3);
    assert_eq!(report.words, strings(&["a", "rose", "is", "a", "rose"]));
}

#[test]
fn unique_is_below_total_and_equal_without_repeats() {
    for (text, repeats) in [("a b c", false), ("a b a", true), ("", false), ("Go go", true)] {
        let report = analyze_text("t.txt", text);
        assert!(report.record.unique_words <= report.record.total_words);
        assert_eq!(report.record.unique_words == report.record.total_words, !repeats);
    }
}

#[test]
fn different_words_are_counted_once() {
    assert_eq!(count_unique(&strings(&[])), 0);
    assert_eq!(count_unique(&strings(&["a"])), 1);
    assert_eq!(count_unique(&strings(&["a", "b", "a", "c", "b"])), 3);
    assert_eq!(count_unique(&strings(&["a", "A"])), 2);
}

#[test]
fn word_set_holds_each_word_once() {
    let mut set = WordSet::new();
    assert!(set.is_empty());
    assert_eq!(set.len(), 0);
    assert!(set.insert("one".to_string()));
    assert!(set.insert("two".to_string()));
    assert!(!set.insert("one".to_string()));
    assert_eq!(set.len(), 2);
    assert!(set.contains("one"));
    assert!(!set.contains("three"));
    assert!(!set.is_empty());
}

#[test]
fn word_set_takes_many_words() {
    let mut set = WordSet::new();
    set.extend(&strings(&["a", "b", "a"]));
    set.extend(&strings(&["b", "c"]));
    assert_eq!(set.len(), 3);
    for word in ["a", "b", "c"] {
        assert!(set.contains(word));
    }
}

/// The words of `text` by the standard library's splitting.
fn split_by_std(text: &str) -> Vec<String> {
    text.split(|c: char| !c.is_alphabetic())
        .filter(|s| !s.is_empty())
        .map(|s| s.to_lowercase())
        .collect()
}

#[test]
fn words_agree_with_splitting_at_every_separator() {
    let texts = [
        "",
        " ",
        "a",
        "Hello, World!",
        "word2vec and GPT-4o",
        "  leading and trailing  ",
        "MiXeD CaSe WoRdS",
        "tabs\tand\nnewlines\r\n",
        "Ünïcödé ÀÉÎÕÜ straße ΣΊΣΥΦΟΣ",
        "emoji 😀 between 😀words",
        "Ⅷ roman ² superscript ½",
        "x1y2z3",
        "__init__.py",
        "i̇stanbul İSTANBUL",
    ];
    for text in texts {
        assert_eq!(tokenize(text), split_by_std(text), "{:?}", text);
    }
}

#[test]
fn every_ascii_character_is_a_letter_or_separates() {
    for code in 0u8..128 {
        let c = code as char;
        let text = format!("a{}b", c);
        let words = tokenize(&text);
        if c.is_ascii_alphabetic() {
            assert_eq!(words.len(), 1, "{:?}", c);
        } else {
            assert_eq!(words, strings(&["a", "b"]), "{:?}", c);
        }
    }
}
