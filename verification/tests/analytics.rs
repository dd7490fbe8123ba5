use web_scraper::analytics::{
    calculate_readability_score, calculate_word_frequency, count_sentences, count_syllables,
    count_tokens, default_stop_words, detect_language, is_social_media_link, pick_language,
    readability_counts, reading_ease_thousandths, text_metrics, word_count, LanguageLists,
    Lexicon, ReadabilityCounts,
};
use web_scraper::dictionary::StringMap;

fn frequency(text: &str) -> StringMap<usize> {
    match calculate_word_frequency(text, &default_stop_words()) {
        Ok(table) => table,
        Err(e) => panic!("frequency failed: {:?}", e),
    }
}

fn count_of(table: &StringMap<usize>, word: &str) -> Option<usize> {
    table.get(&word.to_string()).copied()
}

#[test]
fn word_frequency_leaves_out_stop_words() {
    let table = frequency("the cat sat on the mat");
    assert_eq!(table.entries().len(), 3);
    assert_eq!(count_of(&table, "cat"), Some(1));
    assert_eq!(count_of(&table, "sat"), Some(1));
    assert_eq!(count_of(&table, "mat"), Some(1));
    assert_eq!(count_of(&table, "the"), None);
    assert_eq!(count_of(&table, "on"), None);
}

#[test]
fn word_frequency_counts_lowercase_forms() {
    let table = frequency("Rust rust RUST go is a b2b x_yz déjà tool-box");
    assert_eq!(count_of(&table, "rust"), Some(3));
    assert_eq!(count_of(&table, "go"), None);
    assert_eq!(count_of(&table, "b2b"), None);
    assert_eq!(count_of(&table, "yz"), None);
    assert_eq!(count_of(&table, "tool"), Some(1));
    assert_eq!(count_of(&table, "box"), Some(1));
    assert_eq!(table.entries().len(), 3);
}

#[test]
fn substituted_stop_words_are_honoured() {
    let tokens = vec!["Cat".to_string(), "dog".to_string(), "cat".to_string()];
    let stop = vec!["dog".to_string()];
    let table = count_tokens(&tokens, &stop);
    assert_eq!(count_of(&table, "cat"), Some(2));
    assert_eq!(count_of(&table, "dog"), None);
}

#[test]
fn readability_score_of_empty_text_is_zero() {
    assert_eq!(calculate_readability_score(""), 0);
    assert_eq!(calculate_readability_score("   "), 0);
    assert_eq!(calculate_readability_score("..."), 0);
}

#[test]
fn readability_score_stays_within_bounds() {
    let texts = [
        "The cat sat. The dog ran.",
        "a",
        "Incomprehensibilities notwithstanding, internationalization characteristically overcomplicates.",
        "Go. Go. Go. Go.",
        "word word word word word word word word word word word word word word word word",
    ];
    for text in texts {
        let score = calculate_readability_score(text);
        assert!(score <= 100_000, "{} scored {}", text, score);
    }
    assert_eq!(calculate_readability_score("Go. Go. Go. Go."), 100_000);
    assert_eq!(
        calculate_readability_score(
            "Incomprehensibilities notwithstanding, internationalization characteristically overcomplicates."
        ),
        0
    );
}

#[test]
fn readability_score_follows_the_formula() {
    // 6 words, 2 sentences, 6 syllables: 206.835 - 1.015 * 3 - 84.6 * 1 = 119.19, kept at 100.
    assert_eq!(calculate_readability_score("The cat sat. The dog ran."), 100_000);
    // 4 words, 1 sentence, 8 syllables: 206.835 - 4.06 - 169.2 = 33.575.
    let counts = ReadabilityCounts { sentences: 1, words: 4, syllables: 8 };
    assert_eq!(reading_ease_thousandths(&counts), 33_575);
    // 7 words, 3 sentences, 10 syllables: 206.835 - 2.368333.. - 120.857142.. = 83.609523..
    let counts = ReadabilityCounts { sentences: 3, words: 7, syllables: 10 };
    assert_eq!(reading_ease_thousandths(&counts), 83_609);
    let none = ReadabilityCounts { sentences: 0, words: 4, syllables: 8 };
    assert_eq!(reading_ease_thousandths(&none), 0);
    let huge = ReadabilityCounts { sentences: usize::MAX, words: usize::MAX, syllables: usize::MAX as u128 };
    assert_eq!(reading_ease_thousandths(&huge), 100_000);
    let long = ReadabilityCounts { sentences: 1, words: usize::MAX, syllables: usize::MAX as u128 };
    assert_eq!(reading_ease_thousandths(&long), 0);
}

#[test]
fn readability_counts_sentences_words_syllables() {
    let counts = readability_counts("The cat sat. The dog ran.");
    assert_eq!(counts, ReadabilityCounts { sentences: 2, words: 6, syllables: 6 });
    let counts = readability_counts("");
    assert_eq!(counts, ReadabilityCounts { sentences: 0, words: 0, syllables: 0 });
}

#[test]
fn sentences_are_pieces_with_text() {
    let chars = |s: &str| s.chars().collect::<Vec<char>>();
    assert_eq!(count_sentences(&chars("")), 0);
    assert_eq!(count_sentences(&chars("one")), 1);
    assert_eq!(count_sentences(&chars("one. two.")), 2);
    assert_eq!(count_sentences(&chars("one.. . two")), 2);
    assert_eq!(count_sentences(&chars(" . . ")), 0);
}

#[test]
fn syllables_are_vowel_groups() {
    assert_eq!(count_syllables("cat"), 1);
    assert_eq!(count_syllables("table"), 1);
    assert_eq!(count_syllables("readable"), 2);
    assert_eq!(count_syllables("the"), 1);
    assert_eq!(count_syllables("rhythm"), 1);
    assert_eq!(count_syllables("xyz"), 1);
    assert_eq!(count_syllables("tsk"), 1);
    assert_eq!(count_syllables("BEAUTIFUL"), 3);
    assert_eq!(count_syllables(""), 1);
    assert_eq!(count_syllables("idea"), 2);
}

#[test]
fn words_are_split_at_whitespace() {
    assert_eq!(word_count(""), 0);
    assert_eq!(word_count("   "), 0);
    assert_eq!(word_count("one"), 1);
    assert_eq!(word_count(" one\ttwo\n three\u{2003}four "), 4);
}

#[test]
fn language_of_english_markers_is_english() {
    assert_eq!(detect_language("the and for", &LanguageLists::standard()), "English");
}

#[test]
fn language_without_markers_is_unknown() {
    assert_eq!(detect_language("", &LanguageLists::standard()), "Unknown");
    assert_eq!(detect_language("zzz 123", &LanguageLists::standard()), "Unknown");
}

#[test]
fn language_is_guessed_from_substrings() {
    let lists = LanguageLists::standard();
    assert_eq!(detect_language("El perro que come en la casa", &lists), "Spanish");
    assert_eq!(detect_language("à il", &lists), "French");
    assert_eq!(detect_language("THE AND FOR", &lists), "English");
}

#[test]
fn language_ties_go_to_english_then_spanish() {
    assert_eq!(pick_language(2, 2, 2), "English");
    assert_eq!(pick_language(1, 2, 2), "Spanish");
    assert_eq!(pick_language(1, 2, 3), "French");
    assert_eq!(pick_language(0, 0, 1), "French");
    assert_eq!(pick_language(0, 0, 0), "Unknown");
    assert_eq!(pick_language(3, 2, 1), "English");
}

#[test]
fn social_links_are_found_by_substring() {
    let domains = Lexicon::standard().social_domains;
    assert!(is_social_media_link("https://www.facebook.com/page", &domains));
    assert!(is_social_media_link("https://example.org/share?u=twitter.com", &domains));
    assert!(is_social_media_link("https://t.x.com/", &domains));
    assert!(!is_social_media_link("https://example.org/", &domains));
    assert!(!is_social_media_link("", &domains));
    assert!(!is_social_media_link("https://facebook.com/", &Vec::new()));
}

#[test]
fn metrics_carry_counts_and_page_size() {
    let html = "<p>héllo</p>";
    let metrics = match text_metrics("The cat sat. The dog ran.", html, 200, &Lexicon::standard()) {
        Ok(m) => m,
        Err(e) => panic!("metrics failed: {:?}", e),
    };
    assert_eq!(metrics.word_count, 6);
    assert_eq!(metrics.reading_speed_wpm, 200);
    assert_eq!(metrics.page_size_bytes, 13);
    assert_eq!(metrics.page_size_bytes as f64 / 1024.0, html.len() as f64 / 1024.0);
    assert_eq!(metrics.word_count as f64 / metrics.reading_speed_wpm as f64, 0.03);
    assert_eq!(metrics.language, "English");
    assert_eq!(metrics.readability_score, 100_000);
    assert_eq!(count_of(&metrics.word_frequency, "cat"), Some(1));
    assert_eq!(count_of(&metrics.word_frequency, "the"), None);
}
