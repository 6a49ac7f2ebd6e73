use lexicon_reaper::definitions::{
    abbreviate_pos, definition_from_entries, format_definition, DefinitionCache, DictEntry, Meaning, Sense,
};
use lexicon_reaper::dictionary::Dictionary;
use lexicon_reaper::text::{str_eq, text_contains};
use lexicon_reaper::trie::Trie;

#[test]
fn trie_finds_inserted_words_and_their_prefixes() {
    let mut t = Trie::new();
    t.insert("CAT");
    t.insert("CATS");
    assert!(t.contains("CAT"));
    assert!(t.contains("CATS"));
    assert!(t.is_prefix("CATS"));
    assert!(!t.contains("CA"));
    assert!(t.is_prefix("CA"));
    assert!(t.is_prefix(""));
    assert!(!t.is_prefix("DOG"));
}

#[test]
fn trie_ignores_case_of_letters() {
    let mut t = Trie::new();
    t.insert("dog");
    assert!(t.contains("DOG"));
    assert!(t.contains("dog"));
}

#[test]
fn trie_does_not_store_words_with_other_characters() {
    let mut t = Trie::new();
    t.insert("AB-C");
    assert!(!t.contains("AB-C"));
    assert!(t.is_prefix("AB"));
    assert!(!t.contains("AB"));
}

#[test]
fn dictionary_cleans_its_word_list() {
    let d = Dictionary::new("cat\n  Dogs \nab\nbird\nx-ray\n\nfish");
    assert!(d.is_word("CAT"));
    assert!(d.is_word("cat"));
    assert!(d.is_word("dogs"));
    assert!(d.is_word("BIRD"));
    assert!(d.is_word("Fish"));
    assert!(!d.is_word("AB"));
    assert!(!d.is_word("X-RAY"));
    assert!(!d.is_word("COW"));
    assert_eq!(d.word_count(), 4);
}

#[test]
fn dictionary_counts_a_repeated_word_once() {
    let d = Dictionary::new("cat\nCAT\ncat\n");
    assert_eq!(d.word_count(), 1);
}

#[test]
fn dictionary_prefixes() {
    let d = Dictionary::new("reaper\nread");
    assert!(d.is_prefix("rea"));
    assert!(d.is_prefix("REAP"));
    assert!(d.is_prefix(""));
    assert!(!d.is_prefix("rex"));
}

#[test]
fn a_definition_is_requested_once_and_found_when_complete() {
    let mut c = DefinitionCache::new();
    assert_eq!(c.get("Cat"), None);
    assert_eq!(c.request("Cat"), Some("cat".to_string()));
    assert_eq!(c.request("CAT"), None);
    assert_eq!(c.get("cat"), Some(None));
    c.complete("cat", Some("a small feline".to_string()));
    assert_eq!(c.get("CAT"), Some(Some("a small feline".to_string())));
    c.complete("dog", None);
    assert_eq!(c.get("dog"), Some(None));
}

#[test]
fn parts_of_speech_are_abbreviated() {
    assert_eq!(abbreviate_pos("noun"), "n");
    assert_eq!(abbreviate_pos("verb"), "v");
    assert_eq!(abbreviate_pos("adjective"), "adj");
    assert_eq!(abbreviate_pos("adverb"), "adv");
    assert_eq!(abbreviate_pos("pronoun"), "pron");
    assert_eq!(abbreviate_pos("preposition"), "prep");
    assert_eq!(abbreviate_pos("conjunction"), "conj");
    assert_eq!(abbreviate_pos("interjection"), "interj");
    assert_eq!(abbreviate_pos("article"), "article");
}

#[test]
fn definitions_are_shaped_and_cut() {
    assert_eq!(format_definition("noun", "a small feline"), "(n.) a small feline");
    assert_eq!(format_definition("", "plain"), "plain");
    let long = "x".repeat(80);
    let shown = format_definition("verb", &long);
    assert_eq!(shown, format!("(v.) {}...", "x".repeat(70)));
}

#[test]
fn text_search_and_comparison() {
    assert!(text_contains("  a small feline", "small"));
    assert!(text_contains("abc", ""));
    assert!(!text_contains("abc", "abcd"));
    assert!(!text_contains("abc", "bd"));
    assert!(str_eq("same", "same"));
    assert!(!str_eq("same", "Same"));
}

fn sense(text: &str) -> Sense {
    Sense { definition: Some(text.to_string()) }
}

fn entry(pos: Option<&str>, senses: Option<Vec<Sense>>) -> DictEntry {
    DictEntry { meanings: Some(vec![Meaning { part_of_speech: pos.map(|p| p.to_string()), definitions: senses }]) }
}

#[test]
fn an_answer_gives_its_first_sense() {
    let entries = vec![
        entry(Some("noun"), Some(vec![sense("a small domesticated feline"), sense("a jazz musician")])),
        entry(Some("verb"), Some(vec![sense("to vomit")])),
    ];
    assert_eq!(definition_from_entries(&entries), Some("(n.) a small domesticated feline".to_string()));
    let no_pos = vec![entry(None, Some(vec![sense("a loyal animal")]))];
    assert_eq!(definition_from_entries(&no_pos), Some("a loyal animal".to_string()));
}

#[test]
fn an_answer_without_a_sense_gives_nothing() {
    assert_eq!(definition_from_entries(&vec![]), None);
    assert_eq!(definition_from_entries(&vec![DictEntry { meanings: None }]), None);
    assert_eq!(definition_from_entries(&vec![DictEntry { meanings: Some(vec![]) }]), None);
    assert_eq!(definition_from_entries(&vec![entry(Some("noun"), None)]), None);
    assert_eq!(definition_from_entries(&vec![entry(Some("noun"), Some(vec![]))]), None);
    let blank = vec![entry(Some("noun"), Some(vec![Sense { definition: None }]))];
    assert_eq!(definition_from_entries(&blank), None);
}

#[test]
fn a_long_answer_is_cut_between_characters_or_refused() {
    let long = "x".repeat(75);
    let cut = definition_from_entries(&vec![entry(Some("adverb"), Some(vec![sense(&long)]))]);
    assert_eq!(cut, Some(format!("(adv.) {}...", "x".repeat(70))));
    let inside = format!("{}é{}", "y".repeat(69), "z".repeat(10));
    assert_eq!(definition_from_entries(&vec![entry(Some("noun"), Some(vec![sense(&inside)]))]), None);
}

#[test]
fn inserting_stores_only_words_of_letters() {
    let mut t = Trie::new();
    t.insert("dog");
    t.insert("DO-G");
    assert!(t.contains("DOG"));
    assert!(t.contains("dog"));
    assert!(!t.contains("DO"));
    assert!(!t.contains("DO-G"));
    assert!(t.is_prefix("D"));
    assert!(t.is_prefix("do"));
    assert!(!t.is_prefix("DOGS"));
    assert!(t.is_prefix(""));
}

#[test]
fn a_cache_asked_for_words_holds_them_in_flight() {
    let mut c = DefinitionCache::new();
    assert_eq!(c.get("cat"), None);
    assert_eq!(c.request("cat"), Some("cat".to_string()));
    assert_eq!(c.request("Dog"), Some("dog".to_string()));
    assert_eq!(c.request("CAT"), None);
    assert_eq!(c.get("CAT"), Some(None));
    assert_eq!(c.get("dog"), Some(None));
    assert_eq!(c.get("bird"), None);
}

#[test]
fn dictionary_lines_end_in_line_feeds_and_lose_unicode_space() {
    let d = Dictionary::new("cat\r\n\u{3000}dog\u{2003}\r\nowl\rbat\n\tbird\u{a0}\n");
    assert!(d.is_word("CAT"));
    assert!(d.is_word("DOG"));
    assert!(d.is_word("BIRD"));
    assert!(!d.is_word("OWL"));
    assert!(!d.is_word("BAT"));
    assert_eq!(d.word_count(), 3);
}

#[test]
fn a_trie_answers_prefixes_in_any_case_up_to_the_first_non_letter() {
    let mut t = Trie::new();
    t.insert("Dog-fish");
    t.insert("cat");
    assert!(t.is_prefix(""));
    assert!(t.is_prefix("DOG"));
    assert!(t.is_prefix("dO"));
    assert!(t.is_prefix("Ca"));
    assert!(!t.is_prefix("DOGF"));
    assert!(!t.is_prefix("DOG-"));
    assert!(!t.contains("DOG"));
    assert!(t.contains("CAT"));
}

#[test]
fn case_does_not_matter_to_the_cache_or_the_dictionary() {
    let mut c = DefinitionCache::new();
    assert_eq!(c.request("CaT"), Some("cat".to_string()));
    assert_eq!(c.get("cat"), Some(None));
    assert_eq!(c.get("CAT"), Some(None));
    c.complete("cat", Some("(n.) a feline".to_string()));
    assert_eq!(c.get("cAt"), Some(Some("(n.) a feline".to_string())));
    assert_eq!(c.request("CAT"), None);
    let d = Dictionary::new("Owl\nfinch");
    assert!(d.is_word("owl") && d.is_word("OWL") && d.is_word("oWl"));
    assert!(d.is_prefix("FIN") && d.is_prefix("fin"));
    assert!(d.is_prefix(""));
}
