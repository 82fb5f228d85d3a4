use std::cell::Cell;
use yomichan_mobile::search::{
    clean_search_term, entry_view_key, ResultsPanel, visible_segments, CompiledPattern, EntryViewPart,
    SearchState, SegmentChip, PUNCTUATION_PATTERN,
};

#[test]
fn cleaning_trims_and_strips_punctuation() {
    assert_eq!(clean_search_term("  ,hello!  "), "hello");
    assert_eq!(clean_search_term("食べる。"), "食べる。");
    assert_eq!(clean_search_term("[食べる]"), "食べる");
    assert_eq!(clean_search_term(", x"), " x");
    assert_eq!(clean_search_term("a-b_c~d"), "abcd");
    assert_eq!(clean_search_term("   "), "");
    assert_eq!(clean_search_term("?!"), "");
}

#[test]
fn compiled_patterns() {
    assert!(CompiledPattern::new("(").is_none());
    let p = CompiledPattern::new("a+").unwrap();
    assert_eq!(p.replace_all("caaab", "x"), "cxb");
    let punct = CompiledPattern::new(PUNCTUATION_PATTERN).unwrap();
    assert_eq!(punct.replace_all("a.b,c", ""), "abc");
}

#[test]
fn queue_search_returns_the_term_or_clears() {
    let mut s: SearchState<u32, u32> = SearchState::new();
    assert!(s.receive_results(0, Some(5)));
    let req = s.queue_search("  猫! ", false).unwrap();
    assert_eq!(req.term, "猫");
    assert!(!req.immediate);
    assert_eq!(req.ticket, 1);
    assert_eq!(s.search_results, Some(5));
    assert!(s.queue_search(" .. ", true).is_none());
    assert_eq!(s.search_serial, 2);
    assert_eq!(s.search_results, None);
}

#[test]
fn superseded_searches_never_land() {
    let mut s: SearchState<u32, u32> = SearchState::new();
    let a = s.queue_search("cat", false).unwrap();
    let b = s.queue_search("dog", true).unwrap();
    assert_ne!(a.ticket, b.ticket);
    assert!(!s.receive_results(a.ticket, Some(1)));
    assert_eq!(s.search_results, None);
    assert!(s.receive_results(b.ticket, Some(2)));
    assert_eq!(s.search_results, Some(2));
    s.search_serial = u64::MAX;
    let c = s.queue_search("x", true).unwrap();
    assert_eq!(c.ticket, 0);
}

#[test]
fn lookup_sets_the_query_and_searches_at_once() {
    let mut s: SearchState<u32, u32> = SearchState::new();
    let req = s.on_lookup("食べる").unwrap();
    assert_eq!(s.query.text, "食べる");
    assert_eq!(s.query.cursor, "食べる".len());
    assert_eq!(req.term, "食べる");
    assert!(req.immediate);
    assert_eq!(req.ticket, s.search_serial);
    assert!(s.on_lookup("!").is_none());
    assert_eq!(s.query.text, "!");
    assert_eq!(s.query.cursor, 1);
}

#[test]
fn results_select_the_first_segment() {
    let mut s: SearchState<u32, u32> = SearchState::new();
    s.receive_results(0, None);
    assert_eq!(s.selected_term_index, None);
    s.receive_results(0, Some(1));
    assert_eq!(s.selected_term_index, Some(0));
    s.select_segment(3);
    s.receive_results(0, Some(2));
    assert_eq!(s.selected_term_index, Some(3));
    s.query.text = "abc".to_string();
    s.query.cursor = 2;
    s.clear_results();
    assert_eq!(s.search_results, None);
    assert_eq!(s.selected_term_index, None);
    assert_eq!(s.query.text, "");
    assert_eq!(s.query.cursor, 0);
}

#[test]
fn views_are_cached_per_key() {
    let made = Cell::new(0u32);
    let mut s: SearchState<u32, String> = SearchState::new();
    let a = s.get_or_create_view("entry-0-term", || {
        made.set(made.get() + 1);
        "first".to_string()
    });
    let b = s.get_or_create_view("entry-0-term", || {
        made.set(made.get() + 1);
        "second".to_string()
    });
    assert_eq!(a, "first");
    assert_eq!(b, "first");
    assert_eq!(made.get(), 1);
    let c = s.get_or_create_view("entry-0-reading", || "reading".to_string());
    assert_eq!(c, "reading");
    assert_eq!(s.view_cache.get("entry-0-term"), Some(&"first".to_string()));
    s.select_segment(1);
    assert_eq!(s.view_cache.get("entry-0-term"), None);
    let d = s.get_or_create_view("entry-0-term", || "again".to_string());
    assert_eq!(d, "again");
}

#[test]
fn profile_dropdown_of_search_bar() {
    let mut s: SearchState<u32, u32> = SearchState::new();
    s.toggle_profile_dropdown();
    assert!(s.profile_dropdown_open);
    s.get_or_create_view("k", || 1);
    s.profile_picked();
    assert!(!s.profile_dropdown_open);
    assert_eq!(s.view_cache.get("k"), None);
}

#[test]
fn segment_chips_skip_blank_segments() {
    let texts: Vec<String> = vec!["猫".into(), "  ".into(), "が".into(), "".into(), "好き".into()];
    let chips = visible_segments(&texts, Some(2));
    assert_eq!(
        chips,
        vec![
            SegmentChip { index: 0, selected: false },
            SegmentChip { index: 2, selected: true },
            SegmentChip { index: 4, selected: false },
        ]
    );
    assert!(visible_segments(&vec![], None).is_empty());
}

#[test]
fn view_keys() {
    assert_eq!(entry_view_key(0, EntryViewPart::Reading), "entry-0-reading");
    assert_eq!(entry_view_key(12, EntryViewPart::Term), "entry-12-term");
    assert_eq!(
        entry_view_key(3, EntryViewPart::Gloss { definition: 10, gloss: 205 }),
        "entry-3-def-10-gloss-205"
    );
    assert_eq!(
        entry_view_key(usize::MAX, EntryViewPart::Term),
        format!("entry-{}-term", usize::MAX)
    );
}

#[test]
fn results_panel() {
    let mut s: SearchState<u32, u32> = SearchState::new();
    assert_eq!(s.results_panel(3), ResultsPanel::NoResults);
    s.receive_results(0, Some(1));
    assert_eq!(s.results_panel(3), ResultsPanel::Segment(0));
    s.select_segment(5);
    assert_eq!(s.results_panel(3), ResultsPanel::SelectWord);
    s.clear_results();
    s.search_results = Some(2);
    assert_eq!(s.results_panel(3), ResultsPanel::SelectWord);
}

#[test]
fn cache_insert_overwrites() {
    let mut s: SearchState<u32, u32> = SearchState::new();
    s.view_cache.insert("a", 1);
    s.view_cache.insert("b", 2);
    s.view_cache.insert("a", 3);
    assert_eq!(s.view_cache.get("a"), Some(&3));
    assert_eq!(s.view_cache.get("b"), Some(&2));
    assert_eq!(s.get_or_create_view("a", || 9), 3);
}

#[test]
fn view_keys_of_one_entry_differ() {
    let keys = [
        entry_view_key(1, EntryViewPart::Reading),
        entry_view_key(1, EntryViewPart::Term),
        entry_view_key(1, EntryViewPart::Gloss { definition: 1, gloss: 12 }),
        entry_view_key(1, EntryViewPart::Gloss { definition: 11, gloss: 2 }),
    ];
    for i in 0..keys.len() {
        for j in 0..keys.len() {
            assert_eq!(i == j, keys[i] == keys[j]);
        }
    }
}
