use yomichan_mobile::anki::{
    draft_list, empty_drafts_message, first_headword_text, AnkiRouter, DraftList, HeadwordText,
};
use yomichan_mobile::dictionaries::{
    CardControl, DictionariesState, DictionaryAction, DictionarySetting,
};
use yomichan_mobile::router::{Platform, Router};
use yomichan_mobile::screen::Screen;

fn dicts() -> Vec<DictionarySetting> {
    vec![
        DictionarySetting { name: "JMdict".into(), enabled: true },
        DictionarySetting { name: "Kanjium".into(), enabled: false },
        DictionarySetting { name: "JMdict".into(), enabled: true },
    ]
}

#[test]
fn toggle_first_matching_dictionary() {
    let _state = DictionariesState::new();
    let mut d = dicts();
    assert_eq!(DictionariesState::toggle_dictionary_enabled(&mut d, "JMdict", false), Some(0));
    assert!(!d[0].enabled);
    assert!(d[2].enabled);
    assert_eq!(DictionariesState::toggle_dictionary_enabled(&mut d, "Kanjium", true), Some(1));
    assert!(d[1].enabled);
    assert_eq!(DictionariesState::toggle_dictionary_enabled(&mut d, "None", true), None);
    assert_eq!(d.len(), 3);
}

#[test]
fn toggling_back_restores() {
    let mut d = dicts();
    DictionariesState::toggle_dictionary_enabled(&mut d, "Kanjium", true);
    DictionariesState::toggle_dictionary_enabled(&mut d, "Kanjium", false);
    let flags: Vec<bool> = d.iter().map(|x| x.enabled).collect();
    assert_eq!(flags, vec![true, false, true]);
}

#[test]
fn labels_and_languages() {
    assert_eq!(DictionariesState::enabled_label(true), "ON");
    assert_eq!(DictionariesState::enabled_label(false), "OFF");
    let chips = DictionariesState::language_chips("en");
    assert_eq!(chips.len(), 3);
    assert_eq!((chips[0].label, chips[0].iso, chips[0].active), ("Japanese", "ja", false));
    assert_eq!((chips[1].label, chips[1].iso, chips[1].active), ("English", "en", true));
    assert_eq!((chips[2].label, chips[2].iso, chips[2].active), ("Spanish", "es", false));
}

#[test]
fn push_report() {
    let mut a = AnkiRouter::new();
    assert!(!a.pushing);
    assert_eq!(a.push_button_label(), "Push to Anki");
    assert!(a.push_disabled(0));
    assert!(!a.push_disabled(2));
    a.begin_push();
    assert!(a.pushing);
    assert_eq!(a.push_button_label(), "Pushing...");
    assert!(a.push_disabled(2));
    let report = a.finish_push(vec![Ok(()), Err("duplicate".to_string()), Ok(())]);
    assert!(!a.pushing);
    assert_eq!(report.success_count, 2);
    assert_eq!(report.errors, vec!["duplicate".to_string()]);
    assert!(!report.clear_drafts);
    assert_eq!(report.success_count + report.errors.len(), 3);
    let report = a.finish_push(vec![Ok(()), Ok(())]);
    assert_eq!(report.success_count, 2);
    assert!(report.errors.is_empty());
    assert!(report.clear_drafts);
    assert!(a.finish_push(vec![]).clear_drafts);
}

fn hw(term: &str, reading: &str) -> HeadwordText {
    HeadwordText { term: term.to_string(), reading: reading.to_string() }
}

#[test]
fn draft_rows() {
    assert!(matches!(draft_list(&vec![]), DraftList::Empty));
    assert_eq!(empty_drafts_message(), "No drafts yet. Go to Search to add some!");
    let drafts = vec![vec![hw("猫", "ねこ"), hw("ネコ", "ねこ")], vec![], vec![hw("犬", "いぬ")]];
    match draft_list(&drafts) {
        DraftList::Rows(rows) => {
            let shown: Vec<(&str, &str)> =
                rows.iter().map(|r| (r.reading.as_str(), r.term.as_str())).collect();
            assert_eq!(shown, vec![("ねこ", "猫"), ("", ""), ("いぬ", "犬")]);
        }
        DraftList::Empty => panic!("drafts were given"),
    }
    let first = first_headword_text(&vec![hw("a", "b")]);
    assert_eq!((first.reading.as_str(), first.term.as_str()), ("b", "a"));
}

#[test]
fn card_actions() {
    let d = DictionarySetting { name: "JMdict".into(), enabled: true };
    match DictionariesState::card_action(&d, CardControl::EnabledBadge) {
        DictionaryAction::SetEnabled { name, enabled } => {
            assert_eq!(name, "JMdict");
            assert!(!enabled);
        }
        other => panic!("unexpected {:?}", other),
    }
    match DictionariesState::card_action(&d, CardControl::Remove) {
        DictionaryAction::Remove { name } => assert_eq!(name, "JMdict"),
        other => panic!("unexpected {:?}", other),
    }
}

#[test]
fn settings_icon_opens_anki_settings() {
    let mut r = Router::new(Platform::Other);
    r.navigate_to(Screen::Anki);
    assert!(AnkiRouter::open_settings(&mut r).is_some());
    assert_eq!(r.current_screen, Screen::AnkiSettings);
    assert_eq!(r.history, vec![Screen::Anki]);
    assert!(AnkiRouter::open_settings(&mut r).is_none());
}
