use yomichan_mobile::anki_settings::{
    AnkiField, AnkiSettingsState, AnkiTermFieldType, FetchedAnkiData, FieldIndex,
};

fn fields(names: &[&str]) -> Vec<String> {
    names.iter().map(|s| s.to_string()).collect()
}

fn loaded(model_fields: &[&str], mappings: Vec<AnkiTermFieldType>) -> AnkiSettingsState {
    let mut s = AnkiSettingsState::new();
    s.refresh_anki_data(FetchedAnkiData {
        deck_names: fields(&["Default", "Japanese"]),
        model_names: fields(&["Basic", "Vocab"]),
        selected_deck: Some(1),
        selected_model: Some(0),
        model_fields: fields(model_fields),
        existing_mappings: mappings,
    });
    s
}

#[test]
fn new_state_is_loading() {
    let s = AnkiSettingsState::new();
    assert!(s.loading);
    assert!(s.model_fields.is_empty());
    assert_eq!(s.deck_label(), "Select Deck");
    assert_eq!(s.model_label(), "Select Model");
}

#[test]
fn refresh_applies_stored_bindings() {
    let s = loaded(
        &["Front", "Back", "Audio"],
        vec![
            AnkiTermFieldType::Term("Front".to_string()),
            AnkiTermFieldType::Definition("Back".to_string()),
            AnkiTermFieldType::Image("Missing".to_string()),
        ],
    );
    assert!(!s.loading);
    assert_eq!(s.field_mappings, vec![Some(AnkiField::Term), Some(AnkiField::Definition), None]);
    assert_eq!(s.field_dropdowns_open, vec![false, false, false]);
    assert_eq!(s.deck_label(), "Japanese");
    assert_eq!(s.model_label(), "Basic");
    assert_eq!(s.mapping_label(0), "Term");
    assert_eq!(s.mapping_label(2), "None");
}

#[test]
fn later_bindings_win_and_duplicates_bind_the_first_field() {
    let s = loaded(
        &["A", "A", "B"],
        vec![
            AnkiTermFieldType::Term("A".to_string()),
            AnkiTermFieldType::Reading("A".to_string()),
            AnkiTermFieldType::TermAudio("B".to_string()),
        ],
    );
    assert_eq!(s.field_mappings, vec![Some(AnkiField::Reading), None, Some(AnkiField::TermAudio)]);
    assert_eq!(s.mapping_label(2), "TermAudio");
}

#[test]
fn selection_labels_past_the_lists_fall_back() {
    let mut s = loaded(&[], vec![]);
    s.select_deck(7);
    assert_eq!(s.selected_deck, Some(7));
    assert_eq!(s.deck_label(), "Select Deck");
}

#[test]
fn set_mapping_and_save() {
    let mut s = loaded(&["Front", "Back", "Extra"], vec![]);
    s.toggle_field_dropdown(1);
    assert_eq!(s.field_dropdowns_open, vec![false, true, false]);
    s.set_mapping(1, AnkiField::Sentence);
    assert_eq!(s.field_dropdowns_open, vec![false, false, false]);
    s.set_mapping(2, AnkiField::Frequency);
    s.set_mapping(9, AnkiField::Image);
    assert_eq!(s.field_mappings, vec![None, Some(AnkiField::Sentence), Some(AnkiField::Frequency)]);
    assert_eq!(s.save_settings(), vec![FieldIndex::Sentence(1), FieldIndex::Frequency(2)]);
}

#[test]
fn saved_mapping_reloads() {
    let mut s = loaded(&["Word", "Kana", "Meaning", "Sound"], vec![]);
    s.set_mapping(0, AnkiField::Term);
    s.set_mapping(1, AnkiField::Reading);
    s.set_mapping(3, AnkiField::TermAudio);
    let saved = s.save_settings();
    let stored: Vec<AnkiTermFieldType> = saved
        .iter()
        .map(|f| match *f {
            FieldIndex::Term(i) => AnkiTermFieldType::Term(s.model_fields[i].clone()),
            FieldIndex::Reading(i) => AnkiTermFieldType::Reading(s.model_fields[i].clone()),
            FieldIndex::Sentence(i) => AnkiTermFieldType::Sentence(s.model_fields[i].clone()),
            FieldIndex::Definition(i) => AnkiTermFieldType::Definition(s.model_fields[i].clone()),
            FieldIndex::TermAudio(i) => AnkiTermFieldType::TermAudio(s.model_fields[i].clone()),
            FieldIndex::SentenceAudio(i) => {
                AnkiTermFieldType::SentenceAudio(s.model_fields[i].clone())
            }
            FieldIndex::Image(i) => AnkiTermFieldType::Image(s.model_fields[i].clone()),
            FieldIndex::Frequency(i) => AnkiTermFieldType::Frequency(s.model_fields[i].clone()),
        })
        .collect();
    let before = s.field_mappings.clone();
    let mut reloaded = loaded(&["Word", "Kana", "Meaning", "Sound"], vec![]);
    reloaded.apply_existing_mappings(stored);
    assert_eq!(reloaded.field_mappings, before);
}

#[test]
fn select_model_replaces_fields() {
    let mut s = loaded(&["Front"], vec![]);
    s.toggle_model_dropdown();
    assert!(s.model_dropdown_open);
    s.select_model(
        1,
        fields(&["Expression", "Meaning"]),
        vec![AnkiTermFieldType::Definition("Meaning".to_string())],
    );
    assert_eq!(s.selected_model, Some(1));
    assert!(!s.model_dropdown_open);
    assert_eq!(s.field_mappings, vec![None, Some(AnkiField::Definition)]);
    assert_eq!(s.field_dropdowns_open, vec![false, false]);
    assert_eq!(s.model_label(), "Vocab");
}

#[test]
fn deck_dropdown() {
    let mut s = loaded(&[], vec![]);
    s.toggle_deck_dropdown();
    assert!(s.deck_dropdown_open);
    s.select_deck(0);
    assert!(!s.deck_dropdown_open);
    assert_eq!(s.deck_label(), "Default");
}

#[test]
fn menu_of_field_kinds() {
    let menu = AnkiField::available_fields();
    let labels: Vec<&str> = menu.iter().map(|m| m.0).collect();
    assert_eq!(
        labels,
        vec!["Term", "Reading", "Sentence", "Definition", "Term Audio", "Sentence Audio", "Image", "Frequency"]
    );
    assert_eq!(menu[5].1, AnkiField::SentenceAudio);
    assert_eq!(AnkiField::SentenceAudio.kind_name(), "SentenceAudio");
    assert_eq!(format!("{:?}", AnkiField::SentenceAudio), AnkiField::SentenceAudio.kind_name());
}
