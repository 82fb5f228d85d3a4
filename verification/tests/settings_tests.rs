use yomichan_mobile::settings::{
    classify_key_input, profile_initial, AddProfileOutcome, KeyInput, ProfileList, SettingsState,
};

fn profiles(names: &[&str], current: usize) -> ProfileList {
    ProfileList { names: names.iter().map(|s| s.to_string()).collect(), current }
}

#[test]
fn switching_profiles() {
    let mut p = profiles(&["Default", "Work"], 0);
    assert!(SettingsState::switch_profile(&mut p, "Work"));
    assert_eq!(p.current, 1);
    assert!(!SettingsState::switch_profile(&mut p, "Nope"));
    assert_eq!(p.current, 1);
    assert_eq!(p.current_profile_name(), "Work");
}

#[test]
fn adding_profiles() {
    let mut s = SettingsState::new();
    s.set_add_profile_modal(true);
    let mut p = profiles(&["Default"], 0);
    assert_eq!(s.add_profile(&mut p), AddProfileOutcome::EmptyName);
    assert!(s.show_add_profile_modal);
    enter_profile_name(&mut s, "Default");
    assert_eq!(s.add_profile(&mut p), AddProfileOutcome::AlreadyExists);
    assert!(!s.show_add_profile_modal);
    assert_eq!(s.new_profile_name.text, "");
    assert_eq!(s.new_profile_name.cursor, 0);
    assert_eq!(p.names.len(), 1);
    s.set_add_profile_modal(true);
    enter_profile_name(&mut s, "Study");
    assert_eq!(s.add_profile(&mut p), AddProfileOutcome::Created { index: 1, copy_of: Some(0) });
    assert_eq!(s.new_profile_name.text, "");
    assert_eq!(s.new_profile_name.cursor, 0);
    assert_eq!(p.names, vec!["Default".to_string(), "Study".to_string()]);
    assert_eq!(p.current, 1);
    assert!(!s.show_add_profile_modal);
    let mut q = profiles(&["A"], 5);
    enter_profile_name(&mut s, "B");
    assert_eq!(s.add_profile(&mut q), AddProfileOutcome::Created { index: 1, copy_of: None });
}

fn enter_profile_name(s: &mut SettingsState, name: &str) {
    s.new_profile_name.text = name.to_string();
    s.new_profile_name.cursor = name.len();
}

#[test]
fn current_profile_name_defaults() {
    assert_eq!(profiles(&[], 0).current_profile_name(), "Default");
    assert_eq!(profiles(&["X"], 3).current_profile_name(), "Default");
}

#[test]
fn initials() {
    assert_eq!(profile_initial("Work"), 'W');
    assert_eq!(profile_initial("日本"), '日');
    assert_eq!(profile_initial(""), 'P');
}

#[test]
fn key_input() {
    assert_eq!(classify_key_input("\x08"), KeyInput::Backspace);
    assert_eq!(classify_key_input("\n"), KeyInput::Newline);
    assert_eq!(classify_key_input("a"), KeyInput::Text);
    assert_eq!(classify_key_input("\n\n"), KeyInput::Text);
    assert_eq!(classify_key_input(""), KeyInput::Text);
}

#[test]
fn dropdown() {
    let mut s = SettingsState::new();
    s.toggle_profile_dropdown();
    assert!(s.profile_dropdown_open);
    s.close_profile_dropdown();
    assert!(!s.profile_dropdown_open);
}
