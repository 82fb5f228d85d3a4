use yomichan_mobile::router::{
    LeaveEffects, Page, Platform, Router, ScreenContent, StatusBarContentStyle, ThemeSurfaces,
    BASE,
};
use yomichan_mobile::screen::Screen;

#[test]
fn new_router_starts_on_search() {
    let r = Router::new(Platform::Other);
    assert_eq!(r.current_screen, Screen::Search);
    assert!(r.history.is_empty());
    assert_eq!(r.tap_count, 0);
    assert!(r.dark_mode);
    assert_eq!(r.user_name, "Mobile");
    assert!(!r.can_go_back());
    assert_eq!(Router::new(Platform::Ios).user_name, "iOS");
    assert_eq!(Router::new(Platform::Android).user_name, "Android");
}

#[test]
fn initial_screen_off_the_tab_bar_can_go_back_home() {
    let mut r = Router::with_initial_screen(Screen::VideoPlayer, Platform::Other);
    assert_eq!(r.history, vec![Screen::Home]);
    assert!(r.can_go_back());
    let fx = r.go_back();
    assert_eq!(fx, Some(LeaveEffects { pause_audio: false, dismiss_input: true }));
    assert_eq!(r.current_screen, Screen::Home);
    assert!(!r.can_go_back());

    let r = Router::with_initial_screen(Screen::Settings, Platform::Other);
    assert!(r.history.is_empty());
}

#[test]
fn back_undoes_navigation_off_the_tab_bar() {
    let mut r = Router::new(Platform::Other);
    assert!(r.navigate_to(Screen::Anki).is_some());
    assert!(r.history.is_empty());
    assert!(r.navigate_to(Screen::AnkiSettings).is_some());
    assert_eq!(r.history, vec![Screen::Anki]);
    assert!(r.can_go_back());
    assert!(r.navigate_to(Screen::Chat).is_some());
    assert_eq!(r.history, vec![Screen::Anki, Screen::AnkiSettings]);
    assert!(r.go_back().is_some());
    assert_eq!(r.current_screen, Screen::AnkiSettings);
    assert_eq!(r.history, vec![Screen::Anki]);
    assert!(r.go_back().is_some());
    assert_eq!(r.current_screen, Screen::Anki);
    assert!(r.history.is_empty());
    assert!(!r.can_go_back());
    assert_eq!(r.go_back(), None);
    assert_eq!(r.current_screen, Screen::Anki);
}

#[test]
fn tab_roots_clear_history() {
    let mut r = Router::new(Platform::Other);
    r.navigate_to(Screen::Home);
    r.navigate_to(Screen::Counter);
    assert_eq!(r.history.len(), 2);
    r.navigate_to(Screen::Dictionaries);
    assert!(r.history.is_empty());
    assert!(!r.can_go_back());
}

#[test]
fn navigating_to_the_current_screen_does_nothing() {
    let mut r = Router::new(Platform::Other);
    r.navigate_to(Screen::Home);
    assert_eq!(r.navigate_to(Screen::Home), None);
    assert_eq!(r.history, vec![Screen::Search]);
}

#[test]
fn leaving_audio_player_pauses_it() {
    let mut r = Router::new(Platform::Other);
    r.navigate_to(Screen::AudioPlayer);
    assert_eq!(
        r.navigate_to(Screen::Feed),
        Some(LeaveEffects { pause_audio: true, dismiss_input: true })
    );
    r.navigate_to(Screen::AudioPlayer);
    assert_eq!(r.go_back(), Some(LeaveEffects { pause_audio: true, dismiss_input: true }));
}

#[test]
fn chrome_style() {
    let theme = ThemeSurfaces { surface: 0x111111, surface_container: 0x222222 };
    let mut r = Router::new(Platform::Other);
    let s = r.system_chrome_style(theme);
    assert_eq!(s.status_bar_color, Some(0x111111));
    assert_eq!(s.navigation_bar_color, Some(0x222222));
    assert_eq!(s.status_bar_style, StatusBarContentStyle::Light);
    r.navigate_to(Screen::Anki);
    assert_eq!(r.system_chrome_style(theme).navigation_bar_color, Some(0x222222));
    r.toggle_dark_mode();
    assert!(!r.dark_mode);
    r.navigate_to(Screen::AnkiSettings);
    let s = r.system_chrome_style(theme);
    assert_eq!(s.navigation_bar_color, Some(0x111111));
    assert_eq!(s.status_bar_style, StatusBarContentStyle::Dark);
    r.navigate_to(Screen::Shaders);
    assert!(r.is_fullscreen_demo());
    let s = r.system_chrome_style(theme);
    assert_eq!(s.status_bar_color, Some(BASE));
    assert_eq!(s.navigation_bar_color, Some(BASE));
    assert_eq!(s.status_bar_style, StatusBarContentStyle::Light);
}

#[test]
fn content_and_tab_bar() {
    let mut r = Router::new(Platform::Other);
    assert!(r.shows_tab_bar());
    assert_eq!(r.current_content(), ScreenContent::Scrollable(Page::Search));
    let items = r.tab_bar_items();
    assert_eq!(items.len(), 5);
    let labels: Vec<&str> = items.iter().map(|i| i.label).collect();
    assert_eq!(labels, vec!["Search", "Dicts", "Anki", "Settings", "About"]);
    assert_eq!(items[2].icon, "\u{26e9}");
    assert!(items[0].selected);
    assert!(!items[2].selected);
    r.navigate_to(Screen::Anki);
    assert!(r.shows_tab_bar());
    assert!(r.tab_bar_items()[2].selected);
    assert_eq!(r.current_content(), ScreenContent::Scrollable(Page::Anki));
    r.navigate_to(Screen::AnkiSettings);
    assert!(!r.shows_tab_bar());
    r.navigate_to(Screen::Animations);
    assert_eq!(r.current_content(), ScreenContent::AnimationDemo);
    r.navigate_to(Screen::Shaders);
    assert_eq!(r.current_content(), ScreenContent::ShaderDemo);
    r.navigate_to(Screen::Chat);
    assert_eq!(r.current_content(), ScreenContent::Scrollable(Page::Showcase(Screen::Chat)));
    r.navigate_to(Screen::Home);
    assert_eq!(r.current_content(), ScreenContent::Scrollable(Page::Showcase(Screen::Home)));
}

#[test]
fn counter_and_user_name() {
    let mut r = Router::new(Platform::Other);
    r.tap_count = 7;
    r.reset_tap_count();
    assert_eq!(r.tap_count, 0);
    r.set_user_name("Kana".to_string());
    assert_eq!(r.user_name, "Kana");
}
