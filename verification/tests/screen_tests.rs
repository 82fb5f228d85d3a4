use yomichan_mobile::screen::Screen;

#[test]
fn deeplink_names_each_screen() {
    let cases = [
        ("gpui://search", Screen::Search),
        ("gpui://dictionaries", Screen::Dictionaries),
        ("gpui://settings", Screen::Settings),
        ("gpui://about", Screen::About),
        ("gpui://home", Screen::Home),
        ("gpui://counter", Screen::Counter),
        ("gpui://apple_glass", Screen::AppleGlass),
        ("gpui://appleglass", Screen::AppleGlass),
        ("gpui://material", Screen::Material),
        ("gpui://form", Screen::Form),
        ("gpui://animations", Screen::Animations),
        ("gpui://shaders", Screen::Shaders),
        ("gpui://packages", Screen::PackagesDemo),
        ("gpui://packages_demo", Screen::PackagesDemo),
        ("gpui://webview", Screen::WebViewBrowser),
        ("gpui://webview_browser", Screen::WebViewBrowser),
        ("gpui://browser", Screen::WebViewBrowser),
        ("gpui://swiper", Screen::Swiper),
        ("gpui://discover", Screen::Swiper),
        ("gpui://feed", Screen::Feed),
        ("gpui://chat", Screen::Chat),
        ("gpui://audio_player", Screen::AudioPlayer),
        ("gpui://audio", Screen::AudioPlayer),
        ("gpui://video_player", Screen::VideoPlayer),
        ("gpui://video", Screen::VideoPlayer),
        ("gpui://anki", Screen::Anki),
        ("gpui://anki_settings", Screen::AnkiSettings),
    ];
    for (url, screen) in cases {
        assert_eq!(Screen::from_deeplink_url(url), Some(screen), "{}", url);
    }
}

#[test]
fn deeplink_uses_first_segment_only() {
    assert_eq!(Screen::from_deeplink_url("gpui://video_player/foo"), Some(Screen::VideoPlayer));
    assert_eq!(Screen::from_deeplink_url("gpui://counter/a/b/c"), Some(Screen::Counter));
    assert_eq!(Screen::from_deeplink_url("gpui:///counter"), None);
}

#[test]
fn deeplink_short_scheme() {
    assert_eq!(Screen::from_deeplink_url("gpui:counter"), Some(Screen::Counter));
    assert_eq!(Screen::from_deeplink_url("gpui:settings/x"), Some(Screen::Settings));
}

#[test]
fn deeplink_case_insensitive_and_trimmed() {
    assert_eq!(Screen::from_deeplink_url("gpui://VIDEO_Player"), Some(Screen::VideoPlayer));
    assert_eq!(Screen::from_deeplink_url("gpui://  settings  "), Some(Screen::Settings));
    assert_eq!(Screen::from_deeplink_url("gpui://\u{3000}anki\t/x"), Some(Screen::Anki));
}

#[test]
fn deeplink_rejects_unknown_and_empty() {
    assert_eq!(Screen::from_deeplink_url(""), None);
    assert_eq!(Screen::from_deeplink_url("gpui://"), None);
    assert_eq!(Screen::from_deeplink_url("gpui:"), None);
    assert_eq!(Screen::from_deeplink_url("gpui://   "), None);
    assert_eq!(Screen::from_deeplink_url("gpui://unknown"), None);
    assert_eq!(Screen::from_deeplink_url("http://search"), None);
    assert_eq!(Screen::from_deeplink_url("GPUI://search"), None);
    assert_eq!(Screen::from_deeplink_url("gpui://se arch"), None);
}

#[test]
fn titles() {
    assert_eq!(Screen::Search.title(), "Search");
    assert_eq!(Screen::AppleGlass.title(), "Apple Liquid Glass");
    assert_eq!(Screen::Material.title(), "Material Design 3");
    assert_eq!(Screen::Form.title(), "Material Form");
    assert_eq!(Screen::PackagesDemo.title(), "Packages");
    assert_eq!(Screen::WebViewBrowser.title(), "Browser");
    assert_eq!(Screen::Swiper.title(), "Discover");
    assert_eq!(Screen::Chat.title(), "Sarah Johnson");
    assert_eq!(Screen::AudioPlayer.title(), "Audio Player");
    assert_eq!(Screen::VideoPlayer.title(), "Video Player");
    assert_eq!(Screen::AnkiSettings.title(), "Anki Settings");
}

#[test]
fn tab_roots() {
    assert!(Screen::Search.is_tab_root());
    assert!(Screen::Dictionaries.is_tab_root());
    assert!(Screen::Settings.is_tab_root());
    assert!(Screen::About.is_tab_root());
    assert!(Screen::Anki.is_tab_root());
    assert!(!Screen::Home.is_tab_root());
    assert!(!Screen::AnkiSettings.is_tab_root());
}

#[test]
fn default_screen_is_search() {
    assert_eq!(Screen::default(), Screen::Search);
    assert!(Screen::default().is_tab_root());
}
