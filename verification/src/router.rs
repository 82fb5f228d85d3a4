//! The navigation model of the app: the current screen, the history stack
//! behind the back button, and what the frame around a screen shows.
use vstd::prelude::*;
use crate::screen::{Screen, screen_is_tab_root};

verus! {

/// Dark surface, used for the system bars of the full-screen demos.
pub const BASE: u32 = 0x121318;

/// The platform the app runs on.
#[derive(Debug, Clone, Copy, PartialEq, Eq, Structural)]
pub enum Platform {
    Ios,
    Android,
    Other,
}

/// The user name that the home screen greets on each platform.
pub open spec fn platform_user_name(p: Platform) -> Seq<char> {
    match p {
        Platform::Ios => "iOS"@,
        Platform::Android => "Android"@,
        Platform::Other => "Mobile"@,
    }
}

/// What has to happen outside the model when the app leaves a screen.
#[derive(Debug, Clone, Copy, PartialEq, Eq, Structural)]
pub struct LeaveEffects {
    /// The audio player was showing: its playback pauses.
    pub pause_audio: bool,
    /// The keyboards of the form and chat screens are dismissed.
    pub dismiss_input: bool,
}

/// The effects of leaving `from`.
pub open spec fn leave_effects(from: Screen) -> LeaveEffects {
    LeaveEffects { pause_audio: from == Screen::AudioPlayer, dismiss_input: true }
}

/// The screen and history after navigating from `current` to `to`: a
/// tab-bar root clears the history, any other screen pushes `current`.
/// Navigating to the current screen changes nothing.
pub open spec fn navigated(current: Screen, history: Seq<Screen>, to: Screen) -> (Screen, Seq<Screen>) {
    if current == to {
        (current, history)
    } else if screen_is_tab_root(to) {
        (to, Seq::empty())
    } else {
        (to, history.push(current))
    }
}

/// The screen and history after going back, or `None` when there is no
/// history to go back to.
pub open spec fn went_back(history: Seq<Screen>) -> Option<(Screen, Seq<Screen>)> {
    if history.len() == 0 {
        None
    } else {
        Some((history.last(), history.drop_last()))
    }
}

/// Top-level navigation state: the active screen and the history stack.
pub struct Router {
    pub current_screen: Screen,
    /// Shared state: a global tap counter (carried across screens for demo).
    pub tap_count: u32,
    /// User name shown on the home screen.
    pub user_name: String,
    /// A flag toggled in Settings.
    pub dark_mode: bool,
    /// Navigation history stack for back navigation, oldest first.
    pub history: Vec<Screen>,
}

impl Router {
    /// A router that starts on the default screen.
    pub fn new(platform: Platform) -> (r: Self)
        ensures
            r.current_screen == Screen::Search,
            r.history@ == Seq::<Screen>::empty(),
            r.tap_count == 0,
            r.dark_mode,
            r.user_name@ == platform_user_name(platform),
    {
        Self::with_initial_screen(Screen::Search, platform)
    }

    /// Create a router starting at the given screen.
    ///
    /// If the screen is not a tab-root, `Home` is pushed onto the
    /// history stack so the back button works.
    pub fn with_initial_screen(screen: Screen, platform: Platform) -> (r: Self)
        ensures
            r.current_screen == screen,
            r.history@ == (if screen_is_tab_root(screen) {
                Seq::<Screen>::empty()
            } else {
                seq![Screen::Home]
            }),
            r.tap_count == 0,
            r.dark_mode,
            r.user_name@ == platform_user_name(platform),
    {
        let user_name = match platform {
            Platform::Ios => "iOS",
            Platform::Android => "Android",
            Platform::Other => "Mobile",
        };
        let mut history: Vec<Screen> = Vec::new();
        if !screen.is_tab_root() {
            history.push(Screen::Home);
        }
        assert(history@ =~= (if screen_is_tab_root(screen) {
            Seq::<Screen>::empty()
        } else {
            seq![Screen::Home]
        }));
        Router {
            current_screen: screen,
            tap_count: 0,
            user_name: user_name.to_string(),
            dark_mode: true,
            history,
        }
    }

    /// Navigate to a new screen, pushing the current one onto the history
    /// stack (or clearing the stack for a tab-bar root). Returns what has to
    /// happen on leaving the current screen, or `None` when `screen` is
    /// already showing.
    pub fn navigate_to(&mut self, screen: Screen) -> (r: Option<LeaveEffects>)
        ensures
            (final(self).current_screen, final(self).history@) == navigated(
                old(self).current_screen,
                old(self).history@,
                screen,
            ),
            r == (if old(self).current_screen == screen {
                None
            } else {
                Some(leave_effects(old(self).current_screen))
            }),
            final(self).tap_count == old(self).tap_count,
            final(self).dark_mode == old(self).dark_mode,
            final(self).user_name == old(self).user_name,
    {
        if self.current_screen == screen {
            return None;
        }
        let effects = LeaveEffects {
            pause_audio: self.current_screen == Screen::AudioPlayer,
            dismiss_input: true,
        };
        if screen.is_tab_root() {
            self.history.clear();
        } else {
            self.history.push(self.current_screen);
        }
        self.current_screen = screen;
        Some(effects)
    }

    /// Go back to the previous screen. Returns what has to happen on leaving
    /// the current screen, or `None` when there was no history.
    pub fn go_back(&mut self) -> (r: Option<LeaveEffects>)
        ensures
            match went_back(old(self).history@) {
                None => {
                    &&& r is None
                    &&& final(self).current_screen == old(self).current_screen
                    &&& final(self).history@ == old(self).history@
                },
                Some((screen, history)) => {
                    &&& r == Some(leave_effects(old(self).current_screen))
                    &&& final(self).current_screen == screen
                    &&& final(self).history@ == history
                },
            },
            final(self).tap_count == old(self).tap_count,
            final(self).dark_mode == old(self).dark_mode,
            final(self).user_name == old(self).user_name,
    {
        match self.history.pop() {
            Some(prev) => {
                let effects = LeaveEffects {
                    pause_audio: self.current_screen == Screen::AudioPlayer,
                    dismiss_input: true,
                };
                self.current_screen = prev;
                Some(effects)
            },
            None => None,
        }
    }

    /// Reset the shared tap counter, as the settings screen does.
    pub fn reset_tap_count(&mut self)
        ensures
            final(self).tap_count == 0,
            final(self).current_screen == old(self).current_screen,
            final(self).history == old(self).history,
            final(self).dark_mode == old(self).dark_mode,
            final(self).user_name == old(self).user_name,
    {
        self.tap_count = 0;
    }

    /// Change the user name that the home screen greets.
    pub fn set_user_name(&mut self, name: String)
        ensures
            final(self).user_name == name,
            final(self).tap_count == old(self).tap_count,
            final(self).current_screen == old(self).current_screen,
            final(self).history == old(self).history,
            final(self).dark_mode == old(self).dark_mode,
    {
        self.user_name = name;
    }

    /// Switch between the dark and the light colour scheme.
    pub fn toggle_dark_mode(&mut self)
        ensures
            final(self).dark_mode == !old(self).dark_mode,
            final(self).current_screen == old(self).current_screen,
            final(self).history == old(self).history,
            final(self).tap_count == old(self).tap_count,
            final(self).user_name == old(self).user_name,
    {
        self.dark_mode = !self.dark_mode;
    }

    /// Whether the back button should be shown.
    ///
    /// Tab-bar root screens never show a back button, even if there
    /// is history.
    pub fn can_go_back(&self) -> (r: bool)
        ensures
            r == (!screen_is_tab_root(self.current_screen) && self.history@.len() > 0),
    {
        !self.current_screen.is_tab_root() && self.history.len() > 0
    }
}


/// Whether the status bar draws light or dark content.
#[derive(Debug, Clone, Copy, PartialEq, Eq, Structural)]
pub enum StatusBarContentStyle {
    Light,
    Dark,
}

/// The surface colours of the active theme that the system bars use.
#[derive(Debug, Clone, Copy, PartialEq, Eq, Structural)]
pub struct ThemeSurfaces {
    pub surface: u32,
    pub surface_container: u32,
}

/// The colours and content style of the status and navigation bars.
#[derive(Debug, Clone, Copy, PartialEq, Eq, Structural)]
pub struct SystemChromeStyle {
    pub status_bar_color: Option<u32>,
    pub status_bar_style: StatusBarContentStyle,
    pub navigation_bar_color: Option<u32>,
}

/// The demos that fill the whole window and draw their own system bars.
pub open spec fn screen_is_fullscreen_demo(s: Screen) -> bool {
    s == Screen::Animations || s == Screen::Shaders
}

/// The pages that render inside the scrollable content area.
#[derive(Debug, Clone, Copy, PartialEq, Eq, Structural)]
pub enum Page {
    Search,
    Anki,
    AnkiSettings,
    Dictionaries,
    Settings,
    About,
    /// The page of a showcase screen, drawn by that screen's own module.
    Showcase(Screen),
}

/// What fills the content area for a screen.
#[derive(Debug, Clone, Copy, PartialEq, Eq, Structural)]
pub enum ScreenContent {
    /// The bouncing-ball playground, drawn full screen with its own touch handling.
    AnimationDemo,
    /// The shader showcase, drawn full screen with its own touch handling.
    ShaderDemo,
    /// A page inside the scroll container.
    Scrollable(Page),
}

/// The content area for a screen: the two demos fill the window, every
/// other screen is a page inside the scroll container.
pub open spec fn content_of(s: Screen) -> ScreenContent {
    match s {
        Screen::Animations => ScreenContent::AnimationDemo,
        Screen::Shaders => ScreenContent::ShaderDemo,
        Screen::Search => ScreenContent::Scrollable(Page::Search),
        Screen::Anki => ScreenContent::Scrollable(Page::Anki),
        Screen::AnkiSettings => ScreenContent::Scrollable(Page::AnkiSettings),
        Screen::Dictionaries => ScreenContent::Scrollable(Page::Dictionaries),
        Screen::Settings => ScreenContent::Scrollable(Page::Settings),
        Screen::About => ScreenContent::Scrollable(Page::About),
        _ => ScreenContent::Scrollable(Page::Showcase(s)),
    }
}

/// One destination of the bottom navigation bar.
#[derive(Debug, Clone, Copy)]
pub struct TabItem {
    pub icon: &'static str,
    pub label: &'static str,
    pub screen: Screen,
    pub selected: bool,
}

/// The destination of the `i`-th item of the bottom navigation bar.
pub open spec fn tab_screen(i: int) -> Screen {
    if i == 0 {
        Screen::Search
    } else if i == 1 {
        Screen::Dictionaries
    } else if i == 2 {
        Screen::Anki
    } else if i == 3 {
        Screen::Settings
    } else {
        Screen::About
    }
}

/// The label of the `i`-th item of the bottom navigation bar.
pub open spec fn tab_label(i: int) -> Seq<char> {
    if i == 0 {
        "Search"@
    } else if i == 1 {
        "Dicts"@
    } else if i == 2 {
        "Anki"@
    } else if i == 3 {
        "Settings"@
    } else {
        "About"@
    }
}

/// The icon of the `i`-th item of the bottom navigation bar.
pub open spec fn tab_icon(i: int) -> Seq<char> {
    if i == 0 {
        "\u{2315}"@
    } else if i == 1 {
        "\u{2302}"@
    } else if i == 2 {
        "\u{26e9}"@
    } else if i == 3 {
        "\u{2630}"@
    } else {
        "\u{2665}"@
    }
}

impl Router {
    /// Whether the bottom tab bar shows: only on tab-bar roots.
    pub fn shows_tab_bar(&self) -> (r: bool)
        ensures
            r == screen_is_tab_root(self.current_screen),
    {
        self.current_screen.is_tab_root()
    }

    /// Whether the current screen is a full-screen demo.
    pub fn is_fullscreen_demo(&self) -> (r: bool)
        ensures
            r == screen_is_fullscreen_demo(self.current_screen),
    {
        match self.current_screen {
            Screen::Animations | Screen::Shaders => true,
            _ => false,
        }
    }

    /// Compute the system chrome style for the current screen and theme.
    ///
    /// Dark mode gives light status-bar content, light mode dark content;
    /// the full-screen demos override both bars to the dark base colour.
    pub fn system_chrome_style(&self, theme: ThemeSurfaces) -> (r: SystemChromeStyle)
        ensures
            screen_is_fullscreen_demo(self.current_screen) ==> r == (SystemChromeStyle {
                status_bar_color: Some(BASE),
                status_bar_style: StatusBarContentStyle::Light,
                navigation_bar_color: Some(BASE),
            }),
            !screen_is_fullscreen_demo(self.current_screen) ==> r == (SystemChromeStyle {
                status_bar_color: Some(theme.surface),
                status_bar_style: if self.dark_mode {
                    StatusBarContentStyle::Light
                } else {
                    StatusBarContentStyle::Dark
                },
                navigation_bar_color: Some(
                    if screen_is_tab_root(self.current_screen) {
                        theme.surface_container
                    } else {
                        theme.surface
                    },
                ),
            }),
    {
        if self.is_fullscreen_demo() {
            SystemChromeStyle {
                status_bar_color: Some(BASE),
                status_bar_style: StatusBarContentStyle::Light,
                navigation_bar_color: Some(BASE),
            }
        } else {
            SystemChromeStyle {
                status_bar_color: Some(theme.surface),
                status_bar_style: if self.dark_mode {
                    StatusBarContentStyle::Light
                } else {
                    StatusBarContentStyle::Dark
                },
                navigation_bar_color: Some(
                    if self.current_screen.is_tab_root() {
                        theme.surface_container
                    } else {
                        theme.surface
                    },
                ),
            }
        }
    }

    /// What fills the content area for the current screen: the two demos
    /// fill the window, every other screen is wrapped in the scroll container.
    pub fn current_content(&self) -> (r: ScreenContent)
        ensures
            r == content_of(self.current_screen),
    {
        match self.current_screen {
            Screen::Animations => ScreenContent::AnimationDemo,
            Screen::Shaders => ScreenContent::ShaderDemo,
            Screen::Search => ScreenContent::Scrollable(Page::Search),
            Screen::Anki => ScreenContent::Scrollable(Page::Anki),
            Screen::AnkiSettings => ScreenContent::Scrollable(Page::AnkiSettings),
            Screen::Dictionaries => ScreenContent::Scrollable(Page::Dictionaries),
            Screen::Settings => ScreenContent::Scrollable(Page::Settings),
            Screen::About => ScreenContent::Scrollable(Page::About),
            other => ScreenContent::Scrollable(Page::Showcase(other)),
        }
    }

    /// The items of the bottom navigation bar, with the one for the current
    /// screen selected.
    pub fn tab_bar_items(&self) -> (r: Vec<TabItem>)
        ensures
            r@.len() == 5,
            forall|i: int|
                0 <= i < 5 ==> {
                    &&& #[trigger] r@[i].screen == tab_screen(i)
                    &&& r@[i].label@ == tab_label(i)
                    &&& r@[i].icon@ == tab_icon(i)
                    &&& r@[i].selected == (self.current_screen == tab_screen(i))
                },
    {
        let current = self.current_screen;
        let mut items: Vec<TabItem> = Vec::new();
        items.push(TabItem { icon: "\u{2315}", label: "Search", screen: Screen::Search, selected: current == Screen::Search });
        items.push(TabItem { icon: "\u{2302}", label: "Dicts", screen: Screen::Dictionaries, selected: current == Screen::Dictionaries });
        items.push(TabItem { icon: "\u{26e9}", label: "Anki", screen: Screen::Anki, selected: current == Screen::Anki });
        items.push(TabItem { icon: "\u{2630}", label: "Settings", screen: Screen::Settings, selected: current == Screen::Settings });
        items.push(TabItem { icon: "\u{2665}", label: "About", screen: Screen::About, selected: current == Screen::About });
        items
    }
}

/// The shape the history always has: on a tab-bar root it is empty, and
/// below its oldest entry it holds no tab-bar root.
pub open spec fn history_consistent(current: Screen, history: Seq<Screen>) -> bool {
    &&& screen_is_tab_root(current) ==> history.len() == 0
    &&& forall|i: int| 1 <= i < history.len() ==> !screen_is_tab_root(#[trigger] history[i])
}

/// Going back undoes navigating to a screen off the tab bar: the previous
/// screen and its history come back.
pub proof fn lemma_back_undoes_navigation(current: Screen, history: Seq<Screen>, to: Screen)
    requires
        current != to,
        !screen_is_tab_root(to),
    ensures
        went_back(navigated(current, history, to).1) == Some((current, history)),
{
    assert(history.push(current).drop_last() =~= history);
}

/// A router starts with a consistent history.
pub proof fn lemma_initial_history_consistent(screen: Screen)
    ensures
        history_consistent(
            screen,
            if screen_is_tab_root(screen) {
                Seq::<Screen>::empty()
            } else {
                seq![Screen::Home]
            },
        ),
{
}

/// Navigating keeps the history consistent.
pub proof fn lemma_navigation_keeps_history_consistent(current: Screen, history: Seq<Screen>, to: Screen)
    requires
        history_consistent(current, history),
    ensures
        history_consistent(navigated(current, history, to).0, navigated(current, history, to).1),
{
    if current != to && !screen_is_tab_root(to) {
        let h = history.push(current);
        assert forall|i: int| 1 <= i < h.len() implies !screen_is_tab_root(#[trigger] h[i]) by {
            if i == history.len() {
                assert(history.len() > 0);
            } else {
                assert(h[i] == history[i]);
            }
        }
    }
}

/// Going back keeps the history consistent.
pub proof fn lemma_back_keeps_history_consistent(current: Screen, history: Seq<Screen>)
    requires
        history_consistent(current, history),
        history.len() > 0,
    ensures
        went_back(history) == Some((history.last(), history.drop_last())),
        history_consistent(history.last(), history.drop_last()),
{
    let h = history.drop_last();
    if screen_is_tab_root(history.last()) {
        assert(history.len() == 1);
    }
    assert forall|i: int| 1 <= i < h.len() implies !screen_is_tab_root(#[trigger] h[i]) by {
        assert(h[i] == history[i]);
    }
}

/// The back button is never shown on a tab-bar root, and elsewhere it is
/// shown exactly when there is history.
pub proof fn lemma_back_button_follows_history(current: Screen, history: Seq<Screen>)
    requires
        history_consistent(current, history),
    ensures
        (!screen_is_tab_root(current) && history.len() > 0) == (history.len() > 0),
{
}

/// The tab-bar roots are exactly the destinations of the bottom navigation
/// bar: a screen is a root if and only if one of the five tab items leads
/// to it.
pub proof fn lemma_tab_roots_are_tab_destinations(s: Screen)
    ensures
        screen_is_tab_root(s) == exists|i: int| 0 <= i < 5 && #[trigger] tab_screen(i) == s,
{
    if screen_is_tab_root(s) {
        if s == Screen::Search {
            assert(tab_screen(0) == s);
        } else if s == Screen::Dictionaries {
            assert(tab_screen(1) == s);
        } else if s == Screen::Anki {
            assert(tab_screen(2) == s);
        } else if s == Screen::Settings {
            assert(tab_screen(3) == s);
        } else {
            assert(tab_screen(4) == s);
        }
    }
}

/// Navigating away from a screen to one that no tab item leads to keeps the
/// way back: the new history is the old one with the screen that was left
/// on top.
pub proof fn lemma_navigating_off_the_tab_bar_keeps_the_way_back(
    current: Screen,
    history: Seq<Screen>,
    to: Screen,
)
    requires
        current != to,
        forall|i: int| 0 <= i < 5 ==> #[trigger] tab_screen(i) != to,
    ensures
        navigated(current, history, to) == (to, history.push(current)),
        navigated(current, history, to).1.len() > 0,
        !screen_is_tab_root(navigated(current, history, to).0),
{
    lemma_tab_roots_are_tab_destinations(to);
}

/// The screen that a page belongs to.
pub open spec fn page_screen(p: Page) -> Screen {
    match p {
        Page::Search => Screen::Search,
        Page::Anki => Screen::Anki,
        Page::AnkiSettings => Screen::AnkiSettings,
        Page::Dictionaries => Screen::Dictionaries,
        Page::Settings => Screen::Settings,
        Page::About => Screen::About,
        Page::Showcase(s) => s,
    }
}

/// Every screen shows its own content: a page shown for a screen is that
/// screen's page, the two demos are shown only for their own screens, and
/// no two screens show the same content.
pub proof fn lemma_each_screen_shows_its_own_page(s: Screen, t: Screen)
    ensures
        content_of(s) matches ScreenContent::Scrollable(p) ==> page_screen(p) == s,
        (content_of(s) == ScreenContent::AnimationDemo) == (s == Screen::Animations),
        (content_of(s) == ScreenContent::ShaderDemo) == (s == Screen::Shaders),
        s != t ==> content_of(s) != content_of(t),
{
}

} // verus!
