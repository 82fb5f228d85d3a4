//! The navigable screens of the app, their titles, and how a deep link
//! such as `gpui://video_player` names one of them.
use vstd::prelude::*;
use crate::text::{
    ascii_lower, ascii_lower_seq, chars_eq_str, chars_of, is_white_space, to_ascii_lowercase,
    trim_chars, trim_end_ws, trim_start_ws, trim_ws,
};

verus! {

/// All navigable screens in the app.
#[derive(Debug, Clone, Copy, PartialEq, Eq, Structural)]
pub enum Screen {
    Search,
    Dictionaries,
    Settings,
    About,
    Home,
    Counter,
    AppleGlass,
    Material,
    Form,
    Animations,
    Shaders,
    PackagesDemo,
    WebViewBrowser,
    Swiper,
    Feed,
    Chat,
    AudioPlayer,
    VideoPlayer,
    Anki,
    AnkiSettings,
}

impl Default for Screen {
    /// The search screen is where the app starts.
    fn default() -> (s: Self)
        ensures
            s == Screen::Search,
    {
        Screen::Search
    }
}

/// The screens reached directly from the bottom navigation bar.
pub open spec fn screen_is_tab_root(s: Screen) -> bool {
    ||| s == Screen::Search
    ||| s == Screen::Dictionaries
    ||| s == Screen::Anki
    ||| s == Screen::Settings
    ||| s == Screen::About
}

/// The title shown for a screen in the navigation bar.
pub open spec fn screen_title(s: Screen) -> Seq<char> {
    match s {
        Screen::Search => "Search"@,
        Screen::Dictionaries => "Dictionaries"@,
        Screen::Settings => "Settings"@,
        Screen::About => "About"@,
        Screen::Home => "Home"@,
        Screen::Counter => "Counter"@,
        Screen::AppleGlass => "Apple Liquid Glass"@,
        Screen::Material => "Material Design 3"@,
        Screen::Form => "Material Form"@,
        Screen::Animations => "Animations"@,
        Screen::Shaders => "Shaders"@,
        Screen::PackagesDemo => "Packages"@,
        Screen::WebViewBrowser => "Browser"@,
        Screen::Swiper => "Discover"@,
        Screen::Feed => "Feed"@,
        Screen::Chat => "Sarah Johnson"@,
        Screen::AudioPlayer => "Audio Player"@,
        Screen::VideoPlayer => "Video Player"@,
        Screen::Anki => "Anki"@,
        Screen::AnkiSettings => "Anki Settings"@,
    }
}

/// The screen that a lower-case deep-link host names, if any.
pub open spec fn screen_for_link_name(n: Seq<char>) -> Option<Screen> {
    if n == "search"@ {
        Some(Screen::Search)
    } else if n == "dictionaries"@ {
        Some(Screen::Dictionaries)
    } else if n == "settings"@ {
        Some(Screen::Settings)
    } else if n == "about"@ {
        Some(Screen::About)
    } else if n == "home"@ {
        Some(Screen::Home)
    } else if n == "counter"@ {
        Some(Screen::Counter)
    } else if n == "apple_glass"@ || n == "appleglass"@ {
        Some(Screen::AppleGlass)
    } else if n == "material"@ {
        Some(Screen::Material)
    } else if n == "form"@ {
        Some(Screen::Form)
    } else if n == "animations"@ {
        Some(Screen::Animations)
    } else if n == "shaders"@ {
        Some(Screen::Shaders)
    } else if n == "packages"@ || n == "packages_demo"@ {
        Some(Screen::PackagesDemo)
    } else if n == "webview"@ || n == "webview_browser"@ || n == "browser"@ {
        Some(Screen::WebViewBrowser)
    } else if n == "swiper"@ || n == "discover"@ {
        Some(Screen::Swiper)
    } else if n == "feed"@ {
        Some(Screen::Feed)
    } else if n == "chat"@ {
        Some(Screen::Chat)
    } else if n == "audio_player"@ || n == "audio"@ {
        Some(Screen::AudioPlayer)
    } else if n == "video_player"@ || n == "video"@ {
        Some(Screen::VideoPlayer)
    } else if n == "anki"@ {
        Some(Screen::Anki)
    } else if n == "anki_settings"@ {
        Some(Screen::AnkiSettings)
    } else {
        None
    }
}

/// What follows the `gpui://` or `gpui:` scheme of a deep link; the long
/// spelling is tried first.
pub open spec fn link_after_scheme(url: Seq<char>) -> Option<Seq<char>> {
    if "gpui://"@.len() <= url.len() && url.take("gpui://"@.len() as int) == "gpui://"@ {
        Some(url.skip("gpui://"@.len() as int))
    } else if "gpui:"@.len() <= url.len() && url.take("gpui:"@.len() as int) == "gpui:"@ {
        Some(url.skip("gpui:"@.len() as int))
    } else {
        None
    }
}

/// The number of characters before the first `/` of `s` (all of them when
/// there is none).
pub open spec fn segment_len(s: Seq<char>) -> nat
    decreases s.len(),
{
    if s.len() == 0 || s[0] == '/' {
        0
    } else {
        1 + segment_len(s.drop_first())
    }
}

/// The part of `s` before its first `/`.
pub open spec fn first_segment(s: Seq<char>) -> Seq<char> {
    s.take(segment_len(s) as int)
}

/// The screen a deep link names: the first path segment after the scheme,
/// trimmed and compared in ASCII lower case.
pub open spec fn screen_from_deeplink(url: Seq<char>) -> Option<Screen> {
    match link_after_scheme(url) {
        None => None,
        Some(rest) => {
            let path = trim_ws(first_segment(rest));
            if path.len() == 0 {
                None
            } else {
                screen_for_link_name(ascii_lower_seq(path))
            }
        },
    }
}

/// Whether `v` begins with the characters of `p`.
fn starts_with_chars(v: &Vec<char>, p: &str) -> (r: bool)
    ensures
        r == (p@.len() <= v@.len() && v@.take(p@.len() as int) == p@),
{
    let w = chars_of(p);
    if w.len() > v.len() {
        return false;
    }
    let mut i: usize = 0;
    while i < w.len()
        invariant
            i <= w.len(),
            w.len() <= v.len(),
            w@ == p@,
            forall|k: int| 0 <= k < i ==> v@[k] == w@[k],
        decreases w.len() - i,
    {
        if v[i] != w[i] {
            assert(v@.take(w.len() as int)[i as int] != p@[i as int]);
            return false;
        }
        i = i + 1;
    }
    assert(v@.take(w.len() as int) =~= p@);
    true
}

/// The characters of `v` from index `from` on.
fn chars_from(v: &Vec<char>, from: usize) -> (r: Vec<char>)
    requires
        from <= v.len(),
    ensures
        r@ == v@.skip(from as int),
{
    let mut r: Vec<char> = Vec::new();
    let mut i: usize = from;
    while i < v.len()
        invariant
            from <= i <= v.len(),
            r@ =~= v@.subrange(from as int, i as int),
        decreases v.len() - i,
    {
        r.push(v[i]);
        i = i + 1;
    }
    r
}

/// The characters of `v` before its first `/`.
fn first_segment_chars(v: &Vec<char>) -> (r: Vec<char>)
    ensures
        r@ == first_segment(v@),
{
    let mut i: usize = 0;
    assert(v@.skip(0) =~= v@);
    while i < v.len()
        invariant
            i <= v.len(),
            segment_len(v@) == i + segment_len(v@.skip(i as int)),
        ensures
            i <= v.len(),
            segment_len(v@) == i + segment_len(v@.skip(i as int)),
            i < v.len() ==> v@[i as int] == '/',
        decreases v.len() - i,
    {
        if v[i] == '/' {
            break;
        }
        assert(v@.skip(i as int).drop_first() =~= v@.skip(i + 1));
        i = i + 1;
    }
    assert(segment_len(v@.skip(i as int)) == 0);
    let mut r: Vec<char> = Vec::new();
    let mut k: usize = 0;
    while k < i
        invariant
            k <= i <= v.len(),
            r@ =~= v@.take(k as int),
        decreases i - k,
    {
        r.push(v[k]);
        assert(v@.take(k + 1) =~= v@.take(k as int).push(v@[k as int]));
        k = k + 1;
    }
    r
}

/// The screen that a lower-case deep-link host names, if any.
fn screen_for_link_chars(n: &Vec<char>) -> (r: Option<Screen>)
    ensures
        r == screen_for_link_name(n@),
{
    if chars_eq_str(n, "search") {
        Some(Screen::Search)
    } else if chars_eq_str(n, "dictionaries") {
        Some(Screen::Dictionaries)
    } else if chars_eq_str(n, "settings") {
        Some(Screen::Settings)
    } else if chars_eq_str(n, "about") {
        Some(Screen::About)
    } else if chars_eq_str(n, "home") {
        Some(Screen::Home)
    } else if chars_eq_str(n, "counter") {
        Some(Screen::Counter)
    } else if chars_eq_str(n, "apple_glass") || chars_eq_str(n, "appleglass") {
        Some(Screen::AppleGlass)
    } else if chars_eq_str(n, "material") {
        Some(Screen::Material)
    } else if chars_eq_str(n, "form") {
        Some(Screen::Form)
    } else if chars_eq_str(n, "animations") {
        Some(Screen::Animations)
    } else if chars_eq_str(n, "shaders") {
        Some(Screen::Shaders)
    } else if chars_eq_str(n, "packages") || chars_eq_str(n, "packages_demo") {
        Some(Screen::PackagesDemo)
    } else if chars_eq_str(n, "webview") || chars_eq_str(n, "webview_browser") || chars_eq_str(
        n,
        "browser",
    ) {
        Some(Screen::WebViewBrowser)
    } else if chars_eq_str(n, "swiper") || chars_eq_str(n, "discover") {
        Some(Screen::Swiper)
    } else if chars_eq_str(n, "feed") {
        Some(Screen::Feed)
    } else if chars_eq_str(n, "chat") {
        Some(Screen::Chat)
    } else if chars_eq_str(n, "audio_player") || chars_eq_str(n, "audio") {
        Some(Screen::AudioPlayer)
    } else if chars_eq_str(n, "video_player") || chars_eq_str(n, "video") {
        Some(Screen::VideoPlayer)
    } else if chars_eq_str(n, "anki") {
        Some(Screen::Anki)
    } else if chars_eq_str(n, "anki_settings") {
        Some(Screen::AnkiSettings)
    } else {
        None
    }
}

impl Screen {
    /// Parse a screen from a deeplink URL path segment.
    ///
    /// Accepts URLs like `gpui://video_player`, `gpui://counter`,
    /// `gpui://settings`, etc. The host or first path segment is
    /// matched case-insensitively.
    ///
    /// Returns `None` for unrecognized paths or empty URLs.
    pub fn from_deeplink_url(url: &str) -> (r: Option<Self>)
        ensures
            r == screen_from_deeplink(url@),
    {
        let v = chars_of(url);
        let rest = if starts_with_chars(&v, "gpui://") {
            let n = chars_of("gpui://").len();
            chars_from(&v, n)
        } else if starts_with_chars(&v, "gpui:") {
            let n = chars_of("gpui:").len();
            chars_from(&v, n)
        } else {
            return None;
        };
        let segment = first_segment_chars(&rest);
        let path = trim_chars(&segment);
        if path.len() == 0 {
            return None;
        }
        let lower = to_ascii_lowercase(&path);
        screen_for_link_chars(&lower)
    }

    /// Human-readable title for the screen (used in the nav bar).
    pub fn title(&self) -> (r: &'static str)
        ensures
            r@ == screen_title(*self),
    {
        match self {
            Screen::Search => "Search",
            Screen::Dictionaries => "Dictionaries",
            Screen::Settings => "Settings",
            Screen::About => "About",
            Screen::Home => "Home",
            Screen::Counter => "Counter",
            Screen::AppleGlass => "Apple Liquid Glass",
            Screen::Material => "Material Design 3",
            Screen::Form => "Material Form",
            Screen::Animations => "Animations",
            Screen::Shaders => "Shaders",
            Screen::PackagesDemo => "Packages",
            Screen::WebViewBrowser => "Browser",
            Screen::Swiper => "Discover",
            Screen::Feed => "Feed",
            Screen::Chat => "Sarah Johnson",
            Screen::AudioPlayer => "Audio Player",
            Screen::VideoPlayer => "Video Player",
            Screen::Anki => "Anki",
            Screen::AnkiSettings => "Anki Settings",
        }
    }

    /// Whether this screen is a primary tab-bar destination.
    ///
    /// Tab roots are the screens directly reachable from the bottom
    /// navigation bar. Navigating between them clears the history
    /// stack so the back button is never shown on these screens.
    pub fn is_tab_root(&self) -> (r: bool)
        ensures
            r == screen_is_tab_root(*self),
    {
        match self {
            Screen::Search | Screen::Dictionaries | Screen::Anki | Screen::Settings
            | Screen::About => true,
            _ => false,
        }
    }
}

proof fn lemma_segment_len_of_plain_prefix(h: Seq<char>, rest: Seq<char>)
    requires
        forall|k: int| 0 <= k < h.len() ==> h[k] != '/',
    ensures
        segment_len(h + rest) == h.len() + segment_len(rest),
    decreases h.len(),
{
    if h.len() > 0 {
        assert((h + rest)[0] == h[0]);
        assert((h + rest).drop_first() =~= h.drop_first() + rest);
        lemma_segment_len_of_plain_prefix(h.drop_first(), rest);
    } else {
        assert(h + rest =~= rest);
    }
}

proof fn lemma_segment_len_bound(s: Seq<char>)
    ensures
        segment_len(s) <= s.len(),
    decreases s.len(),
{
    if s.len() > 0 {
        lemma_segment_len_bound(s.drop_first());
    }
}

proof fn lemma_lower_char(c: char)
    ensures
        (ascii_lower(c) == '/') == (c == '/'),
        is_white_space(ascii_lower(c)) == is_white_space(c),
        ascii_lower(ascii_lower(c)) == ascii_lower(c),
{
    if 'A' <= c && c <= 'Z' {
        assert('a' <= ascii_lower(c) && ascii_lower(c) <= 'z');
    }
}

proof fn lemma_lower_drop_first(s: Seq<char>)
    requires
        s.len() > 0,
    ensures
        ascii_lower_seq(s).drop_first() == ascii_lower_seq(s.drop_first()),
        ascii_lower_seq(s)[0] == ascii_lower(s[0]),
{
    assert(ascii_lower_seq(s).drop_first() =~= ascii_lower_seq(s.drop_first()));
}

proof fn lemma_lower_drop_last(s: Seq<char>)
    requires
        s.len() > 0,
    ensures
        ascii_lower_seq(s).drop_last() == ascii_lower_seq(s.drop_last()),
        ascii_lower_seq(s).last() == ascii_lower(s.last()),
{
    assert(ascii_lower_seq(s).drop_last() =~= ascii_lower_seq(s.drop_last()));
}

proof fn lemma_lower_segment_len(s: Seq<char>)
    ensures
        segment_len(ascii_lower_seq(s)) == segment_len(s),
    decreases s.len(),
{
    if s.len() > 0 {
        lemma_lower_drop_first(s);
        lemma_lower_char(s[0]);
        lemma_lower_segment_len(s.drop_first());
    }
}

proof fn lemma_lower_trim_start(s: Seq<char>)
    ensures
        trim_start_ws(ascii_lower_seq(s)) == ascii_lower_seq(trim_start_ws(s)),
    decreases s.len(),
{
    if s.len() > 0 {
        lemma_lower_drop_first(s);
        lemma_lower_char(s[0]);
        lemma_lower_trim_start(s.drop_first());
    }
}

proof fn lemma_lower_trim_end(s: Seq<char>)
    ensures
        trim_end_ws(ascii_lower_seq(s)) == ascii_lower_seq(trim_end_ws(s)),
    decreases s.len(),
{
    if s.len() > 0 {
        lemma_lower_drop_last(s);
        lemma_lower_char(s.last());
        lemma_lower_trim_end(s.drop_last());
    }
}

proof fn lemma_lower_twice(s: Seq<char>)
    ensures
        ascii_lower_seq(ascii_lower_seq(s)) == ascii_lower_seq(s),
{
    assert forall|k: int| 0 <= k < s.len() implies ascii_lower_seq(ascii_lower_seq(s))[k]
        == ascii_lower_seq(s)[k] by {
        lemma_lower_char(s[k]);
    }
    assert(ascii_lower_seq(ascii_lower_seq(s)) =~= ascii_lower_seq(s));
}

/// Only the first path segment of a deep link names the screen: whatever
/// follows the first `/` after the host is ignored.
pub proof fn lemma_deeplink_ignores_subpath(host: Seq<char>, subpath: Seq<char>)
    requires
        forall|k: int| 0 <= k < host.len() ==> host[k] != '/',
    ensures
        screen_from_deeplink("gpui://"@ + host + seq!['/'] + subpath) == screen_from_deeplink(
            "gpui://"@ + host,
        ),
{
    reveal_strlit("gpui://");
    let scheme = "gpui://"@;
    let long = scheme + host + seq!['/'] + subpath;
    let short = scheme + host;
    assert(long.take(7) =~= scheme);
    assert(short.take(7) =~= scheme);
    assert(long.skip(7) =~= host + (seq!['/'] + subpath));
    assert(short.skip(7) =~= host);
    lemma_segment_len_of_plain_prefix(host, seq!['/'] + subpath);
    lemma_segment_len_of_plain_prefix(host, Seq::empty());
    assert(host + Seq::<char>::empty() =~= host);
    assert(first_segment(host + (seq!['/'] + subpath)) =~= host);
    assert(first_segment(host) =~= host);
}

/// Deep-link hosts are matched case-insensitively: a host names the same
/// screen as its ASCII lower-case form.
pub proof fn lemma_deeplink_case_insensitive(host: Seq<char>)
    ensures
        screen_from_deeplink("gpui://"@ + host) == screen_from_deeplink(
            "gpui://"@ + ascii_lower_seq(host),
        ),
{
    reveal_strlit("gpui://");
    let scheme = "gpui://"@;
    let a = scheme + host;
    let b = scheme + ascii_lower_seq(host);
    assert(a.take(7) =~= scheme);
    assert(b.take(7) =~= scheme);
    assert(a.skip(7) =~= host);
    assert(b.skip(7) =~= ascii_lower_seq(host));
    lemma_lower_segment_len(host);
    lemma_segment_len_bound(host);
    let seg = first_segment(host);
    assert(first_segment(ascii_lower_seq(host)) =~= ascii_lower_seq(seg));
    lemma_lower_trim_start(seg);
    lemma_lower_trim_end(trim_start_ws(seg));
    let path = trim_ws(seg);
    assert(trim_ws(ascii_lower_seq(seg)) == ascii_lower_seq(path));
    lemma_lower_twice(path);
}

/// The short scheme `gpui:` names the same screen as `gpui://` for a host
/// that does not itself begin with `/`.
pub proof fn lemma_deeplink_short_scheme(host: Seq<char>)
    requires
        host.len() == 0 || host[0] != '/',
    ensures
        screen_from_deeplink("gpui:"@ + host) == screen_from_deeplink("gpui://"@ + host),
{
    reveal_strlit("gpui://");
    reveal_strlit("gpui:");
    let a = "gpui:"@ + host;
    let b = "gpui://"@ + host;
    assert(b.take(7) =~= "gpui://"@);
    assert(b.skip(7) =~= host);
    assert(a.take(5) =~= "gpui:"@);
    assert(a.skip(5) =~= host);
    if a.len() >= 7 {
        assert(a.take(7)[5] == host[0]);
        assert(a.take(7) != "gpui://"@);
    }
}

} // verus!
