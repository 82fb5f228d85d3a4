//! The search screen: cleaning a query before it is looked up, the state
//! that follows the results, and the cache of rendered text views.
use vstd::prelude::*;
use crate::text::{chars_of, string_from_chars, trim_chars, trim_ws, TextField};

verus! {

#[verifier::external_type_specification]
#[verifier::external_body]
pub struct ExRegex(regex::Regex);

#[verifier::external_type_specification]
#[verifier::external_body]
pub struct ExRegexError(regex::Error);

/// Whether `regex::Regex::new` accepts a pattern.
pub uninterp spec fn regex_compiles(pattern: Seq<char>) -> bool;

/// What `regex::Regex::replace_all` gives for a pattern, a haystack and a
/// replacement string.
pub uninterp spec fn regex_replace_all(
    pattern: Seq<char>,
    haystack: Seq<char>,
    replacement: Seq<char>,
) -> Seq<char>;

/// The pattern that matches one ASCII punctuation character.
pub const PUNCTUATION_PATTERN: &'static str = "[[:punct:]]";

/// The ASCII punctuation characters: `[!-/:-@\[-`{-~]`.
pub open spec fn is_ascii_punctuation(c: char) -> bool {
    ||| ('!' <= c && c <= '/')
    ||| (':' <= c && c <= '@')
    ||| ('[' <= c && c <= '`')
    ||| ('{' <= c && c <= '~')
}

/// `s` without its ASCII punctuation characters.
pub open spec fn without_ascii_punctuation(s: Seq<char>) -> Seq<char> {
    s.filter(|c: char| !is_ascii_punctuation(c))
}

/// The search term that a query is looked up by: the query trimmed, then
/// stripped of ASCII punctuation.
pub open spec fn cleaned_search_term(query: Seq<char>) -> Seq<char> {
    without_ascii_punctuation(trim_ws(query))
}

/// The term a query is looked up by holds no ASCII punctuation.
pub proof fn lemma_cleaned_term_has_no_punctuation(query: Seq<char>)
    ensures
        forall|i: int|
            0 <= i < cleaned_search_term(query).len() ==> !is_ascii_punctuation(
                #[trigger] cleaned_search_term(query)[i],
            ),
{
    broadcast use vstd::seq_lib::group_filter_ensures;

    let pred = |c: char| !is_ascii_punctuation(c);
    assert(cleaned_search_term(query) == trim_ws(query).filter(pred));
}

/// A sequence with no ASCII punctuation comes through the filter whole.
proof fn lemma_no_punctuation_kept_whole(s: Seq<char>)
    requires
        forall|i: int| 0 <= i < s.len() ==> !is_ascii_punctuation(#[trigger] s[i]),
    ensures
        without_ascii_punctuation(s) == s,
    decreases s.len(),
{
    reveal(Seq::filter);
    if s.len() > 0 {
        let p = s.drop_last();
        assert forall|i: int| 0 <= i < p.len() implies !is_ascii_punctuation(#[trigger] p[i]) by {
            assert(p[i] == s[i]);
        }
        lemma_no_punctuation_kept_whole(p);
        assert(p.push(s.last()) =~= s);
    }
}

/// Cleaning removes the ASCII punctuation of the trimmed query and nothing
/// else: the term is the trimmed query with exactly its punctuation
/// characters left out, in order; a character is in the term if and only if
/// it is in the trimmed query and is not punctuation (digits, letters, kana
/// and kanji all stay); and a trimmed query without punctuation is its own
/// term.
pub proof fn lemma_cleaning_keeps_non_punctuation(query: Seq<char>)
    ensures
        cleaned_search_term(query) == trim_ws(query).filter(|c: char| !is_ascii_punctuation(c)),
        forall|c: char|
            #[trigger] cleaned_search_term(query).contains(c) <==> (trim_ws(query).contains(c)
                && !is_ascii_punctuation(c)),
        (forall|i: int|
            0 <= i < trim_ws(query).len() ==> !is_ascii_punctuation(#[trigger] trim_ws(query)[i]))
            ==> cleaned_search_term(query) == trim_ws(query),
        cleaned_search_term(query).len() <= trim_ws(query).len(),
{
    broadcast use vstd::seq_lib::group_filter_ensures;

    let pred = |c: char| !is_ascii_punctuation(c);
    let t = trim_ws(query);
    let r = cleaned_search_term(query);
    assert(r == t.filter(pred));
    assert forall|c: char| #[trigger] r.contains(c) <==> (t.contains(c) && !is_ascii_punctuation(c)) by {
        if r.contains(c) {
            t.lemma_filter_contains_rev(pred, c);
            let j = choose|j: int| 0 <= j < r.len() && r[j] == c;
            assert(pred(r[j]));
        }
        if t.contains(c) && !is_ascii_punctuation(c) {
            let j = choose|j: int| 0 <= j < t.len() && t[j] == c;
            t.lemma_filter_contains(pred, j);
        }
    }
    if forall|i: int| 0 <= i < t.len() ==> !is_ascii_punctuation(#[trigger] t[i]) {
        lemma_no_punctuation_kept_whole(t);
    }
}

/// A compiled regular expression together with the pattern it was
/// compiled from.
pub struct CompiledPattern {
    regex: regex::Regex,
    source: String,
}

impl CompiledPattern {
    /// The pattern this expression was compiled from.
    pub closed spec fn pattern(&self) -> Seq<char> {
        self.source@
    }
}

/// `regex::Regex::new`: compiles `pattern`, succeeding exactly when the
/// crate accepts the pattern. The crate documents `[[:punct:]]`, the
/// bracketed ASCII class, as accepted syntax. What the compiled value
/// matches is not stated here; `regex_replace_all` names it.
#[verifier::external_body]
fn regex_new(pattern: &str) -> (r: Result<regex::Regex, regex::Error>)
    ensures
        (r is Ok) == regex_compiles(pattern@),
        pattern@ == PUNCTUATION_PATTERN@ ==> r is Ok,
{
    regex::Regex::new(pattern)
}

/// `regex::Regex::replace_all` with a plain replacement string: every
/// non-overlapping match in `haystack` replaced. The crate documents
/// `[[:punct:]]` as matching one character of `[!-/:-@\[-`{-~]`, so with an
/// empty replacement it removes every ASCII punctuation character; for
/// other patterns the result is named, not described.
#[verifier::external_body]
fn regex_replace_all_str(p: &CompiledPattern, haystack: &str, replacement: &str) -> (r: String)
    ensures
        r@ == regex_replace_all(p.pattern(), haystack@, replacement@),
        p.pattern() == PUNCTUATION_PATTERN@ && replacement@ == Seq::<char>::empty() ==> r@
            == without_ascii_punctuation(haystack@),
{
    p.regex.replace_all(haystack, replacement).into_owned()
}

impl CompiledPattern {
    /// Compile `pattern`; `None` when the regex crate rejects it.
    pub fn new(pattern: &str) -> (r: Option<Self>)
        ensures
            (r is Some) == regex_compiles(pattern@),
            pattern@ == PUNCTUATION_PATTERN@ ==> r is Some,
            r matches Some(p) ==> p.pattern() == pattern@,
    {
        match regex_new(pattern) {
            Ok(regex) => Some(CompiledPattern { regex, source: pattern.to_string() }),
            Err(_) => None,
        }
    }

    /// Every match of this expression in `haystack` replaced by `replacement`.
    pub fn replace_all(&self, haystack: &str, replacement: &str) -> (r: String)
        ensures
            r@ == regex_replace_all(self.pattern(), haystack@, replacement@),
            self.pattern() == PUNCTUATION_PATTERN@ && replacement@ == Seq::<char>::empty() ==> r@
                == without_ascii_punctuation(haystack@),
    {
        regex_replace_all_str(self, haystack, replacement)
    }
}

/// The search term that a query is looked up by: trimmed, then stripped
/// of ASCII punctuation.
pub fn clean_search_term(query: &str) -> (r: String)
    ensures
        r@ == cleaned_search_term(query@),
{
    let trimmed = string_from_chars(&trim_chars(&chars_of(query)));
    match CompiledPattern::new(PUNCTUATION_PATTERN) {
        Some(p) => {
            let empty = "";
            proof {
                reveal_strlit("");
            }
            assert(empty@ =~= Seq::<char>::empty());
            p.replace_all(trimmed.as_str(), empty)
        },
        None => {
            assert(false);
            String::new()
        },
    }
}

/// The keys of a list of cache entries.
pub open spec fn entry_keys<V>(entries: Seq<(String, V)>) -> Seq<Seq<char>> {
    entries.map_values(|e: (String, V)| e.0@)
}

/// A cache of rendered views, keyed by the part of the page they show.
pub struct ViewCache<V> {
    entries: Vec<(String, V)>,
}

impl<V> View for ViewCache<V> {
    type V = Map<Seq<char>, V>;

    closed spec fn view(&self) -> Map<Seq<char>, V> {
        let keys = entry_keys(self.entries@);
        Map::new(|k: Seq<char>| keys.contains(k), |k: Seq<char>| self.entries@[keys.index_of(k)].1)
    }
}

impl<V> ViewCache<V> {
    #[verifier::type_invariant]
    closed spec fn keys_unique(&self) -> bool {
        entry_keys(self.entries@).no_duplicates()
    }

    /// An empty cache.
    pub fn new() -> (r: Self)
        ensures
            r@ == Map::<Seq<char>, V>::empty(),
    {
        let r = ViewCache { entries: Vec::new() };
        assert(r@ =~= Map::<Seq<char>, V>::empty());
        r
    }

    /// Drop every cached view.
    pub fn clear(&mut self)
        ensures
            final(self)@ == Map::<Seq<char>, V>::empty(),
    {
        self.entries = Vec::new();
        assert(self@ =~= Map::<Seq<char>, V>::empty());
    }

    /// The position of the entry for `key`.
    fn position(&self, key: &str) -> (r: Option<usize>)
        ensures
            match r {
                Some(i) => {
                    &&& i < self.entries@.len()
                    &&& self.entries@[i as int].0@ == key@
                    &&& self@.contains_key(key@)
                    &&& self@[key@] == self.entries@[i as int].1
                },
                None => !self@.contains_key(key@),
            },
    {
        proof {
            use_type_invariant(self);
        }
        let ghost keys = entry_keys(self.entries@);
        let k = key.to_string();
        let mut i: usize = 0;
        while i < self.entries.len()
            invariant
                i <= self.entries.len(),
                keys == entry_keys(self.entries@),
                keys.no_duplicates(),
                k@ == key@,
                forall|j: int| 0 <= j < i ==> keys[j] != key@,
            decreases self.entries.len() - i,
        {
            if self.entries[i].0 == k {
                assert(keys[i as int] == key@);
                assert(keys.contains(key@));
                let ghost j = keys.index_of(key@);
                assert(keys[j] == key@);
                assert(j == i);
                return Some(i);
            }
            i = i + 1;
        }
        None
    }

    /// Replace the entry at `i`, whose key is `key`, by `value`.
    fn replace_at(&mut self, i: usize, key: &str, value: V)
        requires
            i < old(self).entries@.len(),
            old(self).entries@[i as int].0@ == key@,
        ensures
            final(self)@ == old(self)@.insert(key@, value),
    {
        proof {
            use_type_invariant(&*self);
        }
        let ghost old_keys = entry_keys(self.entries@);
        let ghost old_entries = self.entries@;
        let ghost old_map = self@;
        let k = key.to_string();
        let mut entries = Vec::new();
        std::mem::swap(&mut entries, &mut self.entries);
        entries.set(i, (k, value));
        let ghost new_keys = entry_keys(entries@);
        assert(new_keys =~= old_keys);
        self.entries = entries;
        assert(old_keys[i as int] == key@);
        assert(old_keys.contains(key@));
        assert forall|q: Seq<char>| #[trigger] self@.contains_key(q) implies self@[q] == old_map.insert(
            key@,
            value,
        )[q] by {
            let j = new_keys.index_of(q);
            assert(new_keys[j] == q);
            if q == key@ {
                assert(j == i);
            } else {
                assert(j != i);
                assert(self.entries@[j] == old_entries[j]);
            }
        }
        assert(self@.dom() =~= old_map.insert(key@, value).dom());
        assert(self@ =~= old_map.insert(key@, value));
    }

    /// The view cached for `key`, if any.
    pub fn get(&self, key: &str) -> (r: Option<&V>)
        ensures
            match r {
                Some(v) => self@.contains_key(key@) && self@[key@] == *v,
                None => !self@.contains_key(key@),
            },
    {
        match self.position(key) {
            Some(i) => Some(&self.entries[i].1),
            None => None,
        }
    }

    /// Cache `value` under `key`, replacing a view cached there before.
    pub fn insert(&mut self, key: &str, value: V)
        ensures
            final(self)@ == old(self)@.insert(key@, value),
    {
        proof {
            use_type_invariant(&*self);
        }
        match self.position(key) {
            Some(i) => {
                self.replace_at(i, key, value);
                return;
            },
            None => {},
        }
        let ghost old_entries = self.entries@;
        let ghost old_keys = entry_keys(old_entries);
        let ghost old_map = self@;
        let k = key.to_string();
        let mut entries = Vec::new();
        std::mem::swap(&mut entries, &mut self.entries);
        entries.push((k, value));
        let ghost new_keys = entry_keys(entries@);
        assert(new_keys =~= old_keys.push(key@));
        assert(!old_keys.contains(key@));
        assert(new_keys.no_duplicates()) by {
            assert forall|a: int, b: int|
                0 <= a < new_keys.len() && 0 <= b < new_keys.len() && a != b implies new_keys[a]
                != new_keys[b] by {
                if a < old_keys.len() && b < old_keys.len() {
                } else if a == old_keys.len() {
                    assert(old_keys[b] == new_keys[b]);
                } else {
                    assert(old_keys[a] == new_keys[a]);
                }
            }
        }
        self.entries = entries;
        assert forall|q: Seq<char>| #[trigger] self@.contains_key(q) implies self@[q] == old_map.insert(
            key@,
            value,
        )[q] by {
            let j = new_keys.index_of(q);
            if q == key@ {
                assert(new_keys[old_keys.len() as int] == q);
                assert(j == old_keys.len());
            } else {
                assert(old_keys.contains(q));
                let i = old_keys.index_of(q);
                assert(new_keys[i] == q);
                assert(j == i);
            }
        }
        assert forall|q: Seq<char>| new_keys.contains(q) == (old_keys.contains(q) || q == key@) by {
            if old_keys.contains(q) {
                let i = old_keys.index_of(q);
                assert(new_keys[i] == q);
            }
            if q == key@ {
                assert(new_keys[old_keys.len() as int] == q);
            }
            if new_keys.contains(q) {
                let j = new_keys.index_of(q);
                if j < old_keys.len() {
                    assert(old_keys[j] == q);
                }
            }
        }
        assert(self@.dom() =~= old_map.insert(key@, value).dom());
        assert(self@ =~= old_map.insert(key@, value));
    }
}

/// The positions of the segments whose text is not blank, in order.
pub open spec fn visible_segment_positions(texts: Seq<Seq<char>>) -> Seq<int>
    decreases texts.len(),
{
    if texts.len() == 0 {
        Seq::empty()
    } else {
        let prev = visible_segment_positions(texts.drop_last());
        if trim_ws(texts.last()).len() > 0 {
            prev.push(texts.len() - 1)
        } else {
            prev
        }
    }
}

/// A chip of the segment selector above the results.
#[derive(Debug, Clone, Copy, PartialEq, Eq, Structural)]
pub struct SegmentChip {
    /// The position of the segment in the results.
    pub index: usize,
    /// Whether the segment's entries are showing.
    pub selected: bool,
}

/// The chips of the segment selector: one per segment whose text is not
/// blank, the selected segment marked.
pub fn visible_segments(texts: &Vec<String>, selected: Option<usize>) -> (r: Vec<SegmentChip>)
    ensures
        r@.len() == visible_segment_positions(texts@.map_values(|t: String| t@)).len(),
        forall|j: int|
            0 <= j < r@.len() ==> {
                &&& #[trigger] r@[j].index as int == visible_segment_positions(
                    texts@.map_values(|t: String| t@),
                )[j]
                &&& r@[j].selected == (selected == Some(r@[j].index))
            },
{
    let ghost all = texts@.map_values(|t: String| t@);
    let mut r: Vec<SegmentChip> = Vec::new();
    let mut i: usize = 0;
    while i < texts.len()
        invariant
            i <= texts.len(),
            all == texts@.map_values(|t: String| t@),
            r@.len() == visible_segment_positions(all.take(i as int)).len(),
            forall|j: int|
                0 <= j < r@.len() ==> {
                    &&& #[trigger] r@[j].index as int == visible_segment_positions(
                        all.take(i as int),
                    )[j]
                    &&& r@[j].selected == (selected == Some(r@[j].index))
                },
        decreases texts.len() - i,
    {
        let ghost before = all.take(i as int);
        let ghost after = all.take(i + 1);
        assert(after.drop_last() =~= before);
        assert(after.last() == texts@[i as int]@);
        let trimmed = trim_chars(&chars_of(texts[i].as_str()));
        if trimmed.len() > 0 {
            r.push(SegmentChip { index: i, selected: selected == Some(i) });
        }
        i = i + 1;
    }
    assert(all.take(texts.len() as int) =~= all);
    r
}

/// What the results area of the search screen shows.
#[derive(Debug, Clone, Copy, PartialEq, Eq, Structural)]
pub enum ResultsPanel {
    /// "No results found.": there are no results.
    NoResults,
    /// "Select a word above": no segment, or one past the results, is selected.
    SelectWord,
    /// The entries of the segment at this position.
    Segment(usize),
}

/// The search that follows `serial`; after the largest ticket the count
/// starts again at zero.
pub open spec fn next_serial(serial: u64) -> u64 {
    if serial == u64::MAX {
        0
    } else {
        (serial + 1) as u64
    }
}

/// A search to run.
pub struct SearchRequest {
    /// The cleaned term to look up.
    pub term: String,
    /// Whether it runs at once; otherwise it waits for a pause in typing.
    pub immediate: bool,
    /// The ticket its results must carry to be taken in.
    pub ticket: u64,
}

/// A later search supersedes an earlier one: once a search has been queued
/// after it, the earlier search's ticket is no longer current, so its
/// results are never taken in.
pub proof fn lemma_superseded_search_never_lands(serial: u64)
    ensures
        next_serial(next_serial(serial)) != next_serial(serial),
{
}

/// The ticket after `n` more searches have been queued from `serial`.
pub open spec fn serial_after(serial: u64, n: nat) -> u64
    decreases n,
{
    if n == 0 {
        serial
    } else {
        next_serial(serial_after(serial, (n - 1) as nat))
    }
}

/// Tickets count up by one and wrap to zero only after the largest value:
/// `next_serial(s) == s + 1` for every `s` below `u64::MAX`, and after `n`
/// searches the ticket is `serial + n` modulo `2^64`. So a search that has
/// been superseded by any number of later searches, fewer than `2^64`, never
/// holds the current ticket again, and its results are never taken in.
pub proof fn lemma_tickets_count_up(serial: u64, n: nat)
    ensures
        serial < u64::MAX ==> next_serial(serial) == serial + 1,
        serial == u64::MAX ==> next_serial(serial) == 0,
        serial_after(serial, n) == (serial + n) % 0x1_0000_0000_0000_0000,
        1 <= n < 0x1_0000_0000_0000_0000 ==> serial_after(serial, n) != serial,
    decreases n,
{
    let m: int = 0x1_0000_0000_0000_0000;
    if n == 0 {
        vstd::arithmetic::div_mod::lemma_fundamental_div_mod_converse(serial as int, m, 0, serial as int);
    } else {
        lemma_tickets_count_up(serial, (n - 1) as nat);
        let x: int = serial + n - 1;
        let prev = serial_after(serial, (n - 1) as nat);
        let q: int = x / m;
        vstd::arithmetic::div_mod::lemma_fundamental_div_mod(x, m);
        assert(x == m * q + prev);
        if prev == u64::MAX {
            assert(x + 1 == (q + 1) * m + 0) by (nonlinear_arith)
                requires x == m * q + prev, prev + 1 == m;
            vstd::arithmetic::div_mod::lemma_fundamental_div_mod_converse(x + 1, m, q + 1, 0);
        } else {
            assert(x + 1 == q * m + (prev + 1)) by (nonlinear_arith)
                requires x == m * q + prev;
            vstd::arithmetic::div_mod::lemma_fundamental_div_mod_converse(x + 1, m, q, prev + 1);
        }
    }
    if 1 <= n < m {
        if serial_after(serial, n) == serial {
            let y: int = serial + n;
            let q: int = y / m;
            vstd::arithmetic::div_mod::lemma_fundamental_div_mod(y, m);
            assert(y == m * q + serial);
            assert(m * q == n);
            assert(q == 0 || q >= 1);
            if q >= 1 {
                assert(m * q >= m) by (nonlinear_arith)
                    requires q >= 1, m > 0;
            }
        }
    }
}

/// State of the search screen that follows the results.
pub struct SearchState<R, V> {
    /// The query in the search bar.
    pub query: TextField,
    /// Whether the search bar has the keyboard.
    pub focused: bool,
    /// The results of the last completed search.
    pub search_results: Option<R>,
    /// The ticket of the last search queued; results of any other are dropped.
    pub search_serial: u64,
    /// The segment of the query whose entries are showing.
    pub selected_term_index: Option<usize>,
    /// Rendered text views of the showing entries.
    pub view_cache: ViewCache<V>,
    /// Whether the profile dropdown of the search bar is open.
    pub profile_dropdown_open: bool,
}

impl<R, V> SearchState<R, V> {
    /// The state before any search.
    pub fn new() -> (s: Self)
        ensures
            s.query.text@ == Seq::<char>::empty(),
            s.query.cursor == 0,
            s.query.selection is None,
            !s.focused,
            s.search_results is None,
            s.search_serial == 0,
            s.selected_term_index is None,
            s.view_cache@ == Map::<Seq<char>, V>::empty(),
            !s.profile_dropdown_open,
    {
        SearchState {
            query: TextField::empty(),
            focused: false,
            search_results: None,
            search_serial: 0,
            selected_term_index: None,
            view_cache: ViewCache::new(),
            profile_dropdown_open: false,
        }
    }

    /// Queue a search for `term`, superseding any search queued before:
    /// the request for the cleaned term, or `None` when nothing is left of
    /// it, in which case the results are cleared.
    pub fn queue_search(&mut self, term: &str, immediate: bool) -> (r: Option<SearchRequest>)
        ensures
            final(self).search_serial == next_serial(old(self).search_serial),
            cleaned_search_term(term@).len() == 0 ==> {
                &&& r is None
                &&& final(self).search_results is None
            },
            cleaned_search_term(term@).len() > 0 ==> {
                &&& r matches Some(req) && req.term@ == cleaned_search_term(term@)
                    && req.immediate == immediate && req.ticket == final(self).search_serial
                &&& final(self).search_results == old(self).search_results
            },
            final(self).query == old(self).query,
            final(self).selected_term_index == old(self).selected_term_index,
            final(self).view_cache@ == old(self).view_cache@,
            final(self).focused == old(self).focused,
            final(self).profile_dropdown_open == old(self).profile_dropdown_open,
    {
        self.search_serial = if self.search_serial == u64::MAX {
            0
        } else {
            self.search_serial + 1
        };
        let clean = clean_search_term(term);
        if chars_of(clean.as_str()).len() == 0 {
            self.search_results = None;
            return None;
        }
        Some(SearchRequest { term: clean, immediate, ticket: self.search_serial })
    }

    /// Look up `text` picked from a rendered entry: it becomes the query,
    /// the cursor moves to its end, and it is searched at once.
    pub fn on_lookup(&mut self, text: &str) -> (r: Option<SearchRequest>)
        ensures
            final(self).query.text@ == text@,
            final(self).query.cursor == text.len(),
            final(self).query.selection == old(self).query.selection,
            final(self).search_serial == next_serial(old(self).search_serial),
            cleaned_search_term(text@).len() == 0 ==> {
                &&& r is None
                &&& final(self).search_results is None
            },
            cleaned_search_term(text@).len() > 0 ==> {
                &&& r matches Some(req) && req.term@ == cleaned_search_term(text@) && req.immediate
                    && req.ticket == final(self).search_serial
                &&& final(self).search_results == old(self).search_results
            },
            final(self).selected_term_index == old(self).selected_term_index,
            final(self).view_cache@ == old(self).view_cache@,
            final(self).focused == old(self).focused,
            final(self).profile_dropdown_open == old(self).profile_dropdown_open,
    {
        self.query.text = text.to_string();
        self.query.cursor = text.len();
        self.queue_search(text, true)
    }

    /// What the results area shows, given how many segments the results hold.
    pub fn results_panel(&self, segment_count: usize) -> (r: ResultsPanel)
        ensures
            r == (if self.search_results is None {
                ResultsPanel::NoResults
            } else {
                match self.selected_term_index {
                    Some(i) => if i < segment_count {
                        ResultsPanel::Segment(i)
                    } else {
                        ResultsPanel::SelectWord
                    },
                    None => ResultsPanel::SelectWord,
                }
            }),
    {
        if self.search_results.is_none() {
            return ResultsPanel::NoResults;
        }
        match self.selected_term_index {
            Some(i) => {
                if i < segment_count {
                    ResultsPanel::Segment(i)
                } else {
                    ResultsPanel::SelectWord
                }
            },
            None => ResultsPanel::SelectWord,
        }
    }

    /// Take in the results of the search with `ticket`: only the last
    /// search queued lands; then the cached views are dropped, and the first
    /// segment is selected when none was. Returns whether they were taken in.
    pub fn receive_results(&mut self, ticket: u64, results: Option<R>) -> (applied: bool)
        ensures
            applied == (ticket == old(self).search_serial),
            !applied ==> *final(self) == *old(self),
            applied ==> {
                &&& final(self).search_results == results
                &&& final(self).view_cache@ == Map::<Seq<char>, V>::empty()
                &&& final(self).selected_term_index == (if old(self).selected_term_index is None
                    && results is Some {
                    Some(0usize)
                } else {
                    old(self).selected_term_index
                })
                &&& final(self).query == old(self).query
                &&& final(self).search_serial == old(self).search_serial
                &&& final(self).focused == old(self).focused
                &&& final(self).profile_dropdown_open == old(self).profile_dropdown_open
            },
    {
        if ticket != self.search_serial {
            return false;
        }
        let has_results = results.is_some();
        self.search_results = results;
        self.view_cache.clear();
        if self.selected_term_index.is_none() && has_results {
            self.selected_term_index = Some(0);
        }
        true
    }

    /// Show the entries of the segment at `index`.
    pub fn select_segment(&mut self, index: usize)
        ensures
            final(self).selected_term_index == Some(index),
            final(self).view_cache@ == Map::<Seq<char>, V>::empty(),
            final(self).search_results == old(self).search_results,
            final(self).query == old(self).query,
            final(self).search_serial == old(self).search_serial,
            final(self).focused == old(self).focused,
            final(self).profile_dropdown_open == old(self).profile_dropdown_open,
    {
        self.selected_term_index = Some(index);
        self.view_cache.clear();
    }

    /// The clear button of the search bar: the query, its results and the
    /// selected segment are cleared.
    pub fn clear_results(&mut self)
        ensures
            final(self).query.text@ == Seq::<char>::empty(),
            final(self).query.cursor == 0,
            final(self).query.selection is None,
            final(self).search_results is None,
            final(self).selected_term_index is None,
            final(self).view_cache@ == Map::<Seq<char>, V>::empty(),
            final(self).search_serial == old(self).search_serial,
            final(self).focused == old(self).focused,
            final(self).profile_dropdown_open == old(self).profile_dropdown_open,
    {
        self.query = TextField::empty();
        self.search_results = None;
        self.selected_term_index = None;
        self.view_cache.clear();
    }

    /// Open or close the profile dropdown.
    pub fn toggle_profile_dropdown(&mut self)
        ensures
            final(self).profile_dropdown_open == !old(self).profile_dropdown_open,
            final(self).search_results == old(self).search_results,
            final(self).selected_term_index == old(self).selected_term_index,
            final(self).view_cache@ == old(self).view_cache@,
            final(self).focused == old(self).focused,
            final(self).query == old(self).query,
            final(self).search_serial == old(self).search_serial,
    {
        self.profile_dropdown_open = !self.profile_dropdown_open;
    }

    /// After a profile was picked from the dropdown: it closes and the
    /// cached views, rendered for the old profile, are dropped.
    pub fn profile_picked(&mut self)
        ensures
            !final(self).profile_dropdown_open,
            final(self).view_cache@ == Map::<Seq<char>, V>::empty(),
            final(self).search_results == old(self).search_results,
            final(self).selected_term_index == old(self).selected_term_index,
            final(self).focused == old(self).focused,
            final(self).query == old(self).query,
            final(self).search_serial == old(self).search_serial,
    {
        self.profile_dropdown_open = false;
        self.view_cache.clear();
    }

    /// The view cached under `key`, or a new one made by `create` and
    /// cached under `key`. A cached view is handed out as a clone; a new
    /// view is returned and its clone is cached.
    pub fn get_or_create_view<F: FnOnce() -> V>(&mut self, key: &str, create: F) -> (r: V) where
        V: Clone,
        requires
            create.requires(()),
        ensures
            old(self).view_cache@.contains_key(key@) ==> {
                &&& cloned(old(self).view_cache@[key@], r)
                &&& final(self).view_cache@ == old(self).view_cache@
            },
            !old(self).view_cache@.contains_key(key@) ==> {
                &&& create.ensures((), r)
                &&& final(self).view_cache@.dom() == old(self).view_cache@.dom().insert(key@)
                &&& cloned(r, final(self).view_cache@[key@])
                &&& forall|k: Seq<char>|
                    k != key@ && #[trigger] old(self).view_cache@.contains_key(k)
                        ==> final(self).view_cache@[k] == old(self).view_cache@[k]
            },
            final(self).search_results == old(self).search_results,
            final(self).selected_term_index == old(self).selected_term_index,
            final(self).focused == old(self).focused,
            final(self).query == old(self).query,
            final(self).search_serial == old(self).search_serial,
            final(self).profile_dropdown_open == old(self).profile_dropdown_open,
    {
        match self.view_cache.get(key) {
            Some(view) => {
                return view.clone();
            },
            None => {},
        }
        let view = create();
        let copy = view.clone();
        self.view_cache.insert(key, copy);
        view
    }
}

/// The decimal digit for `d`, which is below ten.
pub open spec fn digit_char(d: nat) -> char {
    ((d + 48) as u8) as char
}

/// The decimal form of `n`, without leading zeros.
pub open spec fn decimal(n: nat) -> Seq<char>
    decreases n,
{
    if n < 10 {
        seq![digit_char(n)]
    } else {
        decimal(n / 10).push(digit_char(n % 10))
    }
}

/// Append the decimal form of `n`.
fn push_decimal(s: &mut String, n: usize)
    ensures
        final(s)@ == old(s)@ + decimal(n as nat),
    decreases n,
{
    if n >= 10 {
        push_decimal(s, n / 10);
    }
    let d = (n % 10) as u8;
    crate::text::string_push(s, (48u8 + d) as char);
}

/// The part of a dictionary entry that a cached view shows.
#[derive(Debug, Clone, Copy, PartialEq, Eq, Structural)]
pub enum EntryViewPart {
    /// The reading of the entry's first headword.
    Reading,
    /// The term of the entry's first headword.
    Term,
    /// One gloss of one definition.
    Gloss { definition: usize, gloss: usize },
}

/// The cache key of a part of the entry at `entry`.
pub open spec fn entry_view_key_of(entry: usize, part: EntryViewPart) -> Seq<char> {
    match part {
        EntryViewPart::Reading => "entry-"@ + decimal(entry as nat) + "-reading"@,
        EntryViewPart::Term => "entry-"@ + decimal(entry as nat) + "-term"@,
        EntryViewPart::Gloss { definition, gloss } => "entry-"@ + decimal(entry as nat) + "-def-"@
            + decimal(definition as nat) + "-gloss-"@ + decimal(gloss as nat),
    }
}

/// Append a string slice.
fn push_str(s: &mut String, t: &str)
    ensures
        final(s)@ == old(s)@ + t@,
{
    let v = crate::text::chars_of(t);
    let mut i: usize = 0;
    while i < v.len()
        invariant
            i <= v.len(),
            v@ == t@,
            s@ == old(s)@ + v@.take(i as int),
        decreases v.len() - i,
    {
        crate::text::string_push(s, v[i]);
        assert(v@.take(i + 1) =~= v@.take(i as int).push(v@[i as int]));
        assert(s@ =~= old(s)@ + v@.take(i + 1));
        i = i + 1;
    }
    assert(v@.take(v.len() as int) =~= v@);
}

/// Whether every character of `s` is a decimal digit.
pub open spec fn all_digits(s: Seq<char>) -> bool {
    forall|i: int| 0 <= i < s.len() ==> '0' <= #[trigger] s[i] && s[i] <= '9'
}

proof fn lemma_digit_char(d: nat)
    requires
        d < 10,
    ensures
        '0' <= digit_char(d) && digit_char(d) <= '9',
        digit_char(d) as int == d + 48,
{
}

proof fn lemma_decimal_digits(n: nat)
    ensures
        all_digits(decimal(n)),
        decimal(n).len() >= 1,
    decreases n,
{
    if n < 10 {
        lemma_digit_char(n);
    } else {
        lemma_decimal_digits(n / 10);
        lemma_digit_char(n % 10);
        let s = decimal(n / 10).push(digit_char(n % 10));
        assert forall|i: int| 0 <= i < s.len() implies '0' <= #[trigger] s[i] && s[i] <= '9' by {
            if i < s.len() - 1 {
                assert(s[i] == decimal(n / 10)[i]);
            }
        }
    }
}

proof fn lemma_decimal_injective(n: nat, m: nat)
    requires
        decimal(n) == decimal(m),
    ensures
        n == m,
    decreases n + m,
{
    lemma_decimal_digits(n / 10);
    lemma_decimal_digits(m / 10);
    if n < 10 && m < 10 {
        lemma_digit_char(n);
        lemma_digit_char(m);
        assert(decimal(n)[0] == digit_char(n));
        assert(decimal(m)[0] == digit_char(m));
    } else if n < 10 {
        assert(decimal(m).len() >= 2);
    } else if m < 10 {
        assert(decimal(n).len() >= 2);
    } else {
        let a = decimal(n);
        let b = decimal(m);
        assert(a.drop_last() =~= decimal(n / 10));
        assert(b.drop_last() =~= decimal(m / 10));
        lemma_decimal_injective(n / 10, m / 10);
        lemma_digit_char(n % 10);
        lemma_digit_char(m % 10);
        assert(a.last() == digit_char(n % 10));
        assert(b.last() == digit_char(m % 10));
    }
}

proof fn lemma_split_before_dash(a: Seq<char>, x: Seq<char>, b: Seq<char>, y: Seq<char>)
    requires
        all_digits(a),
        all_digits(b),
        x.len() > 0,
        x[0] == '-',
        y.len() > 0,
        y[0] == '-',
        a + x == b + y,
    ensures
        a == b,
        x == y,
{
    if a.len() < b.len() {
        assert((a + x)[a.len() as int] == x[0]);
        assert((b + y)[a.len() as int] == b[a.len() as int]);
    } else if b.len() < a.len() {
        assert((b + y)[b.len() as int] == y[0]);
        assert((a + x)[b.len() as int] == a[b.len() as int]);
    }
    assert(a =~= (a + x).take(a.len() as int));
    assert(b =~= (b + y).take(b.len() as int));
    assert(x =~= (a + x).skip(a.len() as int));
    assert(y =~= (b + y).skip(b.len() as int));
}

/// What follows the entry number in the cache key of a part.
spec fn key_tail(part: EntryViewPart) -> Seq<char> {
    match part {
        EntryViewPart::Reading => "-reading"@,
        EntryViewPart::Term => "-term"@,
        EntryViewPart::Gloss { definition, gloss } => "-def-"@ + decimal(definition as nat)
            + "-gloss-"@ + decimal(gloss as nat),
    }
}

/// The parts of one entry have distinct cache keys, so no two views of an
/// entry share a cache slot.
pub proof fn lemma_entry_view_keys_distinct(entry: usize, p: EntryViewPart, q: EntryViewPart)
    requires
        p != q,
    ensures
        entry_view_key_of(entry, p) != entry_view_key_of(entry, q),
{
    reveal_strlit("-reading");
    reveal_strlit("-term");
    reveal_strlit("-def-");
    reveal_strlit("-gloss-");
    let prefix = "entry-"@ + decimal(entry as nat);
    let tp = key_tail(p);
    let tq = key_tail(q);
    assert(entry_view_key_of(entry, p) =~= prefix + tp);
    assert(entry_view_key_of(entry, q) =~= prefix + tq);
    if entry_view_key_of(entry, p) == entry_view_key_of(entry, q) {
        assert(tp =~= (prefix + tp).skip(prefix.len() as int));
        assert(tq =~= (prefix + tq).skip(prefix.len() as int));
        assert(tp == tq);
        match (p, q) {
            (
                EntryViewPart::Gloss { definition: d1, gloss: g1 },
                EntryViewPart::Gloss { definition: d2, gloss: g2 },
            ) => {
                let gl = "-gloss-"@;
                let r1 = decimal(d1 as nat) + (gl + decimal(g1 as nat));
                let r2 = decimal(d2 as nat) + (gl + decimal(g2 as nat));
                assert(tp =~= "-def-"@ + r1);
                assert(tq =~= "-def-"@ + r2);
                assert(r1 =~= tp.skip(5));
                assert(r2 =~= tq.skip(5));
                lemma_decimal_digits(d1 as nat);
                lemma_decimal_digits(d2 as nat);
                lemma_split_before_dash(
                    decimal(d1 as nat),
                    gl + decimal(g1 as nat),
                    decimal(d2 as nat),
                    gl + decimal(g2 as nat),
                );
                lemma_decimal_injective(d1 as nat, d2 as nat);
                assert(decimal(g1 as nat) =~= (gl + decimal(g1 as nat)).skip(7));
                assert(decimal(g2 as nat) =~= (gl + decimal(g2 as nat)).skip(7));
                lemma_decimal_injective(g1 as nat, g2 as nat);
            },
            _ => {
                assert(tp[1] != tq[1]);
            },
        }
    }
}

/// The key under which the view of a part of the entry at `entry` is cached.
pub fn entry_view_key(entry: usize, part: EntryViewPart) -> (r: String)
    ensures
        r@ == entry_view_key_of(entry, part),
{
    let mut s = String::new();
    push_str(&mut s, "entry-");
    push_decimal(&mut s, entry);
    match part {
        EntryViewPart::Reading => {
            push_str(&mut s, "-reading");
        },
        EntryViewPart::Term => {
            push_str(&mut s, "-term");
        },
        EntryViewPart::Gloss { definition, gloss } => {
            push_str(&mut s, "-def-");
            push_decimal(&mut s, definition);
            push_str(&mut s, "-gloss-");
            push_decimal(&mut s, gloss);
        },
    }
    assert(s@ =~= entry_view_key_of(entry, part));
    s
}

} // verus!
