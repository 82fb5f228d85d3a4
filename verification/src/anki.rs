//! The Anki drafts screen: pushing the collected dictionary entries to Anki
//! as notes.
use vstd::prelude::*;
use crate::router::{leave_effects, navigated, LeaveEffects, Router};
use crate::screen::Screen;

verus! {

/// How many pushes succeeded.
pub open spec fn push_successes(outcomes: Seq<Result<(), String>>) -> nat
    decreases outcomes.len(),
{
    if outcomes.len() == 0 {
        0
    } else {
        push_successes(outcomes.drop_last()) + if outcomes.last() is Ok {
            1nat
        } else {
            0nat
        }
    }
}

/// The error messages of the failed pushes, in order.
pub open spec fn push_errors(outcomes: Seq<Result<(), String>>) -> Seq<Seq<char>>
    decreases outcomes.len(),
{
    if outcomes.len() == 0 {
        Seq::empty()
    } else {
        let prev = push_errors(outcomes.drop_last());
        match outcomes.last() {
            Ok(_) => prev,
            Err(e) => prev.push(e@),
        }
    }
}

/// Every draft is counted once: as a success or by its error message.
pub proof fn lemma_every_draft_accounted(outcomes: Seq<Result<(), String>>)
    ensures
        push_successes(outcomes) + push_errors(outcomes).len() == outcomes.len(),
    decreases outcomes.len(),
{
    if outcomes.len() > 0 {
        lemma_every_draft_accounted(outcomes.drop_last());
    }
}

/// The outcome of pushing all drafts.
pub struct PushReport {
    /// How many drafts became notes.
    pub success_count: usize,
    /// The error message of every draft that did not.
    pub errors: Vec<String>,
    /// Whether the drafts are cleared: only when every push succeeded.
    pub clear_drafts: bool,
}

/// State of the Anki drafts screen.
pub struct AnkiRouter {
    /// Whether a push to Anki is under way.
    pub pushing: bool,
}

impl AnkiRouter {
    /// No push under way.
    pub fn new() -> (r: Self)
        ensures
            !r.pushing,
    {
        Self { pushing: false }
    }

    /// A push to Anki starts.
    pub fn begin_push(&mut self)
        ensures
            final(self).pushing,
    {
        self.pushing = true;
    }

    /// A push to Anki ended with one outcome per draft: the report says
    /// how many succeeded, what failed, and whether the drafts are cleared.
    pub fn finish_push(&mut self, outcomes: Vec<Result<(), String>>) -> (r: PushReport)
        ensures
            !final(self).pushing,
            r.success_count == push_successes(outcomes@),
            r.errors@.map_values(|e: String| e@) == push_errors(outcomes@),
            r.clear_drafts == (push_errors(outcomes@).len() == 0),
    {
        let mut success_count: usize = 0;
        let mut errors: Vec<String> = Vec::new();
        let mut i: usize = 0;
        while i < outcomes.len()
            invariant
                i <= outcomes.len(),
                success_count == push_successes(outcomes@.take(i as int)),
                success_count <= i,
                errors@.map_values(|e: String| e@) == push_errors(outcomes@.take(i as int)),
            decreases outcomes.len() - i,
        {
            let ghost before = outcomes@.take(i as int);
            let ghost after = outcomes@.take(i + 1);
            assert(after.drop_last() =~= before);
            match &outcomes[i] {
                Ok(_) => {
                    success_count = success_count + 1;
                },
                Err(e) => {
                    let ghost prev = errors@;
                    errors.push(e.clone());
                    assert(errors@.map_values(|e: String| e@) =~= prev.map_values(
                        |e: String| e@,
                    ).push(e@));
                },
            }
            i = i + 1;
        }
        assert(outcomes@.take(outcomes.len() as int) =~= outcomes@);
        self.pushing = false;
        let clear_drafts = errors.len() == 0;
        PushReport { success_count, errors, clear_drafts }
    }

    /// The settings icon of the drafts screen: it opens the Anki settings.
    pub fn open_settings(router: &mut Router) -> (r: Option<LeaveEffects>)
        ensures
            (final(router).current_screen, final(router).history@) == navigated(
                old(router).current_screen,
                old(router).history@,
                Screen::AnkiSettings,
            ),
            r == (if old(router).current_screen == Screen::AnkiSettings {
                None
            } else {
                Some(leave_effects(old(router).current_screen))
            }),
            final(router).tap_count == old(router).tap_count,
            final(router).dark_mode == old(router).dark_mode,
            final(router).user_name == old(router).user_name,
    {
        router.navigate_to(Screen::AnkiSettings)
    }

    /// The label of the push button.
    pub fn push_button_label(&self) -> (r: &'static str)
        ensures
            r@ == (if self.pushing {
                "Pushing..."@
            } else {
                "Push to Anki"@
            }),
    {
        if self.pushing {
            "Pushing..."
        } else {
            "Push to Anki"
        }
    }

    /// Whether the push button is disabled: while a push is under way or
    /// when there are no drafts.
    pub fn push_disabled(&self, draft_count: usize) -> (r: bool)
        ensures
            r == (self.pushing || draft_count == 0),
    {
        self.pushing || draft_count == 0
    }
}

/// The written form and reading of one headword of a dictionary entry.
pub struct HeadwordText {
    pub term: String,
    pub reading: String,
}

/// What a draft row or entry card shows of an entry: the reading and the
/// term of its first headword.
pub struct DraftRow {
    pub reading: String,
    pub term: String,
}

/// The reading of the first headword, empty when there is none.
pub open spec fn first_reading(headwords: Seq<HeadwordText>) -> Seq<char> {
    if headwords.len() > 0 {
        headwords[0].reading@
    } else {
        Seq::empty()
    }
}

/// The term of the first headword, empty when there is none.
pub open spec fn first_term(headwords: Seq<HeadwordText>) -> Seq<char> {
    if headwords.len() > 0 {
        headwords[0].term@
    } else {
        Seq::empty()
    }
}

/// The reading and term of an entry's first headword, both empty when it
/// has none.
pub fn first_headword_text(headwords: &Vec<HeadwordText>) -> (r: DraftRow)
    ensures
        r.reading@ == first_reading(headwords@),
        r.term@ == first_term(headwords@),
{
    if headwords.len() > 0 {
        DraftRow { reading: headwords[0].reading.clone(), term: headwords[0].term.clone() }
    } else {
        DraftRow { reading: String::new(), term: String::new() }
    }
}

/// Whether a row shows the first headword of `headwords`.
pub open spec fn row_shows(row: DraftRow, headwords: Seq<HeadwordText>) -> bool {
    &&& row.reading@ == first_reading(headwords)
    &&& row.term@ == first_term(headwords)
}

/// What the drafts list shows.
pub enum DraftList {
    /// No drafts: the list shows `empty_drafts_message`.
    Empty,
    /// One row per draft, in order.
    Rows(Vec<DraftRow>),
}

/// The message of an empty drafts list.
pub fn empty_drafts_message() -> (r: &'static str)
    ensures
        r@ == "No drafts yet. Go to Search to add some!"@,
{
    "No drafts yet. Go to Search to add some!"
}

/// The drafts list for drafts given by the headwords of their entries: the
/// empty message when there are none, else one row per draft in order.
pub fn draft_list(drafts: &Vec<Vec<HeadwordText>>) -> (r: DraftList)
    ensures
        (drafts@.len() == 0) == (r is Empty),
        r matches DraftList::Rows(rows) ==> {
            &&& rows@.len() == drafts@.len()
            &&& forall|i: int| 0 <= i < drafts@.len() ==> row_shows(#[trigger] rows@[i], drafts@[i]@)
        },
{
    if drafts.len() == 0 {
        return DraftList::Empty;
    }
    let mut rows: Vec<DraftRow> = Vec::new();
    let mut i: usize = 0;
    while i < drafts.len()
        invariant
            i <= drafts.len(),
            rows@.len() == i,
            forall|k: int| 0 <= k < i ==> row_shows(#[trigger] rows@[k], drafts@[k]@),
        decreases drafts.len() - i,
    {
        let row = first_headword_text(&drafts[i]);
        assert(row_shows(row, drafts@[i as int]@));
        rows.push(row);
        i = i + 1;
    }
    DraftList::Rows(rows)
}

} // verus!
