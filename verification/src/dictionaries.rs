//! The dictionaries screen: which installed dictionaries take part in
//! lookups, and the lookup language.
use vstd::prelude::*;

verus! {

/// One installed dictionary of the current profile.
pub struct DictionarySetting {
    /// The title of the dictionary.
    pub name: String,
    /// Whether the dictionary takes part in lookups.
    pub enabled: bool,
}

/// The position of the first dictionary titled `name`, if any.
pub open spec fn first_dictionary_named(dictionaries: Seq<DictionarySetting>, name: Seq<char>) -> Option<int> {
    if exists|i: int| 0 <= i < dictionaries.len() && dictionaries[i].name@ == name {
        Some(
            choose|i: int|
                0 <= i < dictionaries.len() && dictionaries[i].name@ == name && forall|j: int|
                    0 <= j < i ==> dictionaries[j].name@ != name,
        )
    } else {
        None
    }
}

/// The dictionaries with the first one titled `name` switched to `state`;
/// unchanged when none has that title.
pub open spec fn with_first_enabled(
    dictionaries: Seq<DictionarySetting>,
    name: Seq<char>,
    state: bool,
) -> Seq<DictionarySetting> {
    match first_dictionary_named(dictionaries, name) {
        Some(i) => dictionaries.update(
            i,
            DictionarySetting { name: dictionaries[i].name, enabled: state },
        ),
        None => dictionaries,
    }
}

proof fn lemma_first_named_unique(d: Seq<DictionarySetting>, name: Seq<char>, i: int)
    requires
        0 <= i < d.len(),
        d[i].name@ == name,
        forall|j: int| 0 <= j < i ==> d[j].name@ != name,
    ensures
        first_dictionary_named(d, name) == Some(i),
{
    let w = choose|k: int|
        0 <= k < d.len() && d[k].name@ == name && forall|j: int| 0 <= j < k ==> d[j].name@ != name;
    assert(0 <= w < d.len() && d[w].name@ == name && forall|j: int| 0 <= j < w ==> d[j].name@ != name);
    if w < i {
        assert(d[w].name@ != name);
    } else if w > i {
        assert(d[i].name@ != name);
    }
}

proof fn lemma_first_named_found(d: Seq<DictionarySetting>, name: Seq<char>)
    ensures
        match first_dictionary_named(d, name) {
            Some(i) => 0 <= i < d.len() && d[i].name@ == name && forall|j: int|
                0 <= j < i ==> d[j].name@ != name,
            None => forall|j: int| 0 <= j < d.len() ==> d[j].name@ != name,
        },
{
    if exists|i: int| 0 <= i < d.len() && d[i].name@ == name {
        let k = choose|i: int| 0 <= i < d.len() && d[i].name@ == name;
        lemma_first_exists(d, name, k);
    }
}

proof fn lemma_first_exists(d: Seq<DictionarySetting>, name: Seq<char>, k: int)
    requires
        0 <= k < d.len(),
        d[k].name@ == name,
    ensures
        exists|i: int|
            0 <= i < d.len() && d[i].name@ == name && forall|j: int| 0 <= j < i ==> d[j].name@ != name,
    decreases k,
{
    if exists|j: int| 0 <= j < k && d[j].name@ == name {
        let j = choose|j: int| 0 <= j < k && d[j].name@ == name;
        lemma_first_exists(d, name, j);
    } else {
        assert(forall|j: int| 0 <= j < k ==> d[j].name@ != name);
    }
}

/// Switching a dictionary and switching it back to its former state
/// restores every dictionary.
pub proof fn lemma_toggle_back_restores(d: Seq<DictionarySetting>, name: Seq<char>, state: bool)
    ensures
        with_first_enabled(
            with_first_enabled(d, name, state),
            name,
            match first_dictionary_named(d, name) {
                Some(i) => d[i].enabled,
                None => state,
            },
        ) == d,
{
    lemma_first_named_found(d, name);
    match first_dictionary_named(d, name) {
        Some(i) => {
            let d1 = with_first_enabled(d, name, state);
            assert forall|j: int| 0 <= j < i implies d1[j].name@ != name by {
                assert(d1[j] == d[j]);
            }
            lemma_first_named_unique(d1, name, i);
            assert(with_first_enabled(d1, name, d[i].enabled) =~= d);
        },
        None => {},
    }
}

/// A language the lookups can be made in.
#[derive(Debug, Clone, Copy)]
pub struct LanguageChip {
    pub label: &'static str,
    pub iso: &'static str,
    pub active: bool,
}

/// A control on a dictionary's card.
#[derive(Debug, Clone, Copy, PartialEq, Eq, Structural)]
pub enum CardControl {
    /// The ON/OFF badge.
    EnabledBadge,
    /// The REMOVE button.
    Remove,
}

/// What pressing a control of a dictionary's card asks for.
#[derive(Debug)]
pub enum DictionaryAction {
    /// Turn the dictionary titled `name` on or off.
    SetEnabled { name: String, enabled: bool },
    /// Remove the dictionary titled `name`.
    Remove { name: String },
}

/// State of the dictionaries screen.
pub struct DictionariesState {}

impl DictionariesState {
    /// The screen's state.
    pub fn new() -> Self {
        DictionariesState {}
    }

    /// Turn the first dictionary titled `dict_name` on or off; when none
    /// has that title nothing changes.
    pub fn toggle_dictionary_enabled(
        dictionaries: &mut Vec<DictionarySetting>,
        dict_name: &str,
        new_state: bool,
    ) -> (r: Option<usize>)
        ensures
            final(dictionaries)@ == with_first_enabled(old(dictionaries)@, dict_name@, new_state),
            r == (match first_dictionary_named(old(dictionaries)@, dict_name@) {
                Some(i) => Some(i as usize),
                None => None,
            }),
    {
        let target = dict_name.to_string();
        let mut i: usize = 0;
        while i < dictionaries.len()
            invariant
                i <= dictionaries.len(),
                dictionaries@ == old(dictionaries)@,
                target@ == dict_name@,
                forall|j: int| 0 <= j < i ==> dictionaries@[j].name@ != dict_name@,
            decreases dictionaries.len() - i,
        {
            if dictionaries[i].name == target {
                proof {
                    lemma_first_named_unique(dictionaries@, dict_name@, i as int);
                }
                let name = dictionaries[i].name.clone();
                dictionaries.set(i, DictionarySetting { name, enabled: new_state });
                return Some(i);
            }
            i = i + 1;
        }
        proof {
            lemma_first_named_found(dictionaries@, dict_name@);
        }
        None
    }

    /// What pressing `control` on the card of `setting` asks for: the badge
    /// switches the dictionary to the opposite state, REMOVE removes it.
    pub fn card_action(setting: &DictionarySetting, control: CardControl) -> (r: DictionaryAction)
        ensures
            control == CardControl::EnabledBadge ==> (r matches DictionaryAction::SetEnabled {
                name,
                enabled,
            } && name@ == setting.name@ && enabled == !setting.enabled),
            control == CardControl::Remove ==> (r matches DictionaryAction::Remove { name }
                && name@ == setting.name@),
    {
        match control {
            CardControl::EnabledBadge => DictionaryAction::SetEnabled {
                name: setting.name.clone(),
                enabled: !setting.enabled,
            },
            CardControl::Remove => DictionaryAction::Remove { name: setting.name.clone() },
        }
    }

    /// The label of a dictionary's on/off switch.
    pub fn enabled_label(enabled: bool) -> (r: &'static str)
        ensures
            r@ == (if enabled {
                "ON"@
            } else {
                "OFF"@
            }),
    {
        if enabled {
            "ON"
        } else {
            "OFF"
        }
    }

    /// The lookup languages offered, the one equal to `current` active.
    pub fn language_chips(current: &str) -> (r: Vec<LanguageChip>)
        ensures
            r@.len() == 3,
            r@[0].label@ == "Japanese"@ && r@[0].iso@ == "ja"@,
            r@[1].label@ == "English"@ && r@[1].iso@ == "en"@,
            r@[2].label@ == "Spanish"@ && r@[2].iso@ == "es"@,
            forall|i: int| 0 <= i < 3 ==> #[trigger] r@[i].active == (r@[i].iso@ == current@),
    {
        let current = current.to_string();
        let ja = "ja".to_string();
        let en = "en".to_string();
        let es = "es".to_string();
        let mut r: Vec<LanguageChip> = Vec::new();
        r.push(LanguageChip { label: "Japanese", iso: "ja", active: ja == current });
        r.push(LanguageChip { label: "English", iso: "en", active: en == current });
        r.push(LanguageChip { label: "Spanish", iso: "es", active: es == current });
        r
    }
}

} // verus!
