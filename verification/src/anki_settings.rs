//! The Anki settings screen: which deck and note model cards go to, and
//! which part of a dictionary entry fills each field of the model.
use vstd::prelude::*;

verus! {

/// Represents a specific field type within an Anki note.
#[derive(Debug, Clone, Copy, PartialEq, Eq, Structural)]
pub enum AnkiField {
    Term,
    Reading,
    Sentence,
    Definition,
    TermAudio,
    SentenceAudio,
    Image,
    Frequency,
}

/// A field kind placed at a position of the note model's field list.
#[derive(Debug, Clone, Copy, PartialEq, Eq, Structural)]
pub enum FieldIndex {
    Term(usize),
    Reading(usize),
    Sentence(usize),
    Definition(usize),
    TermAudio(usize),
    SentenceAudio(usize),
    Image(usize),
    Frequency(usize),
}

/// A field kind bound to a model field by the field's name, as the
/// settings store keeps it.
#[derive(Debug)]
pub enum AnkiTermFieldType {
    Term(String),
    Reading(String),
    Sentence(String),
    Definition(String),
    TermAudio(String),
    SentenceAudio(String),
    Image(String),
    Frequency(String),
}

/// The `FieldIndex` of a kind at a position.
pub open spec fn field_index_for(kind: AnkiField, i: usize) -> FieldIndex {
    match kind {
        AnkiField::Term => FieldIndex::Term(i),
        AnkiField::Reading => FieldIndex::Reading(i),
        AnkiField::Sentence => FieldIndex::Sentence(i),
        AnkiField::Definition => FieldIndex::Definition(i),
        AnkiField::TermAudio => FieldIndex::TermAudio(i),
        AnkiField::SentenceAudio => FieldIndex::SentenceAudio(i),
        AnkiField::Image => FieldIndex::Image(i),
        AnkiField::Frequency => FieldIndex::Frequency(i),
    }
}

/// The kind of a `FieldIndex`.
pub open spec fn field_index_kind(f: FieldIndex) -> AnkiField {
    match f {
        FieldIndex::Term(_) => AnkiField::Term,
        FieldIndex::Reading(_) => AnkiField::Reading,
        FieldIndex::Sentence(_) => AnkiField::Sentence,
        FieldIndex::Definition(_) => AnkiField::Definition,
        FieldIndex::TermAudio(_) => AnkiField::TermAudio,
        FieldIndex::SentenceAudio(_) => AnkiField::SentenceAudio,
        FieldIndex::Image(_) => AnkiField::Image,
        FieldIndex::Frequency(_) => AnkiField::Frequency,
    }
}

/// The position of a `FieldIndex`.
pub open spec fn field_index_position(f: FieldIndex) -> usize {
    match f {
        FieldIndex::Term(i) => i,
        FieldIndex::Reading(i) => i,
        FieldIndex::Sentence(i) => i,
        FieldIndex::Definition(i) => i,
        FieldIndex::TermAudio(i) => i,
        FieldIndex::SentenceAudio(i) => i,
        FieldIndex::Image(i) => i,
        FieldIndex::Frequency(i) => i,
    }
}

/// The `AnkiTermFieldType` of a kind bound to a field name.
pub open spec fn term_field_for(kind: AnkiField, name: String) -> AnkiTermFieldType {
    match kind {
        AnkiField::Term => AnkiTermFieldType::Term(name),
        AnkiField::Reading => AnkiTermFieldType::Reading(name),
        AnkiField::Sentence => AnkiTermFieldType::Sentence(name),
        AnkiField::Definition => AnkiTermFieldType::Definition(name),
        AnkiField::TermAudio => AnkiTermFieldType::TermAudio(name),
        AnkiField::SentenceAudio => AnkiTermFieldType::SentenceAudio(name),
        AnkiField::Image => AnkiTermFieldType::Image(name),
        AnkiField::Frequency => AnkiTermFieldType::Frequency(name),
    }
}

/// The kind of an `AnkiTermFieldType`.
pub open spec fn term_field_kind(t: AnkiTermFieldType) -> AnkiField {
    match t {
        AnkiTermFieldType::Term(_) => AnkiField::Term,
        AnkiTermFieldType::Reading(_) => AnkiField::Reading,
        AnkiTermFieldType::Sentence(_) => AnkiField::Sentence,
        AnkiTermFieldType::Definition(_) => AnkiField::Definition,
        AnkiTermFieldType::TermAudio(_) => AnkiField::TermAudio,
        AnkiTermFieldType::SentenceAudio(_) => AnkiField::SentenceAudio,
        AnkiTermFieldType::Image(_) => AnkiField::Image,
        AnkiTermFieldType::Frequency(_) => AnkiField::Frequency,
    }
}

/// The model field name of an `AnkiTermFieldType`.
pub open spec fn term_field_name(t: AnkiTermFieldType) -> Seq<char> {
    match t {
        AnkiTermFieldType::Term(n) => n@,
        AnkiTermFieldType::Reading(n) => n@,
        AnkiTermFieldType::Sentence(n) => n@,
        AnkiTermFieldType::Definition(n) => n@,
        AnkiTermFieldType::TermAudio(n) => n@,
        AnkiTermFieldType::SentenceAudio(n) => n@,
        AnkiTermFieldType::Image(n) => n@,
        AnkiTermFieldType::Frequency(n) => n@,
    }
}

/// The names of a list of model fields.
pub open spec fn field_names(fields: Seq<String>) -> Seq<Seq<char>> {
    fields.map_values(|f: String| f@)
}

/// The mapping of each model field that stored bindings give: every
/// binding sets the first field of its name to its kind, later bindings
/// overriding earlier ones, and bindings to absent names are ignored.
pub open spec fn mapping_from_bindings(
    names: Seq<Seq<char>>,
    bindings: Seq<AnkiTermFieldType>,
) -> Seq<Option<AnkiField>>
    decreases bindings.len(),
{
    if bindings.len() == 0 {
        Seq::new(names.len(), |i: int| None)
    } else {
        let prev = mapping_from_bindings(names, bindings.drop_last());
        let b = bindings.last();
        match names.index_of_first(term_field_name(b)) {
            Some(i) => prev.update(i, Some(term_field_kind(b))),
            None => prev,
        }
    }
}

/// The `FieldIndex` list that a mapping saves: one entry per mapped field,
/// in field order.
pub open spec fn field_indices_of(mapping: Seq<Option<AnkiField>>) -> Seq<FieldIndex>
    decreases mapping.len(),
{
    if mapping.len() == 0 {
        Seq::empty()
    } else {
        let prev = field_indices_of(mapping.drop_last());
        match mapping.last() {
            Some(kind) => prev.push(field_index_for(kind, (mapping.len() - 1) as usize)),
            None => prev,
        }
    }
}

/// The name-based bindings that the settings store keeps for saved
/// `FieldIndex` entries: each position is replaced by the name of the model
/// field at that position.
pub open spec fn bindings_of_indices(
    indices: Seq<FieldIndex>,
    fields: Seq<String>,
) -> Seq<AnkiTermFieldType> {
    indices.map_values(
        |f: FieldIndex| term_field_for(field_index_kind(f), fields[field_index_position(f) as int]),
    )
}

/// The position of the first model field named `name`.
fn position_of_field(fields: &Vec<String>, name: &String) -> (r: Option<usize>)
    ensures
        match r {
            Some(i) => field_names(fields@).index_of_first(name@) == Some(i as int),
            None => field_names(fields@).index_of_first(name@) is None,
        },
{
    let ghost names = field_names(fields@);
    let mut i: usize = 0;
    while i < fields.len()
        invariant
            i <= fields.len(),
            names == field_names(fields@),
            forall|j: int| 0 <= j < i ==> names[j] != name@,
        decreases fields.len() - i,
    {
        if fields[i] == *name {
            assert(names[i as int] == name@);
            assert(names.contains(name@));
            proof {
                names.index_of_first_ensures(name@);
            }
            return Some(i);
        }
        i = i + 1;
    }
    assert(!names.contains(name@));
    proof {
        names.index_of_first_ensures(name@);
    }
    None
}

/// The kind and field name of a stored binding.
fn binding_parts(b: &AnkiTermFieldType) -> (r: (AnkiField, &String))
    ensures
        r.0 == term_field_kind(*b),
        r.1@ == term_field_name(*b),
{
    match b {
        AnkiTermFieldType::Term(n) => (AnkiField::Term, n),
        AnkiTermFieldType::Reading(n) => (AnkiField::Reading, n),
        AnkiTermFieldType::Sentence(n) => (AnkiField::Sentence, n),
        AnkiTermFieldType::Definition(n) => (AnkiField::Definition, n),
        AnkiTermFieldType::TermAudio(n) => (AnkiField::TermAudio, n),
        AnkiTermFieldType::SentenceAudio(n) => (AnkiField::SentenceAudio, n),
        AnkiTermFieldType::Image(n) => (AnkiField::Image, n),
        AnkiTermFieldType::Frequency(n) => (AnkiField::Frequency, n),
    }
}

/// `n` copies of `false`.
fn all_closed(n: usize) -> (r: Vec<bool>)
    ensures
        r@ == Seq::new(n as nat, |i: int| false),
{
    let mut r: Vec<bool> = Vec::new();
    let mut i: usize = 0;
    while i < n
        invariant
            i <= n,
            r@ =~= Seq::new(i as nat, |k: int| false),
        decreases n - i,
    {
        r.push(false);
        i = i + 1;
    }
    r
}

/// What the Anki connection reports when the settings screen loads.
pub struct FetchedAnkiData {
    pub deck_names: Vec<String>,
    pub model_names: Vec<String>,
    pub selected_deck: Option<usize>,
    pub selected_model: Option<usize>,
    pub model_fields: Vec<String>,
    pub existing_mappings: Vec<AnkiTermFieldType>,
}

/// State of the Anki settings screen.
pub struct AnkiSettingsState {
    pub deck_names: Vec<String>,
    pub model_names: Vec<String>,
    pub selected_deck: Option<usize>,
    pub selected_model: Option<usize>,
    pub model_fields: Vec<String>,
    pub field_mappings: Vec<Option<AnkiField>>,
    pub loading: bool,
    pub deck_dropdown_open: bool,
    pub model_dropdown_open: bool,
    pub field_dropdowns_open: Vec<bool>,
}

impl AnkiSettingsState {
    /// Every model field has one mapping entry and one dropdown flag.
    pub open spec fn well_formed(&self) -> bool {
        &&& self.field_mappings@.len() == self.model_fields@.len()
        &&& self.field_dropdowns_open@.len() == self.model_fields@.len()
    }

    /// The state before the Anki data has loaded.
    pub fn new() -> (s: Self)
        ensures
            s.well_formed(),
            s.deck_names@.len() == 0,
            s.model_names@.len() == 0,
            s.selected_deck is None,
            s.selected_model is None,
            s.model_fields@.len() == 0,
            s.loading,
            !s.deck_dropdown_open,
            !s.model_dropdown_open,
    {
        AnkiSettingsState {
            deck_names: Vec::new(),
            model_names: Vec::new(),
            selected_deck: None,
            selected_model: None,
            model_fields: Vec::new(),
            field_mappings: Vec::new(),
            loading: true,
            deck_dropdown_open: false,
            model_dropdown_open: false,
            field_dropdowns_open: Vec::new(),
        }
    }

    /// Rebuild the mapping of every model field from the stored bindings:
    /// each binding marks the first model field of its name, later
    /// bindings win, and bindings to names the model lacks are ignored.
    pub fn apply_existing_mappings(&mut self, mappings: Vec<AnkiTermFieldType>)
        ensures
            final(self).field_mappings@ == mapping_from_bindings(
                field_names(old(self).model_fields@),
                mappings@,
            ),
            final(self).field_mappings@.len() == old(self).model_fields@.len(),
            final(self).model_fields == old(self).model_fields,
            final(self).field_dropdowns_open == old(self).field_dropdowns_open,
            final(self).deck_names == old(self).deck_names,
            final(self).model_names == old(self).model_names,
            final(self).selected_deck == old(self).selected_deck,
            final(self).selected_model == old(self).selected_model,
            final(self).loading == old(self).loading,
            final(self).deck_dropdown_open == old(self).deck_dropdown_open,
            final(self).model_dropdown_open == old(self).model_dropdown_open,
    {
        let ghost names = field_names(self.model_fields@);
        let n = self.model_fields.len();
        let mut result: Vec<Option<AnkiField>> = Vec::new();
        let mut i: usize = 0;
        while i < n
            invariant
                i <= n,
                result@ =~= Seq::new(i as nat, |k: int| None::<AnkiField>),
            decreases n - i,
        {
            result.push(None);
            i = i + 1;
        }
        assert(result@ =~= mapping_from_bindings(names, mappings@.take(0)));
        let mut k: usize = 0;
        while k < mappings.len()
            invariant
                k <= mappings.len(),
                names == field_names(self.model_fields@),
                names.len() == n,
                n == self.model_fields.len(),
                result@ == mapping_from_bindings(names, mappings@.take(k as int)),
                result@.len() == n,
            decreases mappings.len() - k,
        {
            let ghost before = mappings@.take(k as int);
            let ghost after = mappings@.take(k + 1);
            assert(after.drop_last() =~= before);
            assert(after.last() == mappings@[k as int]);
            let (kind, name) = binding_parts(&mappings[k]);
            let pos = position_of_field(&self.model_fields, name);
            match pos {
                Some(p) => {
                    proof {
                        names.index_of_first_ensures(name@);
                    }
                    result.set(p, Some(kind));
                },
                None => {},
            }
            k = k + 1;
        }
        assert(mappings@.take(mappings.len() as int) =~= mappings@);
        self.field_mappings = result;
    }

    /// Take in what the Anki connection reported: the decks and models,
    /// the selected ones, the selected model's fields and the stored
    /// bindings. All field dropdowns start closed and loading ends.
    pub fn refresh_anki_data(&mut self, fetched: FetchedAnkiData)
        ensures
            final(self).well_formed(),
            final(self).deck_names == fetched.deck_names,
            final(self).model_names == fetched.model_names,
            final(self).selected_deck == fetched.selected_deck,
            final(self).selected_model == fetched.selected_model,
            final(self).model_fields == fetched.model_fields,
            final(self).field_mappings@ == mapping_from_bindings(
                field_names(fetched.model_fields@),
                fetched.existing_mappings@,
            ),
            final(self).field_dropdowns_open@ == Seq::new(
                fetched.model_fields@.len(),
                |i: int| false,
            ),
            !final(self).loading,
            final(self).deck_dropdown_open == old(self).deck_dropdown_open,
            final(self).model_dropdown_open == old(self).model_dropdown_open,
    {
        let FetchedAnkiData {
            deck_names,
            model_names,
            selected_deck,
            selected_model,
            model_fields,
            existing_mappings,
        } = fetched;
        self.deck_names = deck_names;
        self.model_names = model_names;
        self.selected_deck = selected_deck;
        self.selected_model = selected_model;
        self.model_fields = model_fields;
        self.apply_existing_mappings(existing_mappings);
        self.field_dropdowns_open = all_closed(self.model_fields.len());
        self.loading = false;
    }

    /// Select the deck at `idx` and close the deck dropdown.
    pub fn select_deck(&mut self, idx: usize)
        ensures
            final(self).selected_deck == Some(idx),
            !final(self).deck_dropdown_open,
            final(self).selected_model == old(self).selected_model,
            final(self).model_fields == old(self).model_fields,
            final(self).field_mappings == old(self).field_mappings,
            final(self).field_dropdowns_open == old(self).field_dropdowns_open,
            final(self).model_dropdown_open == old(self).model_dropdown_open,
            final(self).deck_names == old(self).deck_names,
            final(self).model_names == old(self).model_names,
            final(self).loading == old(self).loading,
    {
        self.selected_deck = Some(idx);
        self.deck_dropdown_open = false;
    }

    /// Select the model at `idx`: take in its fields and the stored
    /// bindings, close every dropdown of the model.
    pub fn select_model(
        &mut self,
        idx: usize,
        model_fields: Vec<String>,
        existing_mappings: Vec<AnkiTermFieldType>,
    )
        ensures
            final(self).well_formed(),
            final(self).selected_model == Some(idx),
            final(self).model_fields == model_fields,
            final(self).field_mappings@ == mapping_from_bindings(
                field_names(model_fields@),
                existing_mappings@,
            ),
            final(self).field_dropdowns_open@ == Seq::new(model_fields@.len(), |i: int| false),
            !final(self).model_dropdown_open,
            final(self).selected_deck == old(self).selected_deck,
            final(self).deck_dropdown_open == old(self).deck_dropdown_open,
            final(self).deck_names == old(self).deck_names,
            final(self).model_names == old(self).model_names,
            final(self).loading == old(self).loading,
    {
        self.selected_model = Some(idx);
        self.model_fields = model_fields;
        self.apply_existing_mappings(existing_mappings);
        self.field_dropdowns_open = all_closed(self.model_fields.len());
        self.model_dropdown_open = false;
    }

    /// Map the model field at `field_idx` to `field_type` and close its
    /// dropdown; an index past the fields changes nothing.
    pub fn set_mapping(&mut self, field_idx: usize, field_type: AnkiField)
        requires
            field_idx < old(self).field_mappings@.len() ==> field_idx
                < old(self).field_dropdowns_open@.len(),
        ensures
            old(self).well_formed() ==> final(self).well_formed(),
            field_idx < old(self).field_mappings@.len() ==> {
                &&& final(self).field_mappings@ == old(self).field_mappings@.update(
                    field_idx as int,
                    Some(field_type),
                )
                &&& final(self).field_dropdowns_open@ == old(self).field_dropdowns_open@.update(
                    field_idx as int,
                    false,
                )
            },
            field_idx >= old(self).field_mappings@.len() ==> {
                &&& final(self).field_mappings == old(self).field_mappings
                &&& final(self).field_dropdowns_open == old(self).field_dropdowns_open
            },
            final(self).model_fields == old(self).model_fields,
            final(self).selected_deck == old(self).selected_deck,
            final(self).selected_model == old(self).selected_model,
            final(self).deck_dropdown_open == old(self).deck_dropdown_open,
            final(self).model_dropdown_open == old(self).model_dropdown_open,
            final(self).deck_names == old(self).deck_names,
            final(self).model_names == old(self).model_names,
            final(self).loading == old(self).loading,
    {
        if field_idx < self.field_mappings.len() {
            self.field_mappings.set(field_idx, Some(field_type));
            self.field_dropdowns_open.set(field_idx, false);
        }
    }

    /// The `FieldIndex` list to store: one entry per mapped model field,
    /// in field order.
    pub fn save_settings(&self) -> (r: Vec<FieldIndex>)
        ensures
            r@ == field_indices_of(self.field_mappings@),
    {
        let mut r: Vec<FieldIndex> = Vec::new();
        let mut i: usize = 0;
        while i < self.field_mappings.len()
            invariant
                i <= self.field_mappings.len(),
                r@ == field_indices_of(self.field_mappings@.take(i as int)),
            decreases self.field_mappings.len() - i,
        {
            let ghost before = self.field_mappings@.take(i as int);
            let ghost after = self.field_mappings@.take(i + 1);
            assert(after.drop_last() =~= before);
            match self.field_mappings[i] {
                Some(ft) => {
                    let m = match ft {
                        AnkiField::Term => FieldIndex::Term(i),
                        AnkiField::Reading => FieldIndex::Reading(i),
                        AnkiField::Sentence => FieldIndex::Sentence(i),
                        AnkiField::Definition => FieldIndex::Definition(i),
                        AnkiField::TermAudio => FieldIndex::TermAudio(i),
                        AnkiField::SentenceAudio => FieldIndex::SentenceAudio(i),
                        AnkiField::Image => FieldIndex::Image(i),
                        AnkiField::Frequency => FieldIndex::Frequency(i),
                    };
                    r.push(m);
                },
                None => {},
            }
            i = i + 1;
        }
        assert(self.field_mappings@.take(self.field_mappings.len() as int) =~= self.field_mappings@);
        r
    }
}


/// The name of a field kind, as the mapping dropdown shows it.
pub open spec fn field_kind_name(kind: AnkiField) -> Seq<char> {
    match kind {
        AnkiField::Term => "Term"@,
        AnkiField::Reading => "Reading"@,
        AnkiField::Sentence => "Sentence"@,
        AnkiField::Definition => "Definition"@,
        AnkiField::TermAudio => "TermAudio"@,
        AnkiField::SentenceAudio => "SentenceAudio"@,
        AnkiField::Image => "Image"@,
        AnkiField::Frequency => "Frequency"@,
    }
}

/// The kinds offered in the mapping dropdown, in menu order.
pub open spec fn menu_kind(i: int) -> AnkiField {
    if i == 0 {
        AnkiField::Term
    } else if i == 1 {
        AnkiField::Reading
    } else if i == 2 {
        AnkiField::Sentence
    } else if i == 3 {
        AnkiField::Definition
    } else if i == 4 {
        AnkiField::TermAudio
    } else if i == 5 {
        AnkiField::SentenceAudio
    } else if i == 6 {
        AnkiField::Image
    } else {
        AnkiField::Frequency
    }
}

/// The menu labels of the kinds offered in the mapping dropdown.
pub open spec fn menu_label(i: int) -> Seq<char> {
    if i == 0 {
        "Term"@
    } else if i == 1 {
        "Reading"@
    } else if i == 2 {
        "Sentence"@
    } else if i == 3 {
        "Definition"@
    } else if i == 4 {
        "Term Audio"@
    } else if i == 5 {
        "Sentence Audio"@
    } else if i == 6 {
        "Image"@
    } else {
        "Frequency"@
    }
}

/// The label of a dropdown over `names`: the selected name, or `default`
/// when nothing is selected or the selection lies past the names.
pub open spec fn selection_label(names: Seq<String>, selected: Option<usize>, default: Seq<char>) -> Seq<char> {
    match selected {
        Some(i) => if i < names.len() { names[i as int]@ } else { default },
        None => default,
    }
}

impl AnkiField {
    /// The name of the kind, as the mapping dropdown shows it.
    pub fn kind_name(&self) -> (r: &'static str)
        ensures
            r@ == field_kind_name(*self),
    {
        match self {
            AnkiField::Term => "Term",
            AnkiField::Reading => "Reading",
            AnkiField::Sentence => "Sentence",
            AnkiField::Definition => "Definition",
            AnkiField::TermAudio => "TermAudio",
            AnkiField::SentenceAudio => "SentenceAudio",
            AnkiField::Image => "Image",
            AnkiField::Frequency => "Frequency",
        }
    }

    /// The kinds offered in the mapping dropdown with their labels.
    pub fn available_fields() -> (r: Vec<(&'static str, AnkiField)>)
        ensures
            r@.len() == 8,
            forall|i: int| 0 <= i < 8 ==> #[trigger] r@[i].1 == menu_kind(i) && r@[i].0@ == menu_label(i),
    {
        let mut r: Vec<(&'static str, AnkiField)> = Vec::new();
        r.push(("Term", AnkiField::Term));
        r.push(("Reading", AnkiField::Reading));
        r.push(("Sentence", AnkiField::Sentence));
        r.push(("Definition", AnkiField::Definition));
        r.push(("Term Audio", AnkiField::TermAudio));
        r.push(("Sentence Audio", AnkiField::SentenceAudio));
        r.push(("Image", AnkiField::Image));
        r.push(("Frequency", AnkiField::Frequency));
        r
    }
}

/// The label of a dropdown over `names` with the given selection.
fn selection_label_of(names: &Vec<String>, selected: Option<usize>, default: &str) -> (r: String)
    ensures
        r@ == selection_label(names@, selected, default@),
{
    match selected {
        Some(i) => {
            if i < names.len() {
                names[i].clone()
            } else {
                default.to_string()
            }
        },
        None => default.to_string(),
    }
}

impl AnkiSettingsState {
    /// The label of the deck dropdown.
    pub fn deck_label(&self) -> (r: String)
        ensures
            r@ == selection_label(self.deck_names@, self.selected_deck, "Select Deck"@),
    {
        selection_label_of(&self.deck_names, self.selected_deck, "Select Deck")
    }

    /// The label of the model dropdown.
    pub fn model_label(&self) -> (r: String)
        ensures
            r@ == selection_label(self.model_names@, self.selected_model, "Select Model"@),
    {
        selection_label_of(&self.model_names, self.selected_model, "Select Model")
    }

    /// The label of the mapping dropdown of the model field at `i`.
    pub fn mapping_label(&self, i: usize) -> (r: &'static str)
        requires
            i < self.field_mappings@.len(),
        ensures
            r@ == match self.field_mappings@[i as int] {
                Some(kind) => field_kind_name(kind),
                None => "None"@,
            },
    {
        match self.field_mappings[i] {
            Some(kind) => kind.kind_name(),
            None => "None",
        }
    }

    /// Open or close the deck dropdown.
    pub fn toggle_deck_dropdown(&mut self)
        ensures
            final(self).deck_dropdown_open == !old(self).deck_dropdown_open,
            final(self).model_dropdown_open == old(self).model_dropdown_open,
            final(self).field_dropdowns_open == old(self).field_dropdowns_open,
            final(self).field_mappings == old(self).field_mappings,
            final(self).model_fields == old(self).model_fields,
            final(self).selected_deck == old(self).selected_deck,
            final(self).selected_model == old(self).selected_model,
    {
        self.deck_dropdown_open = !self.deck_dropdown_open;
    }

    /// Open or close the model dropdown.
    pub fn toggle_model_dropdown(&mut self)
        ensures
            final(self).model_dropdown_open == !old(self).model_dropdown_open,
            final(self).deck_dropdown_open == old(self).deck_dropdown_open,
            final(self).field_dropdowns_open == old(self).field_dropdowns_open,
            final(self).field_mappings == old(self).field_mappings,
            final(self).model_fields == old(self).model_fields,
            final(self).selected_deck == old(self).selected_deck,
            final(self).selected_model == old(self).selected_model,
    {
        self.model_dropdown_open = !self.model_dropdown_open;
    }

    /// Open or close the mapping dropdown of the model field at `i`.
    pub fn toggle_field_dropdown(&mut self, i: usize)
        requires
            i < old(self).field_dropdowns_open@.len(),
        ensures
            final(self).field_dropdowns_open@ == old(self).field_dropdowns_open@.update(
                i as int,
                !old(self).field_dropdowns_open@[i as int],
            ),
            final(self).deck_dropdown_open == old(self).deck_dropdown_open,
            final(self).model_dropdown_open == old(self).model_dropdown_open,
            final(self).field_mappings == old(self).field_mappings,
            final(self).model_fields == old(self).model_fields,
            final(self).selected_deck == old(self).selected_deck,
            final(self).selected_model == old(self).selected_model,
    {
        let open = self.field_dropdowns_open[i];
        self.field_dropdowns_open.set(i, !open);
    }
}

/// The mapping when the first `k` fields are mapped as in `mapping` and
/// the others are unmapped.
pub open spec fn mapped_prefix(mapping: Seq<Option<AnkiField>>, k: int) -> Seq<Option<AnkiField>> {
    mapping.take(k) + Seq::new((mapping.len() - k) as nat, |i: int| None)
}

proof fn lemma_reload_prefix(fields: Seq<String>, mapping: Seq<Option<AnkiField>>, k: int)
    requires
        mapping.len() == fields.len(),
        field_names(fields).no_duplicates(),
        fields.len() <= usize::MAX,
        0 <= k <= mapping.len(),
    ensures
        mapping_from_bindings(
            field_names(fields),
            bindings_of_indices(field_indices_of(mapping.take(k)), fields),
        ) == mapped_prefix(mapping, k),
    decreases k,
{
    let names = field_names(fields);
    if k == 0 {
        assert(mapping.take(0) =~= Seq::<Option<AnkiField>>::empty());
        assert(bindings_of_indices(Seq::empty(), fields) =~= Seq::<AnkiTermFieldType>::empty());
        assert(mapping_from_bindings(names, Seq::empty()) =~= mapped_prefix(mapping, 0));
    } else {
        lemma_reload_prefix(fields, mapping, k - 1);
        let t = mapping.take(k);
        assert(t.drop_last() =~= mapping.take(k - 1));
        let prev_indices = field_indices_of(mapping.take(k - 1));
        let prev_bindings = bindings_of_indices(prev_indices, fields);
        match mapping[k - 1] {
            Some(kind) => {
                let fi = field_index_for(kind, (k - 1) as usize);
                assert(field_indices_of(t) == prev_indices.push(fi));
                let b = term_field_for(kind, fields[k - 1]);
                assert(bindings_of_indices(prev_indices.push(fi), fields) =~= prev_bindings.push(b));
                assert(prev_bindings.push(b).drop_last() =~= prev_bindings);
                assert(term_field_name(b) == names[k - 1]);
                names.index_of_first_ensures(names[k - 1]);
                assert(names.contains(names[k - 1]));
                assert(names.index_of_first(names[k - 1]) == Some(k - 1));
                assert(mapped_prefix(mapping, k - 1).update(k - 1, Some(kind)) =~= mapped_prefix(
                    mapping,
                    k,
                ));
            },
            None => {
                assert(field_indices_of(t) == prev_indices);
                assert(mapped_prefix(mapping, k - 1) =~= mapped_prefix(mapping, k));
            },
        }
    }
}

/// Saving the field mapping and loading it back gives the same mapping:
/// when the model's field names are distinct, the bindings that the store
/// keeps for the saved `FieldIndex` list map every field as it was mapped.
///
/// The store's step from saved positions to bindings is described by
/// `bindings_of_indices`, the library's own statement of what the settings
/// store does with a saved list; no trusted item ties it to the store's
/// code, so this law holds of the store as far as that description does.
pub proof fn lemma_saved_mapping_reloads(fields: Seq<String>, mapping: Seq<Option<AnkiField>>)
    requires
        mapping.len() == fields.len(),
        field_names(fields).no_duplicates(),
        fields.len() <= usize::MAX,
    ensures
        mapping_from_bindings(
            field_names(fields),
            bindings_of_indices(field_indices_of(mapping), fields),
        ) == mapping,
{
    lemma_reload_prefix(fields, mapping, mapping.len() as int);
    assert(mapping.take(mapping.len() as int) =~= mapping);
    assert(mapped_prefix(mapping, mapping.len() as int) =~= mapping);
}

/// The three kinds of binding name the same field kind: `FieldIndex::X`,
/// `AnkiTermFieldType::X` and `AnkiField::X` correspond for every `X`, and
/// placing a kind at a position or binding it to a name keeps that kind.
pub proof fn lemma_field_kinds_correspond(i: usize, name: String, kind: AnkiField)
    ensures
        field_index_kind(FieldIndex::Term(i)) == AnkiField::Term,
        field_index_kind(FieldIndex::Reading(i)) == AnkiField::Reading,
        field_index_kind(FieldIndex::Sentence(i)) == AnkiField::Sentence,
        field_index_kind(FieldIndex::Definition(i)) == AnkiField::Definition,
        field_index_kind(FieldIndex::TermAudio(i)) == AnkiField::TermAudio,
        field_index_kind(FieldIndex::SentenceAudio(i)) == AnkiField::SentenceAudio,
        field_index_kind(FieldIndex::Image(i)) == AnkiField::Image,
        field_index_kind(FieldIndex::Frequency(i)) == AnkiField::Frequency,
        term_field_kind(AnkiTermFieldType::Term(name)) == AnkiField::Term,
        term_field_kind(AnkiTermFieldType::Reading(name)) == AnkiField::Reading,
        term_field_kind(AnkiTermFieldType::Sentence(name)) == AnkiField::Sentence,
        term_field_kind(AnkiTermFieldType::Definition(name)) == AnkiField::Definition,
        term_field_kind(AnkiTermFieldType::TermAudio(name)) == AnkiField::TermAudio,
        term_field_kind(AnkiTermFieldType::SentenceAudio(name)) == AnkiField::SentenceAudio,
        term_field_kind(AnkiTermFieldType::Image(name)) == AnkiField::Image,
        term_field_kind(AnkiTermFieldType::Frequency(name)) == AnkiField::Frequency,
        field_index_kind(field_index_for(kind, i)) == kind,
        field_index_position(field_index_for(kind, i)) == i,
        term_field_kind(term_field_for(kind, name)) == kind,
        term_field_name(term_field_for(kind, name)) == name@,
{
}

/// Saving keeps every mapped field with its own kind and position: for each
/// position `i` mapped to `k`, the saved list holds an entry at `i` of kind
/// `k`, and every saved entry is such a field.
pub proof fn lemma_saved_list_keeps_kinds(mapping: Seq<Option<AnkiField>>)
    requires
        mapping.len() <= usize::MAX,
    ensures
        forall|i: int, k: AnkiField|
            0 <= i < mapping.len() && mapping[i] == Some(k) ==> exists|j: int|
                0 <= j < field_indices_of(mapping).len() && field_index_position(
                    #[trigger] field_indices_of(mapping)[j],
                ) == i && field_index_kind(field_indices_of(mapping)[j]) == k,
        forall|j: int|
            0 <= j < field_indices_of(mapping).len() ==> {
                let e = #[trigger] field_indices_of(mapping)[j];
                &&& field_index_position(e) < mapping.len()
                &&& mapping[field_index_position(e) as int] == Some(field_index_kind(e))
            },
    decreases mapping.len(),
{
    if mapping.len() > 0 {
        let prev_map = mapping.drop_last();
        lemma_saved_list_keeps_kinds(prev_map);
        let prev = field_indices_of(prev_map);
        let cur = field_indices_of(mapping);
        let n = mapping.len() - 1;
        assert forall|j: int| 0 <= j < prev.len() implies cur[j] == prev[j] by {
            match mapping.last() {
                Some(kind) => {},
                None => {},
            }
        }
        assert forall|i: int, k: AnkiField|
            0 <= i < mapping.len() && mapping[i] == Some(k) implies exists|j: int|
                0 <= j < cur.len() && field_index_position(#[trigger] cur[j]) == i
                    && field_index_kind(cur[j]) == k by {
            if i == n {
                assert(cur[prev.len() as int] == field_index_for(k, n as usize));
                assert(field_index_position(cur[prev.len() as int]) == i);
            } else {
                assert(prev_map[i] == Some(k));
                let j = choose|j: int|
                    0 <= j < prev.len() && field_index_position(#[trigger] prev[j]) == i
                        && field_index_kind(prev[j]) == k;
                assert(cur[j] == prev[j]);
            }
        }
        assert forall|j: int| 0 <= j < cur.len() implies {
            let e = #[trigger] cur[j];
            &&& field_index_position(e) < mapping.len()
            &&& mapping[field_index_position(e) as int] == Some(field_index_kind(e))
        } by {
            if j < prev.len() {
                assert(cur[j] == prev[j]);
                assert(mapping[field_index_position(prev[j]) as int] == prev_map[field_index_position(
                    prev[j],
                ) as int]);
            }
        }
    }
}

/// Loading a binding sets the first model field of its name to that
/// binding's own kind and leaves every other field as the earlier bindings
/// left it; a binding to a name the model lacks changes nothing.
pub proof fn lemma_loading_a_binding(
    names: Seq<Seq<char>>,
    earlier: Seq<AnkiTermFieldType>,
    b: AnkiTermFieldType,
)
    ensures
        match names.index_of_first(term_field_name(b)) {
            Some(i) => mapping_from_bindings(names, earlier.push(b)) == mapping_from_bindings(
                names,
                earlier,
            ).update(i, Some(term_field_kind(b))),
            None => mapping_from_bindings(names, earlier.push(b)) == mapping_from_bindings(
                names,
                earlier,
            ),
        },
{
    assert(earlier.push(b).drop_last() =~= earlier);
}

} // verus!
