//! The settings screen: the list of profiles and the current one, adding a
//! profile, and how the on-screen keyboard's key presses are read.
use vstd::prelude::*;
use crate::anki_settings::field_names;
use crate::text::{chars_of, TextField};

verus! {

/// The named profiles in their stored order, and the position of the
/// current one.
pub struct ProfileList {
    pub names: Vec<String>,
    pub current: usize,
}

/// What adding a profile did.
#[derive(Debug, Clone, Copy, PartialEq, Eq, Structural)]
pub enum AddProfileOutcome {
    /// The name was empty: nothing changed and the dialog stays open.
    EmptyName,
    /// A profile of that name exists: nothing changed.
    AlreadyExists,
    /// A profile was appended at `index` and made current; its settings are
    /// a copy of the profile at `copy_of`, or the defaults when the former
    /// current position named no profile.
    Created { index: usize, copy_of: Option<usize> },
}

impl ProfileList {
    /// No two profiles share a name.
    pub open spec fn well_formed(&self) -> bool {
        field_names(self.names@).no_duplicates()
    }

    /// The position of the profile named `name`.
    pub fn index_of(&self, name: &str) -> (r: Option<usize>)
        ensures
            match r {
                Some(i) => {
                    &&& i < self.names@.len()
                    &&& self.names@[i as int]@ == name@
                    &&& forall|j: int| 0 <= j < i ==> self.names@[j]@ != name@
                },
                None => !field_names(self.names@).contains(name@),
            },
    {
        let target = name.to_string();
        let ghost names = field_names(self.names@);
        let mut i: usize = 0;
        while i < self.names.len()
            invariant
                i <= self.names.len(),
                names == field_names(self.names@),
                target@ == name@,
                forall|j: int| 0 <= j < i ==> names[j] != name@,
            decreases self.names.len() - i,
        {
            if self.names[i] == target {
                assert forall|j: int| 0 <= j < i implies self.names@[j]@ != name@ by {
                    assert(names[j] == self.names@[j]@);
                }
                return Some(i);
            }
            i = i + 1;
        }
        None
    }

    /// The name of the current profile, or `Default` when the current
    /// position names no profile.
    pub fn current_profile_name(&self) -> (r: String)
        ensures
            r@ == (if self.current < self.names@.len() {
                self.names@[self.current as int]@
            } else {
                "Default"@
            }),
    {
        if self.current < self.names.len() {
            self.names[self.current].clone()
        } else {
            "Default".to_string()
        }
    }
}

/// The letter the search bar's profile button shows: the first character
/// of the profile's name, or `P` for an empty name.
pub fn profile_initial(name: &str) -> (r: char)
    ensures
        r == (if name@.len() > 0 {
            name@[0]
        } else {
            'P'
        }),
{
    let v = chars_of(name);
    if v.len() > 0 {
        v[0]
    } else {
        'P'
    }
}

/// How a key press from the on-screen keyboard is read.
#[derive(Debug, Clone, Copy, PartialEq, Eq, Structural)]
pub enum KeyInput {
    /// The backspace character: the character before the cursor goes.
    Backspace,
    /// The return key.
    Newline,
    /// Text to insert at the cursor.
    Text,
}

/// How the keyboard's input `text` is read.
pub fn classify_key_input(text: &str) -> (r: KeyInput)
    ensures
        r == (if text@ == seq!['\u{8}'] {
            KeyInput::Backspace
        } else if text@ == seq!['\n'] {
            KeyInput::Newline
        } else {
            KeyInput::Text
        }),
{
    let v = chars_of(text);
    if v.len() == 1 && v[0] == '\u{8}' {
        assert(v@ =~= seq!['\u{8}']);
        KeyInput::Backspace
    } else if v.len() == 1 && v[0] == '\n' {
        assert(v@ =~= seq!['\n']);
        KeyInput::Newline
    } else {
        KeyInput::Text
    }
}

/// State of the settings screen.
pub struct SettingsState {
    pub profile_dropdown_open: bool,
    pub show_add_profile_modal: bool,
    /// The name typed into the dialog that adds a profile.
    pub new_profile_name: TextField,
}

impl SettingsState {
    /// Both the dropdown and the dialog closed, no name typed.
    pub fn new() -> (s: Self)
        ensures
            !s.profile_dropdown_open,
            !s.show_add_profile_modal,
            s.new_profile_name.text@ == Seq::<char>::empty(),
            s.new_profile_name.cursor == 0,
            s.new_profile_name.selection is None,
    {
        SettingsState {
            profile_dropdown_open: false,
            show_add_profile_modal: false,
            new_profile_name: TextField::empty(),
        }
    }

    /// Open or close the profile dropdown.
    pub fn toggle_profile_dropdown(&mut self)
        ensures
            final(self).profile_dropdown_open == !old(self).profile_dropdown_open,
            final(self).show_add_profile_modal == old(self).show_add_profile_modal,
            final(self).new_profile_name == old(self).new_profile_name,
    {
        self.profile_dropdown_open = !self.profile_dropdown_open;
    }

    /// Close the profile dropdown after a profile was picked from it.
    pub fn close_profile_dropdown(&mut self)
        ensures
            !final(self).profile_dropdown_open,
            final(self).show_add_profile_modal == old(self).show_add_profile_modal,
            final(self).new_profile_name == old(self).new_profile_name,
    {
        self.profile_dropdown_open = false;
    }

    /// Open or close the dialog that adds a profile.
    pub fn set_add_profile_modal(&mut self, open: bool)
        ensures
            final(self).show_add_profile_modal == open,
            final(self).profile_dropdown_open == old(self).profile_dropdown_open,
            final(self).new_profile_name == old(self).new_profile_name,
    {
        self.show_add_profile_modal = open;
    }

    /// Make the profile named `name` current; returns whether one exists.
    /// An unknown name changes nothing.
    pub fn switch_profile(profiles: &mut ProfileList, name: &str) -> (r: bool)
        ensures
            final(profiles).names == old(profiles).names,
            r == field_names(old(profiles).names@).contains(name@),
            r ==> final(profiles).names@.len() > 0 && final(profiles).current == field_names(
                old(profiles).names@,
            ).index_of_first(name@)->0,
            !r ==> final(profiles).current == old(profiles).current,
    {
        match profiles.index_of(name) {
            Some(i) => {
                proof {
                    let names = field_names(profiles.names@);
                    assert(names[i as int] == name@);
                    assert(names.contains(name@));
                    names.index_of_first_ensures(name@);
                }
                profiles.current = i;
                true
            },
            None => false,
        }
    }

    /// Add a profile named as typed in the dialog, copied from the current
    /// one, and make it current. An empty name changes nothing and keeps the
    /// dialog open; otherwise the typed name is cleared and the dialog
    /// closes, and an existing name changes no profile.
    pub fn add_profile(&mut self, profiles: &mut ProfileList) -> (r: AddProfileOutcome)
        ensures
            old(profiles).well_formed() ==> final(profiles).well_formed(),
            final(self).profile_dropdown_open == old(self).profile_dropdown_open,
            old(self).new_profile_name.text@.len() == 0 ==> {
                &&& r == AddProfileOutcome::EmptyName
                &&& final(profiles).names == old(profiles).names
                &&& final(profiles).current == old(profiles).current
                &&& final(self).show_add_profile_modal == old(self).show_add_profile_modal
            },
            old(self).new_profile_name.text@.len() == 0 ==> final(self).new_profile_name
                == old(self).new_profile_name,
            old(self).new_profile_name.text@.len() > 0 ==> {
                &&& !final(self).show_add_profile_modal
                &&& final(self).new_profile_name.text@ == Seq::<char>::empty()
                &&& final(self).new_profile_name.cursor == 0
                &&& final(self).new_profile_name.selection == old(self).new_profile_name.selection
            },
            old(self).new_profile_name.text@.len() > 0 && field_names(old(profiles).names@).contains(old(self).new_profile_name.text@) ==> {
                &&& r == AddProfileOutcome::AlreadyExists
                &&& final(profiles).names == old(profiles).names
                &&& final(profiles).current == old(profiles).current
            },
            old(self).new_profile_name.text@.len() > 0 && !field_names(old(profiles).names@).contains(old(self).new_profile_name.text@) ==> {
                &&& r == (AddProfileOutcome::Created {
                    index: old(profiles).names@.len() as usize,
                    copy_of: if old(profiles).current < old(profiles).names@.len() {
                        Some(old(profiles).current)
                    } else {
                        None
                    },
                })
                &&& field_names(final(profiles).names@) == field_names(old(profiles).names@).push(
                    old(self).new_profile_name.text@,
                )
                &&& final(profiles).current == old(profiles).names@.len()
            },
    {
        let name_text = self.new_profile_name.text.clone();
        let name = name_text.as_str();
        if chars_of(name).len() == 0 {
            return AddProfileOutcome::EmptyName;
        }
        self.show_add_profile_modal = false;
        self.new_profile_name.text = String::new();
        self.new_profile_name.cursor = 0;
        match profiles.index_of(name) {
            Some(i) => {
                assert(field_names(profiles.names@)[i as int] == name@);
                AddProfileOutcome::AlreadyExists
            },
            None => {
                let ghost old_names = field_names(profiles.names@);
                let copy_of = if profiles.current < profiles.names.len() {
                    Some(profiles.current)
                } else {
                    None
                };
                let index = profiles.names.len();
                profiles.names.push(name.to_string());
                profiles.current = index;
                let ghost new_names = field_names(profiles.names@);
                assert(new_names =~= old_names.push(name@));
                proof {
                    if old_names.no_duplicates() {
                        assert forall|a: int, b: int|
                            0 <= a < new_names.len() && 0 <= b < new_names.len() && a != b implies new_names[a]
                            != new_names[b] by {
                            if a == old_names.len() {
                                assert(old_names[b] == new_names[b]);
                            } else if b == old_names.len() {
                                assert(old_names[a] == new_names[a]);
                            }
                        }
                    }
                }
                AddProfileOutcome::Created { index, copy_of }
            },
        }
    }
}

} // verus!
