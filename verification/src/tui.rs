//! What the screens of the terminal interface say to the loop that runs
//! them. Drawing and key handling live with the application.

use crate::profile::{Profile, ProfileView};
use vstd::prelude::*;

verus! {

/// What a screen asks the interface to do after a key press.
#[derive(Debug, PartialEq, Eq)]
pub enum Action {
    /// Nothing to do: stay on the screen.
    Stay,
    /// Leave the interface.
    Exit,
    /// Ask for the key of the named profile and open it.
    OpenProfile(String),
    /// Start a new profile.
    NewProfile,
    /// Change the settings of the named profile.
    EditProfile(String),
    /// Return to the previous screen.
    Back,
}

impl Clone for Action {
    fn clone(&self) -> (copy: Self) {
        match self {
            Action::Stay => Action::Stay,
            Action::Exit => Action::Exit,
            Action::OpenProfile(name) => Action::OpenProfile(name.clone()),
            Action::NewProfile => Action::NewProfile,
            Action::EditProfile(name) => Action::EditProfile(name.clone()),
            Action::Back => Action::Back,
        }
    }
}

/// What a screen reports between key presses.
pub enum ScreenEvent {
    /// A profile was decrypted and is ready to be edited.
    ProfileDecrypted(Profile),
}

/// Which screen is shown, and for which profile.
pub enum ScreenId {
    Select,
    CreateProfile,
    EditProfile(String),
    GetKey(String),
    Edit(Box<Profile>),
}

/// What a [`ScreenId`] holds.
pub enum ScreenIdView {
    Select,
    CreateProfile,
    EditProfile(Seq<char>),
    GetKey(Seq<char>),
    Edit(ProfileView),
}

impl View for ScreenId {
    type V = ScreenIdView;

    open spec fn view(&self) -> ScreenIdView {
        match self {
            ScreenId::Select => ScreenIdView::Select,
            ScreenId::CreateProfile => ScreenIdView::CreateProfile,
            ScreenId::EditProfile(name) => ScreenIdView::EditProfile(name@),
            ScreenId::GetKey(name) => ScreenIdView::GetKey(name@),
            ScreenId::Edit(profile) => ScreenIdView::Edit(profile@),
        }
    }
}

impl Clone for ScreenId {
    fn clone(&self) -> (copy: Self)
        ensures
            copy@ == self@,
    {
        match self {
            ScreenId::Select => ScreenId::Select,
            ScreenId::CreateProfile => ScreenId::CreateProfile,
            ScreenId::EditProfile(name) => ScreenId::EditProfile(name.clone()),
            ScreenId::GetKey(name) => ScreenId::GetKey(name.clone()),
            ScreenId::Edit(profile) => {
                let copy: Profile = (**profile).clone();
                ScreenId::Edit(Box::new(copy))
            },
        }
    }
}

/// Whether two screens are the same screen: of the same sort and, where the
/// sort has one, for a profile of the same name. Two editing screens are the
/// same where their profiles have the same name, whatever else differs.
pub open spec fn same_screen(a: ScreenIdView, b: ScreenIdView) -> bool {
    match (a, b) {
        (ScreenIdView::Select, ScreenIdView::Select) => true,
        (ScreenIdView::CreateProfile, ScreenIdView::CreateProfile) => true,
        (ScreenIdView::EditProfile(a), ScreenIdView::EditProfile(b)) => a == b,
        (ScreenIdView::GetKey(a), ScreenIdView::GetKey(b)) => a == b,
        (ScreenIdView::Edit(a), ScreenIdView::Edit(b)) => a.metadata.name == b.metadata.name,
        _ => false,
    }
}

impl PartialEq for ScreenId {
    fn eq(&self, other: &Self) -> (same: bool) {
        match (self, other) {
            (ScreenId::Select, ScreenId::Select) => true,
            (ScreenId::CreateProfile, ScreenId::CreateProfile) => true,
            (ScreenId::EditProfile(a), ScreenId::EditProfile(b)) => *a == *b,
            (ScreenId::GetKey(a), ScreenId::GetKey(b)) => *a == *b,
            (ScreenId::Edit(a), ScreenId::Edit(b)) => a.metadata.name == b.metadata.name,
            _ => false,
        }
    }
}

impl vstd::std_specs::cmp::PartialEqSpecImpl for ScreenId {
    open spec fn obeys_eq_spec() -> bool {
        true
    }

    open spec fn eq_spec(&self, other: &Self) -> bool {
        same_screen(self@, other@)
    }
}

} // verus!
