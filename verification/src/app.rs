use vstd::prelude::*;
use crate::json::{json_object_text, EncodeError};
use crate::pairs::{with_pair, Pairs};

verus! {

/// Which screen is shown.
#[derive(Clone, Copy, Debug, PartialEq, Eq, Structural)]
pub enum CurrentScreen {
    Main,
    Editing,
    Exiting,
}

/// Which of the two inputs takes the keys that are typed.
#[derive(Clone, Copy, Debug, PartialEq, Eq, Structural)]
pub enum CurrentlyEditing {
    Key,
    Value,
}

/// The input that is edited after a switch: the value after the key, the key
/// after the value, and the key where nothing was edited.
pub open spec fn toggled(editing: Option<CurrentlyEditing>) -> CurrentlyEditing {
    match editing {
        Some(CurrentlyEditing::Key) => CurrentlyEditing::Value,
        Some(CurrentlyEditing::Value) => CurrentlyEditing::Key,
        None => CurrentlyEditing::Key,
    }
}

/// The state of the key and value editor.
#[derive(Debug, PartialEq, Eq)]
pub struct App {
    pub key_input: String,
    pub value_input: String,
    pub pairs: Pairs,
    pub current_screen: CurrentScreen,
    pub currently_editing: Option<CurrentlyEditing>,
}

impl App {
    /// An editor with empty inputs and no pairs, on the main screen.
    pub fn new() -> (app: App)
        ensures
            app.key_input@ == Seq::<char>::empty(),
            app.value_input@ == Seq::<char>::empty(),
            app.pairs@ == Map::<Seq<char>, Seq<char>>::empty(),
            app.pairs.entries() == Seq::<(Seq<char>, Seq<char>)>::empty(),
            app.current_screen == CurrentScreen::Main,
            app.currently_editing is None,
    {
        App {
            key_input: String::new(),
            value_input: String::new(),
            pairs: Pairs::new(),
            current_screen: CurrentScreen::Main,
            currently_editing: None,
        }
    }

    /// Stores the two inputs as a pair and empties them; nothing is edited
    /// afterwards.
    pub fn save_key_value(&mut self)
        ensures
            final(self).pairs@ == old(self).pairs@.insert(
                old(self).key_input@,
                old(self).value_input@,
            ),
            final(self).pairs.entries() == with_pair(
                old(self).pairs.entries(),
                old(self).key_input@,
                old(self).value_input@,
            ),
            final(self).pairs.entries().len() == old(self).pairs.entries().len() + (if old(
                self,
            ).pairs@.dom().contains(old(self).key_input@) {
                0int
            } else {
                1int
            }),
            final(self).key_input@ == Seq::<char>::empty(),
            final(self).value_input@ == Seq::<char>::empty(),
            final(self).currently_editing is None,
            final(self).current_screen == old(self).current_screen,
    {
        let mut key = String::new();
        let mut value = String::new();
        core::mem::swap(&mut self.key_input, &mut key);
        core::mem::swap(&mut self.value_input, &mut value);
        self.pairs.insert(key, value);
        self.currently_editing = None;
    }

    /// Switches between the key and the value; starts with the key.
    pub fn toggle_editing(&mut self)
        ensures
            final(self).currently_editing == Some(toggled(old(self).currently_editing)),
            final(self).key_input == old(self).key_input,
            final(self).value_input == old(self).value_input,
            final(self).pairs == old(self).pairs,
            final(self).current_screen == old(self).current_screen,
    {
        match self.currently_editing {
            Some(CurrentlyEditing::Key) => {
                self.currently_editing = Some(CurrentlyEditing::Value);
            },
            Some(CurrentlyEditing::Value) => {
                self.currently_editing = Some(CurrentlyEditing::Key);
            },
            None => {
                self.currently_editing = Some(CurrentlyEditing::Key);
            },
        }
    }

    /// The pairs as the text of one JSON object.
    pub fn to_json(&self) -> (r: Result<String, EncodeError>)
        ensures
            r matches Ok(text) && text@ == json_object_text(self.pairs.entries()),
    {
        self.pairs.to_json()
    }
}

} // verus!
