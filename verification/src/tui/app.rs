use vstd::prelude::*;
use crate::pairs::{with_pair, Pairs};

verus! {

/// What the editor shows: the list alone, or the popup with one of its two
/// inputs active.
#[derive(Clone, Copy, Debug, PartialEq, Eq, Structural)]
pub enum Screen {
    Key,
    Main,
    Value,
}

/// The state of the editor.
#[derive(Debug, PartialEq, Eq)]
pub struct App {
    pub key: String,
    pub value: String,
    pub pairs: Pairs,
    pub screen: Screen,
}

impl App {
    /// An editor with empty inputs and no pairs, showing the list.
    pub fn new() -> (app: App)
        ensures
            app.key@ == Seq::<char>::empty(),
            app.value@ == Seq::<char>::empty(),
            app.pairs@ == Map::<Seq<char>, Seq<char>>::empty(),
            app.pairs.entries() == Seq::<(Seq<char>, Seq<char>)>::empty(),
            app.screen == Screen::Main,
    {
        App { key: String::new(), value: String::new(), pairs: Pairs::new(), screen: Screen::Main }
    }

    /// Stores the two inputs as a pair and empties them. The screen stays.
    pub fn save_pair(&mut self)
        ensures
            final(self).pairs@ == old(self).pairs@.insert(old(self).key@, old(self).value@),
            final(self).pairs.entries() == with_pair(
                old(self).pairs.entries(),
                old(self).key@,
                old(self).value@,
            ),
            final(self).pairs.entries().len() == old(self).pairs.entries().len() + (if old(
                self,
            ).pairs@.dom().contains(old(self).key@) {
                0int
            } else {
                1int
            }),
            final(self).key@ == Seq::<char>::empty(),
            final(self).value@ == Seq::<char>::empty(),
            final(self).screen == old(self).screen,
    {
        let key = self.key.clone();
        let value = self.value.clone();
        self.pairs.insert(key, value);
        self.key = String::new();
        self.value = String::new();
    }
}

} // verus!
