//! The new-game screen: a name for the game, which may hold only ASCII
//! letters, digits and underscores, and must not be empty.

use vstd::prelude::*;

use super::{AppNewGameEvent, AppScreen};
use crate::app::widgets::ScreenTransitionEvent;

verus! {

/// A character that a game's name may hold: an ASCII letter or digit, or an
/// underscore.
pub open spec fn name_char(c: char) -> bool {
    ('a' <= c && c <= 'z') || ('A' <= c && c <= 'Z') || ('0' <= c && c <= '9') || c == '_'
}

/// Every character of the name may stand in a game's name.
pub open spec fn valid_name(name: Seq<char>) -> bool {
    forall|i: int| 0 <= i < name.len() ==> name_char(#[trigger] name[i])
}

/// The new-game screen, holding the name typed so far.
pub struct NewGameScreen {
    name: String,
}

/// Whether the character may stand in a game's name.
fn is_name_char(c: char) -> (valid: bool)
    ensures
        valid == name_char(c),
{
    ('a' <= c && c <= 'z') || ('A' <= c && c <= 'Z') || ('0' <= c && c <= '9') || c == '_'
}

impl NewGameScreen {
    /// The name typed so far.
    pub closed spec fn spec_name(&self) -> Seq<char> {
        self.name@
    }

    /// A screen with no name typed.
    pub fn new() -> (screen: Self)
        ensures
            screen.spec_name() == Seq::<char>::empty(),
    {
        NewGameScreen { name: String::new() }
    }

    /// The name typed so far.
    pub fn name(&self) -> (name: &str)
        ensures
            name@ == self.spec_name(),
    {
        self.name.as_str()
    }

    /// Replaces the name with what is typed now.
    pub fn set_name(&mut self, name: String)
        ensures
            final(self).spec_name() == name@,
    {
        self.name = name;
    }

    /// Whether every character of the name may stand in a game's name.
    pub fn name_is_valid(&self) -> (valid: bool)
        ensures
            valid == valid_name(self.spec_name()),
    {
        let mut valid = true;
        for c in it: self.name.as_str().chars()
            invariant
                it.seq() == self.name@,
                valid == valid_name(it.seq().take(it.index() as int)),
        {
            let ghost i = it.index();
            proof {
                let before = it.seq().take(i as int);
                assert(it.seq().take(i + 1) =~= before.push(c));
                if valid_name(before) && name_char(c) {
                    assert forall|k: int| 0 <= k < before.push(c).len() implies name_char(
                        #[trigger] before.push(c)[k],
                    ) by {
                        if k < before.len() {
                            assert(before.push(c)[k] == before[k]);
                        }
                    }
                }
                if !valid_name(before) {
                    let k = choose|k: int| 0 <= k < before.len() && !name_char(#[trigger] before[k]);
                    assert(before.push(c)[k] == before[k]);
                }
                if !name_char(c) {
                    assert(before.push(c)[before.len() as int] == c);
                }
            }
            valid = valid && is_name_char(c);
        }
        proof {
            assert(self.name@.take(self.name@.len() as int) =~= self.name@);
        }
        valid
    }

    /// Whether a game can start with the name: it is not empty, and valid.
    pub fn can_start(&self) -> (can: bool)
        ensures
            can == (self.spec_name().len() > 0 && valid_name(self.spec_name())),
    {
        let valid = self.name_is_valid();
        self.name.as_str().unicode_len() > 0 && valid
    }

    /// The start button, enabled only where a game can start with the
    /// name: asks for a new game of the name, and for the main screen.
    pub fn start<Id>(
        &self,
        new_game: &mut AppNewGameEvent,
        transition: &mut ScreenTransitionEvent<AppScreen, Id>,
    )
        requires
            self.spec_name().len() > 0,
            valid_name(self.spec_name()),
            old(new_game).0@ is None,
            old(transition)@ is None,
        ensures
            final(new_game).0@ matches Some(name) && name@ == self.spec_name(),
            final(transition)@ == Some(AppScreen::Main),
    {
        new_game.emit(self.name.clone());
        transition.emit(AppScreen::Main);
    }

    /// The return button: asks for the menu.
    pub fn back<Id>(&self, transition: &mut ScreenTransitionEvent<AppScreen, Id>)
        requires
            old(transition)@ is None,
        ensures
            final(transition)@ == Some(AppScreen::Menu),
    {
        transition.emit(AppScreen::Menu);
    }
}

/// A game can start with a name exactly when the name is not empty and
/// each of its characters is an ASCII letter, an ASCII digit or `_`: a
/// space, a `-`, or any character outside ASCII makes a name invalid.
pub proof fn law_valid_names(name: Seq<char>, i: int)
    ensures
        valid_name(name) <==> forall|k: int|
            0 <= k < name.len() ==> {
                let c = #[trigger] name[k];
                ||| 'a' <= c <= 'z'
                ||| 'A' <= c <= 'Z'
                ||| '0' <= c <= '9'
                ||| c == '_'
            },
        0 <= i < name.len() && (name[i] == ' ' || name[i] == '-' || name[i] >= '\u{80}')
            ==> !valid_name(name),
{
}

} // verus!
