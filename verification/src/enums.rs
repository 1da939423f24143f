//! Activity modes of the three auxiliary bars.

use vstd::prelude::*;
use vstd::string::StringExecFns;

verus! {

/// Mode of the Find bar. `Finding` is the active mode, in which the engine
/// steps through matches.
#[derive(Copy, Debug, PartialEq, Eq, Structural)]
pub enum FindBarState {
    Finding,
    Focused,
    NotFocused,
}

impl Clone for FindBarState {
    fn clone(&self) -> (r: Self)
        ensures
            r == *self,
    {
        match self {
            FindBarState::Finding => FindBarState::Finding,
            FindBarState::Focused => FindBarState::Focused,
            FindBarState::NotFocused => FindBarState::NotFocused,
        }
    }
}

impl FindBarState {
    /// The words that stand for the mode.
    pub open spec fn label_text(self) -> Seq<char> {
        match self {
            FindBarState::Focused => "Focused"@,
            FindBarState::NotFocused => "Not Focused"@,
            FindBarState::Finding => "Finding"@,
        }
    }

    /// The mode in words.
    pub fn label(&self) -> (r: String)
        ensures
            r@ == self.label_text(),
    {
        match self {
            FindBarState::Focused => String::from_str("Focused"),
            FindBarState::NotFocused => String::from_str("Not Focused"),
            FindBarState::Finding => String::from_str("Finding"),
        }
    }
}

/// Mode of the Replace bar. `Replacing` is the active mode, in which the
/// engine replaces one match at a time.
#[derive(Copy, Debug, PartialEq, Eq, Structural)]
pub enum ReplaceBarState {
    Focused,
    NotFocused,
    Replacing,
}

impl Clone for ReplaceBarState {
    fn clone(&self) -> (r: Self)
        ensures
            r == *self,
    {
        match self {
            ReplaceBarState::Replacing => ReplaceBarState::Replacing,
            ReplaceBarState::Focused => ReplaceBarState::Focused,
            ReplaceBarState::NotFocused => ReplaceBarState::NotFocused,
        }
    }
}

/// Mode of the Go-To bar. `GoingTo` is the active mode.
#[derive(Copy, Debug, PartialEq, Eq, Structural)]
pub enum GoToState {
    GoingTo,
    Focused,
    NotFocused,
}

impl Clone for GoToState {
    fn clone(&self) -> (r: Self)
        ensures
            r == *self,
    {
        match self {
            GoToState::GoingTo => GoToState::GoingTo,
            GoToState::Focused => GoToState::Focused,
            GoToState::NotFocused => GoToState::NotFocused,
        }
    }
}

} // verus!
