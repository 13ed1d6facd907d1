//! Library-side pieces of the details panel.
//!
//! The panel itself — layout, scrolling state, drawing, input — lives with
//! the terminal front end, outside this crate. The crate contributes the
//! commands the panel reacts to and the content adapter that serves a
//! [`LargeString`]'s visible window.

use vstd::prelude::*;

use crate::large_string::LargeString;

verus! {

/// Content that renders only the visible subset of a [`LargeString`],
/// instead of converting the whole document every frame.
pub struct LargeStringContent<'a> {
    large_string: &'a LargeString,
}

impl<'a> LargeStringContent<'a> {
    /// The wrapped document, as a spec-level value.
    pub closed spec fn spec_large_string(&self) -> &'a LargeString {
        self.large_string
    }

    pub closed spec fn new_spec(large_string: &'a LargeString) -> Self {
        LargeStringContent { large_string }
    }

    /// The wrapped document.
    pub fn large_string(&self) -> (r: &'a LargeString)
        ensures
            r == self.spec_large_string(),
    {
        self.large_string
    }
}

impl<'a> From<&'a LargeString> for LargeStringContent<'a> {
    fn from(large_string: &'a LargeString) -> (r: Self) {
        LargeStringContent { large_string }
    }
}

impl<'a> vstd::std_specs::convert::FromSpecImpl<&'a LargeString> for LargeStringContent<'a> {
    open spec fn obeys_from_spec() -> bool {
        true
    }

    open spec fn from_spec(v: &'a LargeString) -> Self {
        LargeStringContent::new_spec(v)
    }
}

/// Commands the details panel reacts to.
#[derive(Debug)]
pub enum DetailsPanelEvent {
    ScrollDown,
    ScrollUp,
    ScrollDownHalfPage,
    ScrollUpHalfPage,
    ScrollDownPage,
    ScrollUpPage,
    ToggleWrap,
}

} // verus!
