//! Call sessions.

use vstd::prelude::*;

verus! {

/// A call session with one phone number.
pub struct Session {
    ph_number: String,
}

impl View for Session {
    type V = Seq<char>;

    /// The number that the session was opened with.
    closed spec fn view(&self) -> Seq<char> {
        self.ph_number@
    }
}

impl DeepView for Session {
    type V = Seq<char>;

    open spec fn deep_view(&self) -> Seq<char> {
        self@
    }
}

impl Session {
    /// Opens a session with `ph_number`.
    pub fn new(ph_number: &str) -> (r: Self)
        ensures
            r@ == ph_number@,
    {
        Session { ph_number: ph_number.to_owned() }
    }

    /// The session as text: its number.
    pub fn display(&self) -> (r: String)
        ensures
            r@ == self@,
    {
        self.ph_number.clone()
    }
}

} // verus!
