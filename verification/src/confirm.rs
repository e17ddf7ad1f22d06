use vstd::prelude::*;

verus! {

/// A question to confirm, with the action to run once it is confirmed.
pub struct Confirm<F: Fn()> {
    action: F,
    confirm_header: String,
}

impl<F: Fn()> Confirm<F> {
    /// A confirmation with the given header and action.
    pub fn new(header: String, action: F) -> (r: Confirm<F>)
        ensures
            r.header()@ == header@,
            r.action() == action,
    {
        Confirm { confirm_header: header, action }
    }

    pub closed spec fn header(&self) -> String {
        self.confirm_header
    }

    pub closed spec fn action(&self) -> F {
        self.action
    }

    /// The header of the confirmation.
    pub fn confirm_header(&self) -> (r: &String)
        ensures
            r@ == self.header()@,
    {
        &self.confirm_header
    }
}

} // verus!
