//! Small request latches the UI layer drives.
//!
//! A [`ToggleRequest`] turns a "please flip this" edge into a state change
//! observed once; a [`DialogRequest`] guards a dialog that must not be
//! opened twice.  Both defer the action itself to the caller: `on_request`
//! reports whether (and with what new state) to act, instead of invoking a
//! callback.

use vstd::prelude::*;

verus! {

/// A latch that flips a boolean state when a request is pending.
pub struct ToggleRequest {
    pub state: bool,
    pub request: bool,
}

impl Default for ToggleRequest {
    /// Off, with nothing requested.
    fn default() -> (r: ToggleRequest)
        ensures
            !r.state && !r.request,
    {
        ToggleRequest { state: false, request: false }
    }
}

impl ToggleRequest {
    pub fn get_state(&mut self) -> (r: bool)
        ensures
            *final(self) == *old(self),
            r == old(self).state,
    {
        self.state
    }

    /// Asks for the state to flip on the next `on_request`.
    pub fn request(&mut self)
        ensures
            *final(self) == (ToggleRequest { request: true, ..*old(self) }),
    {
        self.request = true;
    }

    /// Consumes a pending request: flips the state and reports the new
    /// state so the caller can act on it; with none pending, reports
    /// nothing and changes nothing.
    pub fn on_request(&mut self) -> (r: Option<bool>)
        ensures
            old(self).request ==> *final(self) == (ToggleRequest {
                state: !old(self).state,
                request: false,
            }) && r == Some(!old(self).state),
            !old(self).request ==> *final(self) == *old(self) && r is None,
    {
        if self.request {
            self.state = !self.state;
            self.request = false;
            Some(self.state)
        } else {
            None
        }
    }
}

/// A latch that opens a dialog at most once at a time.
pub struct DialogRequest {
    pub request: bool,
    pub opened: bool,
}

impl Default for DialogRequest {
    /// Closed, with nothing requested.
    fn default() -> (r: DialogRequest)
        ensures
            !r.request && !r.opened,
    {
        DialogRequest { request: false, opened: false }
    }
}

impl DialogRequest {
    /// Asks for the dialog to open, unless it is already open.
    pub fn request(&mut self)
        ensures
            *final(self) == (DialogRequest {
                request: old(self).request || !old(self).opened,
                ..*old(self)
            }),
    {
        if !self.opened {
            self.request = true;
        }
    }

    /// Consumes a pending request: marks the dialog open and reports that
    /// the caller should show it; with none pending, reports nothing and
    /// changes nothing.
    pub fn on_request(&mut self) -> (r: bool)
        ensures
            old(self).request ==> *final(self) == (DialogRequest {
                request: false,
                opened: true,
            }) && r,
            !old(self).request ==> *final(self) == *old(self) && !r,
    {
        if self.request {
            self.opened = true;
            self.request = false;
            true
        } else {
            false
        }
    }

    pub fn is_open(&self) -> (r: bool)
        ensures
            r == self.opened,
    {
        self.opened
    }

    /// Records that the dialog was dismissed.
    pub fn closed(&mut self)
        ensures
            *final(self) == (DialogRequest { request: false, opened: false }),
    {
        self.request = false;
        self.opened = false;
    }
}

} // verus!
