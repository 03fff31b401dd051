//! Keeping track of the services that one process runs side by side.
//!
//! Each service reports over a channel when it comes up and when it goes
//! down. The supervisor folds those reports into a [`Status`] and stops when
//! no service is left.

use vstd::prelude::*;

verus! {

/// One of the services of the monolith.
#[derive(Clone, Copy, Debug, PartialEq, Eq, Structural)]
pub enum MonolithComponent {
    Patch,
    Data,
    Login,
    Character,
}

/// What a service reports: that it is up, that it went down with an error,
/// which it describes, or that it went down in good order.
#[derive(Debug, PartialEq, Eq)]
pub enum MonolithMsg {
    Up(MonolithComponent),
    DownErr(MonolithComponent, String),
    DownGraceful(MonolithComponent),
}

impl Clone for MonolithMsg {
    fn clone(&self) -> (r: MonolithMsg)
        ensures
            r == *self,
    {
        match self {
            MonolithMsg::Up(c) => MonolithMsg::Up(*c),
            MonolithMsg::DownErr(c, why) => MonolithMsg::DownErr(*c, why.clone()),
            MonolithMsg::DownGraceful(c) => MonolithMsg::DownGraceful(*c),
        }
    }
}

impl MonolithMsg {
    /// The service that a report says has gone down, if it says so.
    pub open spec fn gone(self) -> Option<MonolithComponent> {
        match self {
            MonolithMsg::Up(_) => None,
            MonolithMsg::DownErr(c, _) => Some(c),
            MonolithMsg::DownGraceful(c) => Some(c),
        }
    }
}

/// Which services are still running.
#[derive(Clone, Copy, Debug, PartialEq, Eq, Structural)]
pub struct Status {
    pub patch: bool,
    pub data: bool,
    pub login: bool,
    pub character: bool,
}

impl Status {
    /// Whether the service `c` is still running.
    pub open spec fn running(self, c: MonolithComponent) -> bool {
        match c {
            MonolithComponent::Patch => self.patch,
            MonolithComponent::Data => self.data,
            MonolithComponent::Login => self.login,
            MonolithComponent::Character => self.character,
        }
    }

    /// The status after the service `c` has gone down.
    pub open spec fn without(self, c: MonolithComponent) -> Status {
        match c {
            MonolithComponent::Patch => Status { patch: false, ..self },
            MonolithComponent::Data => Status { data: false, ..self },
            MonolithComponent::Login => Status { login: false, ..self },
            MonolithComponent::Character => Status { character: false, ..self },
        }
    }

    /// The status after a report.
    pub open spec fn after(self, msg: MonolithMsg) -> Status {
        match msg.gone() {
            Some(c) => self.without(c),
            None => self,
        }
    }

    /// Whether no service is left.
    pub open spec fn all_down(self) -> bool {
        !self.patch && !self.data && !self.login && !self.character
    }

    /// The status at the start: every service counts as running until it
    /// says otherwise.
    pub fn new() -> (s: Status)
        ensures
            s == (Status { patch: true, data: true, login: true, character: true }),
    {
        Status { patch: true, data: true, login: true, character: true }
    }

    /// Takes note of a report and says whether the supervisor is done: it
    /// is once all four services have gone down.
    pub fn apply(&mut self, msg: &MonolithMsg) -> (done: bool)
        ensures
            *final(self) == old(self).after(*msg),
            done == final(self).all_down(),
    {
        match msg {
            MonolithMsg::Up(_) => {},
            MonolithMsg::DownErr(c, _) => {
                self.set_down(*c);
            },
            MonolithMsg::DownGraceful(c) => {
                self.set_down(*c);
            },
        }
        !self.patch && !self.data && !self.login && !self.character
    }

    /// Marks the service `c` as gone.
    pub fn set_down(&mut self, c: MonolithComponent)
        ensures
            *final(self) == old(self).without(c),
    {
        match c {
            MonolithComponent::Patch => {
                self.patch = false;
            },
            MonolithComponent::Data => {
                self.data = false;
            },
            MonolithComponent::Login => {
                self.login = false;
            },
            MonolithComponent::Character => {
                self.character = false;
            },
        }
    }
}

/// A service that has gone down stays down, whatever is reported later, and
/// a report about one service changes nothing about another.
pub proof fn lemma_down_stays_down(s: Status, msg: MonolithMsg, c: MonolithComponent)
    ensures
        !s.running(c) ==> !s.after(msg).running(c),
        msg.gone() != Some(c) ==> s.after(msg).running(c) == s.running(c),
        msg.gone() == Some(c) ==> !s.after(msg).running(c),
{
}

} // verus!
