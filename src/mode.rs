//! Administrator mode: granted by the right password, for ten minutes from the login.
use crate::timestamp::{elapsed_seconds, now_local, seconds_between, Timestamp};
use vstd::prelude::*;

verus! {

/// How long a login lasts, in seconds.
pub const ADMIN_SECONDS: i64 = 60 * 10;

/// When the administrator last logged in, if they are logged in.
#[derive(Clone, Copy, Debug, Default)]
pub struct Mode {
    pub login_time: Option<Timestamp>,
}

impl Mode {
    /// A login time, where there is one, is a date-time that exists.
    pub open spec fn wf(self) -> bool {
        self.login_time matches Some(t) ==> t.wf()
    }

    /// Whether the administrator counts as logged in at `now`.
    pub open spec fn admin_at(self, now: Timestamp) -> bool {
        match self.login_time {
            Some(t) => seconds_between(now, t) < ADMIN_SECONDS,
            None => false,
        }
    }

    pub fn is_admin_at(&self, now: &Timestamp) -> (r: bool)
        requires
            self.wf(),
            now.wf(),
        ensures
            r == self.admin_at(*now),
    {
        match &self.login_time {
            Some(t) => match elapsed_seconds(now, t) {
                Some(d) => d < ADMIN_SECONDS,
                None => false,
            },
            None => false,
        }
    }

    /// Whether the administrator counts as logged in at the present local time.
    pub fn is_admin(&self) -> (r: bool)
        requires
            self.wf(),
        ensures
            exists|now: Timestamp| now.wf() && r == self.admin_at(now),
    {
        let now = now_local();
        self.is_admin_at(&now)
    }

    /// Logs in at `now` where `password` is `secret`; reports whether it was.
    pub fn login_at(&mut self, password: &str, secret: &str, now: &Timestamp) -> (r: bool)
        ensures
            r == (password@ == secret@),
            r ==> final(self).login_time == Some(*now),
            !r ==> *final(self) == *old(self),
    {
        let given = password.to_string();
        let expected = secret.to_string();
        if given == expected {
            self.login_time = Some(*now);
            true
        } else {
            false
        }
    }

    /// Logs in at the present local time where `password` is `secret`; reports whether it was.
    pub fn login(&mut self, password: &str, secret: &str) -> (r: bool)
        requires
            old(self).wf(),
        ensures
            r == (password@ == secret@),
            final(self).wf(),
            !r ==> *final(self) == *old(self),
    {
        let now = now_local();
        self.login_at(password, secret, &now)
    }

    pub fn logout(&mut self)
        ensures
            final(self).login_time is None,
    {
        self.login_time = None;
    }
}

} // verus!
