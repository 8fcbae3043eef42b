//! Reconnect bookkeeping of the health loop.
//!
//! Each round the loop checks that the printer still answers; while there is
//! none it tries to open one. With a limit set, it gives up after that many
//! failed attempts in a row; a limit of 0 means it never gives up.
use vstd::prelude::*;

verus! {

/// How many attempts have been made since the printer was last found or lost.
pub struct Reconnect {
    attempts: u32,
    max_reconnects: u32,
}

impl Reconnect {
    /// Failed attempts since the printer was last found or lost.
    pub closed spec fn spent(self) -> u32 {
        self.attempts
    }

    /// The limit on attempts in a row; 0 means none.
    pub closed spec fn limit(self) -> u32 {
        self.max_reconnects
    }

    /// With a limit, no more attempts are counted than it allows.
    pub open spec fn within_limit(self) -> bool {
        self.limit() > 0 ==> self.spent() <= self.limit()
    }

    /// The limit is reached: no further attempt is made until the printer is
    /// found or lost again.
    pub open spec fn gave_up(self) -> bool {
        self.limit() > 0 && self.spent() >= self.limit()
    }

    /// Bookkeeping for a loop allowed `max_reconnects` attempts in a row.
    pub fn new(max_reconnects: u32) -> (r: Reconnect)
        ensures
            r.spent() == 0,
            r.limit() == max_reconnects,
            r.within_limit(),
    {
        Reconnect { attempts: 0, max_reconnects }
    }

    /// Failed attempts so far.
    pub fn attempts(&self) -> (r: u32)
        ensures
            r == self.spent(),
    {
        self.attempts
    }

    /// The printer stopped answering: counting starts afresh.
    pub fn printer_lost(&mut self)
        ensures
            final(self).spent() == 0,
            final(self).limit() == old(self).limit(),
            final(self).within_limit(),
    {
        self.attempts = 0;
    }

    /// A printer was opened: counting starts afresh.
    pub fn printer_found(&mut self)
        ensures
            final(self).spent() == 0,
            final(self).limit() == old(self).limit(),
            final(self).within_limit(),
    {
        self.attempts = 0;
    }

    /// Whether to try opening a printer this round. An attempt is counted
    /// when it is made; none is made once the limit is reached.
    pub fn next_attempt(&mut self) -> (r: bool)
        requires
            old(self).limit() > 0 || old(self).spent() < u32::MAX,
        ensures
            r == !old(self).gave_up(),
            final(self).limit() == old(self).limit(),
            final(self).spent() == if r {
                old(self).spent() + 1
            } else {
                old(self).spent() as int
            },
            old(self).within_limit() ==> final(self).within_limit(),
    {
        if self.max_reconnects > 0 && self.attempts >= self.max_reconnects {
            false
        } else {
            self.attempts = self.attempts + 1;
            true
        }
    }
}

} // verus!
