//! How the companion is set up and kept alive.

use crate::text::same_text;
use vstd::prelude::*;
use vstd::string::*;
use vstd::arithmetic::power2::pow2;

verus! {

/// How long a connection may take to come about, in seconds.
pub const CONNECT_TIMEOUT_SECS: u64 = 10;

/// How long the chat may be silent before the connection is taken for lost, in seconds.
pub const SILENCE_LIMIT_SECS: u64 = 60;

/// The longest delay before a new connection, in seconds.
pub const LONGEST_DELAY_SECS: u64 = 128;

/// The delay that follows a delay when a connection is lost: none, then one second,
/// then twice as long each time up to the longest.
pub open spec fn longer_delay(delay: u64) -> u64 {
    if delay == 0 {
        1
    } else if delay <= 64 {
        (delay * 2) as u64
    } else {
        delay
    }
}

/// Gives the delay that follows a delay when a connection is lost.
pub fn next_delay(delay: u64) -> (next: u64)
    ensures
        next == longer_delay(delay),
{
    if delay == 0 {
        1
    } else if delay <= 64 {
        delay * 2
    } else {
        delay
    }
}

/// What to do once the watchdog thread has ended.
#[derive(Debug, Clone, Copy, PartialEq, Eq, Structural)]
pub enum NextMove {
    /// Make a new connection.
    Reconnect,
    /// Wait for the thread that reads the chat.
    AwaitReader,
}

/// The delay before the next connection.
#[derive(Debug)]
pub struct Supervisor {
    delay: u64,
}

impl View for Supervisor {
    type V = u64;

    closed spec fn view(&self) -> u64 {
        self.delay
    }
}

/// Whether a delay is one that a supervisor can come to: none, or a power of two up
/// to the longest.
pub open spec fn proper_delay(delay: u64) -> bool {
    delay == 0 || exists|k: nat| k <= 7 && delay == #[trigger] pow2(k)
}

impl Supervisor {
    /// The delay is a proper one.
    #[verifier::type_invariant]
    spec fn well_formed(self) -> bool {
        proper_delay(self.delay)
    }

    /// Starts without a delay.
    pub fn new() -> (supervisor: Self)
        ensures
            supervisor@ == 0,
    {
        Supervisor { delay: 0 }
    }

    /// Gives the delay before the next connection, in seconds.
    pub fn delay(&self) -> (delay: u64)
        ensures
            delay == self@,
            proper_delay(delay),
    {
        proof {
            use_type_invariant(self);
        }
        self.delay
    }

    /// Takes note that the watchdog thread has ended.
    pub fn watchdog_ended(&mut self, panicked: bool) -> (next: NextMove)
        ensures
            panicked ==> final(self)@ == longer_delay(old(self)@) && next == NextMove::Reconnect,
            !panicked ==> final(self)@ == old(self)@ && next == NextMove::AwaitReader,
    {
        if panicked {
            proof {
                use_type_invariant(&*self);
                lemma_delay_stays_proper(self@);
            }
            let next: u64 = next_delay(self.delay);
            self.delay = next;
            NextMove::Reconnect
        } else {
            NextMove::AwaitReader
        }
    }

    /// Takes note that the thread that reads the chat has ended.
    pub fn reader_ended(&mut self, panicked: bool)
        ensures
            final(self)@ == if panicked {
                longer_delay(old(self)@)
            } else {
                old(self)@
            },
    {
        if panicked {
            proof {
                use_type_invariant(&*self);
                lemma_delay_stays_proper(self@);
            }
            let next: u64 = next_delay(self.delay);
            self.delay = next;
        }
    }
}

/// A delay that follows a proper delay is proper.
pub proof fn lemma_delay_stays_proper(delay: u64)
    requires
        proper_delay(delay),
    ensures
        proper_delay(longer_delay(delay)),
{
    vstd::arithmetic::power2::lemma2_to64();
    if delay == 0 {
        assert(pow2(0) == 1);
    } else {
        let k = choose|k: nat| k <= 7 && delay == #[trigger] pow2(k);
        if k < 7 {
            vstd::arithmetic::power2::lemma_pow2_unfold(k + 1);
            if k == 6 {
                assert(pow2(7) == 128);
            } else {
                vstd::arithmetic::power2::lemma_pow2_strictly_increases(k, 6);
            }
            assert(longer_delay(delay) == pow2(k + 1));
        }
    }
}

/// The level of logging that a setting asks for.
pub open spec fn level_of(setting: Seq<char>) -> Option<Seq<char>> {
    if setting == "0"@ || setting == "false"@ || setting == ""@ {
        Some("info"@)
    } else if setting == "1"@ || setting == "true"@ {
        Some("debug"@)
    } else {
        None
    }
}

/// Gives the level of logging that a setting asks for, if it asks for any.
pub fn log_level(setting: &str) -> (level: Option<&'static str>)
    ensures
        match level {
            Some(name) => level_of(setting@) == Some(name@),
            None => level_of(setting@) is None,
        },
{
    if same_text(setting, "0") || same_text(setting, "false") || same_text(setting, "") {
        Some("info")
    } else if same_text(setting, "1") || same_text(setting, "true") {
        Some("debug")
    } else {
        None
    }
}

/// Writes the parameters of a database connection.
pub fn connection_params(host: &str, user: &str, password: &str) -> (params: String)
    ensures
        params@ == "host="@ + host@ + " user="@ + user@ + " password="@ + password@,
{
    let mut params = "host=".to_owned();
    params.append(host);
    params.append(" user=");
    params.append(user);
    params.append(" password=");
    params.append(password);
    params
}

} // verus!
