//! How often, and after what pauses, a write that failed is tried again.
use vstd::arithmetic::power2::{lemma2_to64, lemma_pow2_pos, lemma_pow2_unfold, pow2};
use vstd::prelude::*;
use vstd::string::StringExecFns;

use crate::events::{KeyView, SessionKey};

verus! {

/// A write is tried so many times.
pub const MAX_RETRIES: u32 = 3;

/// The pause before the second try, in milliseconds. Each later one is twice as
/// long as the one before it.
pub const INITIAL_BACKOFF_MS: u64 = 100;

/// The pause after the given try, in milliseconds.
pub open spec fn pause_ms(attempt: u32) -> int {
    INITIAL_BACKOFF_MS * pow2((attempt - 1) as nat)
}

/// Which try of a write is under way.
#[derive(Clone, Copy, PartialEq, Eq, Structural, Debug)]
pub struct Backoff {
    pub attempt: u32,
    /// The pause should this try fail, in milliseconds.
    pub delay_ms: u64,
}

impl Backoff {
    /// Whether the try is one of those that are made, and the pause is its own.
    pub open spec fn wf(self) -> bool {
        1 <= self.attempt <= MAX_RETRIES && self.delay_ms == pause_ms(self.attempt)
    }

    /// The first try.
    pub fn new() -> (backoff: Backoff)
        ensures
            backoff.wf(),
            backoff.attempt == 1,
    {
        proof {
            lemma2_to64();
        }
        Backoff { attempt: 1, delay_ms: INITIAL_BACKOFF_MS }
    }

    /// The try failed. Goes on to the next one, and gives the pause before it
    /// in milliseconds; after the last one there is nothing left to try.
    pub fn after_failure(&mut self) -> (delay_ms: Option<u64>)
        requires
            old(self).wf(),
        ensures
            final(self).wf(),
            delay_ms is Some <==> old(self).attempt < MAX_RETRIES,
            delay_ms is Some ==> delay_ms->0 == pause_ms(old(self).attempt),
            old(self).attempt == 1 ==> delay_ms == Some(100u64),
            old(self).attempt == 2 ==> delay_ms == Some(200u64),
            old(self).attempt == 3 ==> delay_ms is None,
            delay_ms is Some ==> final(self).attempt == old(self).attempt + 1,
            delay_ms is None ==> *final(self) == *old(self),
    {
        if self.attempt < MAX_RETRIES {
            proof {
                lemma2_to64();
                lemma_pow2_unfold(self.attempt as nat);
            }
            let delay: u64 = self.delay_ms;
            self.attempt = self.attempt + 1;
            self.delay_ms = delay * 2;
            Some(delay)
        } else {
            None
        }
    }
}

/// Each pause is twice as long as the one before it, and the first one is the
/// shortest.
pub proof fn pauses_double(attempt: u32)
    requires
        1 <= attempt < u32::MAX,
    ensures
        pause_ms(1) == INITIAL_BACKOFF_MS,
        pause_ms((attempt + 1) as u32) == 2 * pause_ms(attempt),
        pause_ms(attempt) >= INITIAL_BACKOFF_MS,
{
    lemma2_to64();
    lemma_pow2_unfold(attempt as nat);
    lemma_pow2_pos((attempt - 1) as nat);
}

/// What says which summary could not be written.
pub open spec fn summary_context_text(key: KeyView) -> Seq<char> {
    "summary event for "@ + key.code_agent + "/"@ + key.session_id
}

/// What says which summary could not be written.
pub fn summary_context(key: &SessionKey) -> (text: String)
    ensures
        text@ == summary_context_text(key@),
        text@ == "summary event for "@ + key.code_agent@ + "/"@ + key.session_id@,
{
    let mut text = "summary event for ".to_string();
    text.append(key.code_agent.as_str());
    text.append("/");
    text.append(key.session_id.as_str());
    text
}

} // verus!
