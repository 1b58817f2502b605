//! Why a proof was not produced.
use vstd::prelude::*;

use crate::text::contains_text;

verus! {

/// The word by which a host recognises a cancelled proof in a message.
pub const MIDNIGHT_CANCEL_SENTINEL: &'static str = "MIDNIGHT_PROVE_CANCELLED";

/// Why a proof was not produced.
#[derive(Clone, Copy, Debug)]
pub enum Error {
    /// The proof was cancelled at a checkpoint.
    Cancelled {
        /// The phase that was about to start or had just ended.
        phase: &'static str,
    },
}

impl Error {
    /// The wording of the error.
    pub open spec fn spec_message(self) -> Seq<char> {
        match self {
            Error::Cancelled { phase } => MIDNIGHT_CANCEL_SENTINEL@ + ": proof cancelled at "@
                + phase@,
        }
    }

    /// The wording of the error.
    pub fn message(&self) -> (text: String)
        ensures
            text@ == self.spec_message(),
    {
        match self {
            Error::Cancelled { phase } => {
                let mut text = MIDNIGHT_CANCEL_SENTINEL.to_owned();
                text.append(": proof cancelled at ");
                text.append(phase);
                text
            },
        }
    }
}

/// A cancelled proof is recognised by the sentinel in the message, which also
/// names the phase.
pub proof fn law_the_cancelled_error_carries_the_sentinel(phase: &'static str)
    ensures
        contains_text(
            (Error::Cancelled { phase }).spec_message(),
            MIDNIGHT_CANCEL_SENTINEL@,
        ),
        contains_text((Error::Cancelled { phase }).spec_message(), phase@),
{
    let text = (Error::Cancelled { phase }).spec_message();
    let at = text.len() - phase@.len();
    let start: int = 0;
    assert(text.subrange(start, start + MIDNIGHT_CANCEL_SENTINEL@.len())
        =~= MIDNIGHT_CANCEL_SENTINEL@);
    assert(text.subrange(at, at + phase@.len()) =~= phase@);
}

} // verus!
