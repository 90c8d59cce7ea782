//! What the relay is started with, and the test that a sender passes before
//! a message is queued.

use vstd::prelude::*;
use vstd::string::*;

use crate::text::{push_signed, signed_decimal};

verus! {

/// What a sender outside the whitelist is told.
pub const REJECTION_NOTICE: &'static str = "your are not in whitelist";

/// The settings of a running relay.
#[derive(Debug)]
pub struct Opts {
    pub telegram_token: String,
    /// The one chat whose messages are journaled, as a decimal number.
    pub chat: String,
    pub github_token: String,
    /// The repository that holds the journal, as `owner/name`.
    pub repo: String,
}

impl Opts {
    /// Tests whether the chat `sender` is the one on the whitelist: whether
    /// its number, written in decimal, is the configured text.
    pub fn admits(&self, sender: i64) -> (admitted: bool)
        ensures
            admitted == (vstd::utf8::encode_utf8(self.chat@) == signed_decimal(sender as int)),
    {
        let mut written: Vec<u8> = Vec::new();
        push_signed(&mut written, sender);
        assert(written@ =~= signed_decimal(sender as int));
        let listed = self.chat.as_str().as_bytes();
        if listed.len() != written.len() {
            return false;
        }
        let mut i: usize = 0;
        while i < listed.len()
            invariant
                i <= listed@.len(),
                listed@.len() == written@.len(),
                listed@ == vstd::utf8::encode_utf8(self.chat@),
                written@ == signed_decimal(sender as int),
                forall|j: int| 0 <= j < i ==> listed@[j] == written@[j],
            decreases listed@.len() - i,
        {
            if listed[i] != written[i] {
                return false;
            }
            i = i + 1;
        }
        assert(listed@ =~= written@);
        true
    }
}

} // verus!
