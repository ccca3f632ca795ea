//! The scans that are running, each with the token that cancels it.

use vstd::prelude::*;
use std::collections::HashMap;
use tokio_util::sync::CancellationToken;

verus! {

broadcast use vstd::std_specs::hash::group_hash_axioms;

#[verifier::external_type_specification]
#[verifier::external_body]
pub struct ExCancellationToken(tokio_util::sync::CancellationToken);

/// tokio-util's `CancellationToken::cancel`: requests cancellation of the
/// token and of every clone of it. It returns nothing, and the token's
/// cancelled state lives inside the token, out of Verus's sight, so nothing
/// is claimed of it.
#[verifier::external_body]
fn cancel_token(token: &CancellationToken) {
    token.cancel();
}

/// The running scans, by scan id.
pub struct ScannerState {
    active: HashMap<u128, CancellationToken>,
}

impl ScannerState {
    /// The token of each running scan, by scan id.
    pub closed spec fn tokens(&self) -> Map<u128, CancellationToken> {
        self.active@
    }

    /// The ids of the running scans.
    pub open spec fn active_ids(&self) -> Set<u128> {
        self.tokens().dom()
    }

    /// No scan is running.
    pub fn new() -> (r: ScannerState)
        ensures
            r.tokens() == Map::<u128, CancellationToken>::empty(),
    {
        ScannerState { active: HashMap::new() }
    }

    /// A scan has started; `token` cancels it.
    pub fn register(&mut self, id: u128, token: CancellationToken)
        ensures
            final(self).tokens() == old(self).tokens().insert(id, token),
    {
        self.active.insert(id, token);
    }

    /// A scan has ended.
    pub fn finish(&mut self, id: u128)
        ensures
            final(self).tokens() == old(self).tokens().remove(id),
    {
        self.active.remove(&id);
    }

    /// Whether a scan is running.
    pub fn is_active(&self, id: u128) -> (b: bool)
        ensures
            b == self.active_ids().contains(id),
    {
        self.active.contains_key(&id)
    }

    /// Requests cancellation of a scan: when the scan is running, asks the
    /// token stored for it (see `tokens`) to cancel and returns true; returns
    /// false when there is no such scan. That the token is then cancelled is
    /// tokio-util's doing and is not stated here.
    pub fn cancel(&self, id: u128) -> (b: bool)
        ensures
            b == self.active_ids().contains(id),
    {
        match self.active.get(&id) {
            Some(token) => {
                cancel_token(token);
                true
            },
            None => false,
        }
    }
}

/// Registering a scan and then finishing it leaves the running scans and
/// their tokens as they were before it was registered, when its id was not
/// running; a registered scan is running, with the token it was registered
/// with, until it is finished, and not after.
pub proof fn lemma_register_then_finish(
    running: Map<u128, CancellationToken>,
    id: u128,
    token: CancellationToken,
)
    requires
        !running.dom().contains(id),
    ensures
        running.insert(id, token).dom().contains(id),
        running.insert(id, token)[id] == token,
        !running.insert(id, token).remove(id).dom().contains(id),
        running.insert(id, token).remove(id) == running,
{
    assert(running.insert(id, token).remove(id) =~= running);
}

/// Registering or finishing one scan does not change whether another one
/// is running, nor the token that cancels it.
pub proof fn lemma_other_scans_unaffected(
    running: Map<u128, CancellationToken>,
    id: u128,
    token: CancellationToken,
    other: u128,
)
    requires
        id != other,
    ensures
        running.insert(id, token).dom().contains(other) == running.dom().contains(other),
        running.remove(id).dom().contains(other) == running.dom().contains(other),
        running.dom().contains(other) ==> running.insert(id, token)[other] == running[other]
            && running.remove(id)[other] == running[other],
{
}

impl Default for ScannerState {
    fn default() -> (r: ScannerState)
        ensures
            r.tokens() == Map::<u128, CancellationToken>::empty(),
    {
        ScannerState::new()
    }
}

} // verus!
