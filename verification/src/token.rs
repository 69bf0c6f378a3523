//! The cancellation token that carries shutdown to the services.
//!
//! The items here speak of `tokio_util::sync::CancellationToken`; their contracts
//! are taken on trust.
use tokio_util::sync::CancellationToken;
use vstd::prelude::*;

verus! {

/// `tokio_util`'s cancellation token.
#[verifier::external_type_specification]
#[verifier::external_body]
pub struct ExCancellationToken(CancellationToken);

/// The token was cancelled through this handle.
///
/// A service holds a clone of the root token and may cancel it too, so a handle for
/// which this does not hold is not thereby known to be uncancelled.
pub uninterp spec fn cancelled(token: CancellationToken) -> bool;

/// The same token, once it was cancelled through this handle.
pub uninterp spec fn once_cancelled(token: CancellationToken) -> CancellationToken;

/// `CancellationToken::new`: the token starts out uncancelled.
pub assume_specification[ CancellationToken::new ]() -> (token: CancellationToken)
    ensures
        !cancelled(token),
;

/// `CancellationToken::clone`: the clone stands for the same token, so cancelling
/// one cancels the other.
pub assume_specification[ <CancellationToken as Clone>::clone ](token: &CancellationToken) -> (copy:
    CancellationToken)
    ensures
        copy == *token,
;

/// Calls `CancellationToken::cancel`.
///
/// Claimed: it is this token that is cancelled, which nothing undoes.
#[verifier::external_body]
fn cancel(token: &mut CancellationToken)
    ensures
        *final(token) == once_cancelled(*old(token)),
        cancelled(*final(token)),
{
    token.cancel()
}

/// The right to cancel the root token. Nobody else has it: services hold handles of the
/// token, and the right is given up by cancelling.
pub struct RootToken {
    token: CancellationToken,
}

impl RootToken {
    /// The token.
    pub closed spec fn token(&self) -> CancellationToken {
        self.token
    }

    /// The right was not exercised yet.
    pub closed spec fn wf(&self) -> bool {
        !cancelled(self.token)
    }

    /// Whoever has the right has not exercised it.
    pub proof fn lemma_unexercised(&self)
        requires
            self.wf(),
        ensures
            !cancelled(self.token()),
    {
    }

    /// Creates a root token.
    pub fn new() -> (root: Self)
        ensures
            root.wf(),
    {
        RootToken { token: CancellationToken::new() }
    }

    /// Returns a handle of the token.
    pub fn handle(&self) -> (handle: CancellationToken)
        ensures
            handle == self.token(),
    {
        self.token.clone()
    }

    /// Cancels the token.
    pub fn cancel(self) -> (token: CancellationToken)
        ensures
            token == once_cancelled(self.token()),
            cancelled(token),
    {
        let mut token = self.token;
        cancel(&mut token);
        token
    }
}

} // verus!
