//! Authenticating: a key is stored only after the service has accepted it.

use vstd::prelude::*;
use crate::config::{set_api_key, Creds};
use crate::error::{Error, ErrorView};
use crate::linear::{
    request_for, viewer_outcome, LinearClient, Reply, Request, Viewer, ViewerData, VIEWER_QUERY,
};

verus! {

/// Starts the authentication with `key`: an empty key is refused on the spot,
/// for any other the result is the request that validates it. Nothing is
/// posted and nothing is stored by this step.
pub fn run(key: &str) -> (step: Result<Request, Error>)
    ensures
        match step {
            Ok(request) => key@.len() > 0 && request@ == request_for(key@, VIEWER_QUERY@, "{}"@),
            Err(e) => key@.len() == 0 && e@ == ErrorView::EmptyCredential,
        },
{
    if key.is_empty() {
        Err(Error::EmptyCredential)
    } else {
        Ok(LinearClient::new(key).viewer_request())
    }
}

/// Ends the authentication with the reply to the validating request. Where
/// the reply holds the viewer, `key` replaces the stored key. In every other
/// case the stored key stays exactly as it was: the key is refused, with the
/// reason as its cause, and an empty key is refused whatever the reply says.
pub fn finish(creds: &mut Creds, key: &str, reply: Reply<ViewerData>) -> (result: Result<
    Viewer,
    Error,
>)
    ensures
        result is Err ==> *final(creds) == *old(creds),
        key@.len() == 0 ==> (result matches Err(e) && e@ == ErrorView::EmptyCredential),
        key@.len() > 0 ==> match viewer_outcome(reply) {
            Ok(viewer) => result == Ok::<Viewer, Error>(viewer) && final(creds)@ == Some(key@),
            Err(cause) => result matches Err(e) && e@ == (ErrorView::InvalidCredential {
                cause: Box::new(cause),
            }),
        },
{
    if key.is_empty() {
        return Err(Error::EmptyCredential);
    }
    match LinearClient::get_viewer(reply) {
        Ok(viewer) => {
            set_api_key(creds, key);
            Ok(viewer)
        },
        Err(cause) => Err(Error::invalid_credential(cause)),
    }
}

} // verus!
