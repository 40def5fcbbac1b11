//! The wait for the address of a launched application.

use std::sync::mpsc::{Receiver, RecvTimeoutError};
use std::time::Duration;
use vstd::prelude::*;

verus! {

/// How long the address of a launched application is waited for, in
/// seconds.
pub const URL_WAIT_SECS: u64 = 30;

/// `std::sync::mpsc::Receiver`: the receiving end of a channel. Nothing is
/// claimed of what it holds.
#[verifier::external_type_specification]
#[verifier::external_body]
#[verifier::reject_recursive_types(T)]
pub struct ExReceiver<T>(Receiver<T>);

/// `std::sync::mpsc::RecvTimeoutError`: why a bounded wait on a channel gave
/// no message.
#[verifier::external_type_specification]
#[verifier::external_body]
pub struct ExRecvTimeoutError(RecvTimeoutError);

/// `Duration::from_secs`: the duration of `secs` whole seconds. The call
/// always returns; nothing is claimed of the value.
pub assume_specification[ Duration::from_secs ](secs: u64) -> (d: Duration);

/// `Receiver::recv_timeout`: waits for a message for at most `timeout`.
/// What comes back depends on the sending side and on time, so nothing is
/// claimed of it.
pub assume_specification<T>[ Receiver::<T>::recv_timeout ](
    rx: &Receiver<T>,
    timeout: Duration,
) -> (r: Result<T, RecvTimeoutError>);

/// What the wait gives for each outcome of the receive: the address that
/// arrived, or nothing where none arrived in time or the sender is gone.
pub fn url_of_reply(reply: Result<String, RecvTimeoutError>) -> (url: Option<String>)
    ensures
        url == match reply {
            Ok(address) => Some(address),
            Err(_) => None::<String>,
        },
{
    match reply {
        Ok(address) => Some(address),
        Err(_) => None,
    }
}

/// Waits on `rx` for the address of the application, for at most
/// `timeout_secs` seconds. No address in time is no failure: the result is
/// then `None`, and the application goes on running with its address
/// unknown.
pub fn wait_for_url(rx: Receiver<String>, timeout_secs: u64) -> (url: Option<String>) {
    url_of_reply(rx.recv_timeout(Duration::from_secs(timeout_secs)))
}

} // verus!
