//! The two channels between the client and the service, and the other calls
//! whose outcome the machine decides.

use vstd::prelude::*;
use crossbeam::channel::Receiver;
use crossbeam::channel::Sender;
use crate::spotify::SpotifyAPIEvent;
use crate::spotify::SpotifyAPIResult;

verus! {

/// Declares `crossbeam::channel::Sender`, the sending side of a channel, as
/// a type of which nothing is known.
#[verifier::external_type_specification]
#[verifier::external_body]
#[verifier::reject_recursive_types(T)]
pub struct ExSender<T>(Sender<T>);

/// Declares `crossbeam::channel::Receiver`, the receiving side of a channel,
/// as a type of which nothing is known.
#[verifier::external_type_specification]
#[verifier::external_body]
#[verifier::reject_recursive_types(T)]
pub struct ExReceiver<T>(Receiver<T>);

/// Why the client could not go on.
#[derive(Clone, Copy, Debug, PartialEq, Eq, Structural)]
pub enum ClientError {
    /// The channel to the service did not take a command.
    Disconnected,
    /// The machine did not tell its host name.
    HostnameUnavailable,
    /// The service handed back a result that cannot be merged.
    MalformedResult,
    /// A key asked a pane for a move that its rows do not allow.
    PaneNotReady,
}

/// Calls `crossbeam::channel::Sender::try_send`, which never blocks, and tells
/// whether the channel took the command. Nothing is claimed of the outcome: it
/// depends on whether the receiving side still exists and has room.
#[verifier::external_body]
pub(crate) fn hand_over(tx: &Sender<SpotifyAPIEvent>, command: SpotifyAPIEvent) -> (accepted: bool) {
    tx.try_send(command).is_ok()
}

/// Calls `crossbeam::channel::Receiver::try_recv`, which never blocks. Nothing
/// is claimed of the outcome: it depends on what the service has sent.
#[verifier::external_body]
pub(crate) fn take_result(rx: &Receiver<SpotifyAPIResult>) -> (result: Option<SpotifyAPIResult>) {
    rx.try_recv().ok()
}

/// Calls `crossbeam::channel::Sender::clone`: another handle of the same
/// channel.
#[verifier::external_body]
pub(crate) fn share(tx: &Sender<SpotifyAPIEvent>) -> (handle: Sender<SpotifyAPIEvent>) {
    tx.clone()
}

/// Calls `hostname::get_hostname`. Nothing is claimed of the outcome: it is
/// the machine's.
#[verifier::external_body]
pub(crate) fn local_hostname() -> (name: Option<String>) {
    hostname::get_hostname()
}

/// Hands a command to the service, if there is one.
pub(crate) fn dispatch(tx: &Sender<SpotifyAPIEvent>, command: Option<SpotifyAPIEvent>) -> (r:
    Result<(), ClientError>)
    ensures
        command is None ==> r is Ok,
        r matches Err(e) ==> e == ClientError::Disconnected,
{
    match command {
        Some(command) => if hand_over(tx, command) {
            Ok(())
        } else {
            Err(ClientError::Disconnected)
        },
        None => Ok(()),
    }
}

} // verus!
