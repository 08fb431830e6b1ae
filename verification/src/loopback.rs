//! The handoff of fetched certificates to the core over the loopback channel.

use crate::rules::MAX_CERTIFICATES_TO_FETCH;
use crate::types::{Certificate, DagError, FetchCertificatesResponse};
use tokio::sync::oneshot;
use vstd::prelude::*;
use vstd::string::StringExecFns;

verus! {

/// The sending half of tokio's one-shot channel, carried here and used by the
/// core.
#[verifier::external_type_specification]
#[verifier::external_body]
#[verifier::reject_recursive_types(T)]
pub struct ExOneshotSender<T>(oneshot::Sender<T>);

/// The receiving half of tokio's one-shot channel, carried here and awaited
/// by the owner of the fetch task.
#[verifier::external_type_specification]
#[verifier::external_body]
#[verifier::reject_recursive_types(T)]
pub struct ExOneshotReceiver<T>(oneshot::Receiver<T>);

/// The error with which tokio's one-shot receiver resolves once its sender is
/// gone.
#[verifier::external_type_specification]
#[verifier::external_body]
pub struct ExOneshotRecvError(oneshot::error::RecvError);

/// Message format from the waiter to the core on the loopback channel.
pub struct CertificateLoopbackMessage {
    /// Certificates to be processed by the core.
    pub certificates: Vec<Certificate>,
    /// Used by the core to signal back that it is done with the certificates.
    pub done: oneshot::Sender<()>,
}

/// A loopback message ready to be sent, and the channel end on which the
/// core's acknowledgement arrives.
pub struct Handoff {
    pub message: CertificateLoopbackMessage,
    pub acknowledgement: oneshot::Receiver<()>,
}

/// Makes the channel over which the core acknowledges one loopback message,
/// with tokio's `oneshot::channel`. Nothing is claimed of the two ends.
#[verifier::external_body]
fn done_channel() -> (ends: (oneshot::Sender<()>, oneshot::Receiver<()>)) {
    oneshot::channel()
}

/// The words that open the account of a failure to send on the loopback
/// channel, before the channel's own words.
pub open spec fn send_failure_prefix() -> Seq<char> {
    "Failed to send fetched certificate to processing. tx_certificates_loopback error: "@
}

/// The words that open the account of a lost acknowledgement, before the
/// channel's own words.
pub open spec fn acknowledgement_failure_prefix() -> Seq<char> {
    "Failed to wait for core to process loopback certificates: "@
}

/// Prepares the loopback message for a peer's answer. An answer with more
/// certificates than a request asks for is refused and nothing is handed off.
pub fn process_certificates_helper(response: FetchCertificatesResponse) -> (result: Result<
    Handoff,
    DagError,
>)
    ensures
        match result {
            Ok(handoff) => {
                &&& response.certificates@.len() <= MAX_CERTIFICATES_TO_FETCH
                &&& handoff.message.certificates == response.certificates
            },
            Err(error) => {
                &&& response.certificates@.len() > MAX_CERTIFICATES_TO_FETCH
                &&& error == DagError::TooManyFetchedCertificatesReturned(
                    response.certificates.len(),
                    MAX_CERTIFICATES_TO_FETCH,
                )
            },
        },
{
    if response.certificates.len() > MAX_CERTIFICATES_TO_FETCH {
        return Err(
            DagError::TooManyFetchedCertificatesReturned(
                response.certificates.len(),
                MAX_CERTIFICATES_TO_FETCH,
            ),
        );
    }
    let (done, acknowledgement) = done_channel();
    Ok(
        Handoff {
            message: CertificateLoopbackMessage { certificates: response.certificates, done },
            acknowledgement,
        },
    )
}

/// What the fetch task makes of the attempt to send the loopback message:
/// it goes on to wait for the acknowledgement, or ends because the channel
/// is closed. `sent` holds the channel's own words where sending failed.
pub fn after_send(sent: Result<(), String>) -> (result: Result<(), DagError>)
    ensures
        match sent {
            Ok(_) => result is Ok,
            Err(detail) => result matches Err(DagError::ClosedChannel(report)) && report@
                == send_failure_prefix() + detail@,
        },
{
    match sent {
        Ok(_) => Ok(()),
        Err(detail) => {
            let report = String::from_str(
                "Failed to send fetched certificate to processing. tx_certificates_loopback error: ",
            ).concat(detail.as_str());
            Err(DagError::ClosedChannel(report))
        },
    }
}

/// What the fetch task makes of the wait for the core's acknowledgement of
/// `count` certificates: it ends well with that count, or ends because the
/// acknowledgement channel was closed without a signal. `acknowledged` holds
/// the channel's own words in that case.
pub fn after_acknowledgement(count: usize, acknowledged: Result<(), String>) -> (result: Result<
    usize,
    DagError,
>)
    ensures
        match acknowledged {
            Ok(_) => result == Ok::<usize, DagError>(count),
            Err(detail) => result matches Err(DagError::ClosedChannel(report)) && report@
                == acknowledgement_failure_prefix() + detail@,
        },
{
    match acknowledged {
        Ok(_) => Ok(count),
        Err(detail) => {
            let report = String::from_str(
                "Failed to wait for core to process loopback certificates: ",
            ).concat(detail.as_str());
            Err(DagError::ClosedChannel(report))
        },
    }
}

} // verus!
