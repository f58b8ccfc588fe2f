//! What the host makes of the answers of the ABCI application.
use vstd::prelude::*;
use crate::height::AbciHeight;

verus! {

/// The verdict of the application on a proposal.
#[derive(Copy, Clone, Debug, PartialEq, Eq, Structural)]
pub enum Status {
    /// Code 1: the proposal is accepted.
    Accepted,
    /// Any other code.
    Other(i32),
}

/// The verdict that a status code stands for.
pub open spec fn status_of(code: i32) -> Status {
    if code == 1 {
        Status::Accepted
    } else {
        Status::Other(code)
    }
}

impl From<i32> for Status {
    fn from(code: i32) -> (r: Self) {
        match code {
            1 => Status::Accepted,
            other => Status::Other(other),
        }
    }
}

impl vstd::std_specs::convert::FromSpecImpl<i32> for Status {
    open spec fn obeys_from_spec() -> bool {
        true
    }

    open spec fn from_spec(code: i32) -> Self {
        status_of(code)
    }
}

/// A reply of the application to a request, sorted by what the host makes of it.
#[derive(Clone, Debug)]
pub enum AbciReply<T> {
    /// The kind of response the request asks for.
    Expected(T),
    /// The application raised an exception; its description.
    Exception(String),
    /// A response of another kind; its description.
    Unexpected(String),
    /// No response at all.
    Missing,
}

/// Why a request to the application failed.
#[derive(Clone, Debug)]
pub enum AbciError {
    /// The application raised an exception; its description.
    Exception(String),
    /// The application answered with a response of another kind; its description.
    Unexpected(String),
    /// The application did not answer.
    NoResponse,
}

/// The outcome that a reply stands for.
pub open spec fn reply_outcome<T>(reply: AbciReply<T>) -> Result<T, AbciError> {
    match reply {
        AbciReply::Expected(t) => Ok(t),
        AbciReply::Exception(e) => Err(AbciError::Exception(e)),
        AbciReply::Unexpected(d) => Err(AbciError::Unexpected(d)),
        AbciReply::Missing => Err(AbciError::NoResponse),
    }
}

/// The error that a reply other than the expected response stands for.
pub open spec fn reply_error<T, U>(reply: AbciReply<T>) -> Result<U, AbciError> {
    match reply {
        AbciReply::Expected(_) => Err(AbciError::NoResponse),
        AbciReply::Exception(e) => Err(AbciError::Exception(e)),
        AbciReply::Unexpected(d) => Err(AbciError::Unexpected(d)),
        AbciReply::Missing => Err(AbciError::NoResponse),
    }
}

/// The outcome of a request, given the reply: the expected response, or the error
/// that matches the reply.
pub fn expect_response<T>(reply: AbciReply<T>) -> (r: Result<T, AbciError>)
    ensures
        r == reply_outcome(reply),
{
    match reply {
        AbciReply::Expected(t) => Ok(t),
        AbciReply::Exception(e) => Err(AbciError::Exception(e)),
        AbciReply::Unexpected(d) => Err(AbciError::Unexpected(d)),
        AbciReply::Missing => Err(AbciError::NoResponse),
    }
}

/// The requests that the host makes of the ABCI application; each takes the reply that
/// came back and gives what the host makes of it.
pub struct AbciApp;

impl AbciApp {
    /// `PrepareProposal`: the transactions that the application put into the proposal.
    pub fn prepare_proposal(reply: AbciReply<Vec<Vec<u8>>>) -> (r: Result<Vec<Vec<u8>>, AbciError>)
        ensures
            r == reply_outcome(reply),
    {
        expect_response(reply)
    }

    /// `ProcessProposal`: the verdict of the application, from its status code.
    pub fn process_proposal(reply: AbciReply<i32>) -> (r: Result<Status, AbciError>)
        ensures
            match reply {
                AbciReply::Expected(code) => r == Ok::<Status, AbciError>(status_of(code)),
                _ => r == reply_error::<i32, Status>(reply),
            },
    {
        match expect_response(reply) {
            Ok(code) => Ok(Status::from(code)),
            Err(e) => Err(e),
        }
    }

    /// `FinalizeBlock`: the response of the application, as it came.
    pub fn finalize_block<T>(reply: AbciReply<T>) -> (r: Result<T, AbciError>)
        ensures
            r == reply_outcome(reply),
    {
        expect_response(reply)
    }

    /// `Commit`: the retain height that the application reports, none when negative.
    pub fn commit(reply: AbciReply<i64>) -> (r: Result<Option<AbciHeight>, AbciError>)
        ensures
            match reply {
                AbciReply::Expected(h) => r == Ok::<Option<AbciHeight>, AbciError>(
                    if h >= 0 { Some(AbciHeight(h as u64)) } else { None },
                ),
                _ => r == reply_error::<i64, Option<AbciHeight>>(reply),
            },
    {
        match expect_response(reply) {
            Ok(h) => Ok(retain_height(h)),
            Err(e) => Err(e),
        }
    }
}

/// The height below which the application allows pruning, as reported by `Commit`:
/// none when the reported height is negative.
pub fn retain_height(reported: i64) -> (r: Option<AbciHeight>)
    ensures
        reported >= 0 ==> r == Some(AbciHeight(reported as u64)),
        reported < 0 ==> r is None,
{
    if reported >= 0 {
        Some(AbciHeight::new(reported as u64))
    } else {
        None
    }
}

/// The application state hash that `FinalizeBlock` reports.
#[derive(Copy, Clone, Debug)]
pub enum AppHash {
    /// A SHA-256 hash.
    Sha256([u8; 32]),
    /// No hash.
    Empty,
}

/// `r` is the SHA-256 hash with the bytes `b`.
pub open spec fn holds_sha256(r: Option<AppHash>, b: Seq<u8>) -> bool {
    r matches Some(AppHash::Sha256(h)) && h@ == b
}

/// Calls `tendermint::Hash::from_bytes` with the SHA-256 algorithm: an empty input is the
/// empty hash, 32 bytes are a SHA-256 hash, any other length is an error.
#[verifier::external_body]
fn sha256_hash_from_bytes(bytes: &[u8]) -> (r: Option<AppHash>)
    ensures
        r == Some(AppHash::Empty) <== bytes@.len() == 0,
        holds_sha256(r, bytes@) <== bytes@.len() == 32,
        r is None <== bytes@.len() != 0 && bytes@.len() != 32,
{
    match tendermint::Hash::from_bytes(tendermint::hash::Algorithm::Sha256, bytes) {
        Ok(tendermint::Hash::Sha256(h)) => Some(AppHash::Sha256(h)),
        Ok(tendermint::Hash::None) => Some(AppHash::Empty),
        Err(_) => None,
    }
}

/// The application state hash carried by the response to `FinalizeBlock`: empty, or the
/// 32 bytes of a SHA-256 hash.
pub fn process_finalize_block_response(app_hash: &[u8]) -> (r: AppHash)
    requires
        app_hash@.len() == 0 || app_hash@.len() == 32,
    ensures
        app_hash@.len() == 0 ==> r is Empty,
        app_hash@.len() == 32 ==> holds_sha256(Some(r), app_hash@),
{
    match sha256_hash_from_bytes(app_hash) {
        Some(h) => h,
        None => AppHash::Empty,
    }
}

} // verus!
