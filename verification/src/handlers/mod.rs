//! What the server answers to its clients.
pub mod audio_handler;
pub mod jobs_handler;
pub mod rag_handler;

use vstd::prelude::*;
use vstd::string::*;

verus! {

/// An answer that refuses: its HTTP status and its text.
#[derive(Debug)]
pub struct Refusal {
    pub status: u16,
    pub message: String,
}

/// `Refusal` with its text by its characters.
#[verifier::ext_equal]
pub struct RefusalView {
    pub status: u16,
    pub message: Seq<char>,
}

impl View for Refusal {
    type V = RefusalView;

    open spec fn view(&self) -> RefusalView {
        RefusalView { status: self.status, message: self.message@ }
    }
}

/// The status of a request that was taken in and goes on in the background.
pub const ACCEPTED: u16 = 202;

/// The status of a request that asks for something impossible.
pub const BAD_REQUEST: u16 = 400;

/// The status of a request without the right token.
pub const UNAUTHORIZED: u16 = 401;

/// The status of a request for something that is not there.
pub const NOT_FOUND: u16 = 404;

/// The status of a request that failed here.
pub const INTERNAL_SERVER_ERROR: u16 = 500;

pub open spec fn refusal(status: u16, message: Seq<char>) -> RefusalView {
    RefusalView { status, message }
}

/// There is no such job.
pub open spec fn no_such_job() -> RefusalView {
    refusal(NOT_FOUND, "Job no encontrado"@)
}

/// The server failed.
pub open spec fn server_error() -> RefusalView {
    refusal(INTERNAL_SERVER_ERROR, "Error interno del servidor"@)
}

pub fn refuse(status: u16, message: &str) -> (r: Refusal)
    ensures
        r@ == refusal(status, message@),
{
    Refusal { status, message: message.to_owned() }
}

pub fn refuse_no_such_job() -> (r: Refusal)
    ensures
        r@ == no_such_job(),
{
    refuse(NOT_FOUND, "Job no encontrado")
}

pub fn refuse_server_error() -> (r: Refusal)
    ensures
        r@ == server_error(),
{
    refuse(INTERNAL_SERVER_ERROR, "Error interno del servidor")
}

/// A job that is not there is a client's error, and a failure is the server's: each has its own
/// status.
pub proof fn refusals_have_their_status()
    ensures
        no_such_job().status == 404,
        no_such_job().message == "Job no encontrado"@,
        server_error().status == 500,
        server_error().message == "Error interno del servidor"@,
{
}

} // verus!
