//! What a connection does when its reading task fails: a connection in play
//! that the peer simply closed ends quietly; any other failure is answered
//! with a disconnect packet.
use super::protocol::text_component;
use super::ClientState;
use vstd::prelude::*;
use vstd::string::StringExecFns;

verus! {

broadcast use vstd::string::group_string_axioms;

/// The kinds of I/O error that tell a failure apart.
#[derive(Clone, Copy, Debug, PartialEq, Eq, Structural)]
pub enum IoErrorKind {
    UnexpectedEof,
    Interrupted,
    ConnectionReset,
    ConnectionAborted,
    Other,
}

/// Calls `std::io::Error::kind` and names the kinds a failure is told apart
/// by, one arm each; nothing is claimed of which kind an error has.
#[verifier::external_body]
fn io_error_kind(e: &std::io::Error) -> IoErrorKind {
    match e.kind() {
        std::io::ErrorKind::UnexpectedEof => IoErrorKind::UnexpectedEof,
        std::io::ErrorKind::Interrupted => IoErrorKind::Interrupted,
        std::io::ErrorKind::ConnectionReset => IoErrorKind::ConnectionReset,
        std::io::ErrorKind::ConnectionAborted => IoErrorKind::ConnectionAborted,
        _ => IoErrorKind::Other,
    }
}

/// Whether a failure ends the connection without a word: an I/O error of
/// one of the kinds a closed connection gives, while in play.
pub open spec fn ends_quietly(io_kind: Option<IoErrorKind>, state: ClientState) -> bool {
    &&& io_kind matches Some(k) && k != IoErrorKind::Other
    &&& state == ClientState::Play
}

/// The disconnect reason to send after the reading task failed with an
/// error of I/O kind `io_kind` (`None` for an error that is not an I/O
/// error) in `state`: none where the connection ends quietly, else the chat
/// component `{"text":"Unexpected error"}`. Either way the connection is
/// then disconnected and its owner told of the logout.
pub fn failure_reason(io_kind: Option<IoErrorKind>, state: ClientState) -> (r: Option<String>)
    ensures
        ends_quietly(io_kind, state) ==> r is None,
        !ends_quietly(io_kind, state) ==> (r matches Some(t) && t@ == text_component("Unexpected error"@)),
{
    let quiet = match io_kind {
        Some(IoErrorKind::Other) | None => false,
        Some(_) => state == ClientState::Play,
    };
    if quiet {
        None
    } else {
        let mut text = String::from_str("{\"text\":\"Unexpected error\"}");
        proof {
            reveal_strlit("{\"text\":\"Unexpected error\"}");
            reveal_strlit("Unexpected error");
            reveal_strlit("{\"text\":");
            reveal_strlit("}");
            assert(super::protocol::json_escaped("Unexpected error"@) =~= "Unexpected error"@) by {
                super::protocol::lemma_plain_json_escaped("Unexpected error"@);
            }
            assert(text@ =~= text_component("Unexpected error"@));
        }
        Some(text)
    }
}

/// The disconnect reason to send after the reading task failed, given the
/// I/O error inside the failure where there is one: `failure_reason` of
/// that error's kind. Whatever the kind, a failure that is not an I/O
/// error, or one outside play, is answered.
pub fn on_listen_failure(io_error: Option<&std::io::Error>, state: ClientState) -> (r: Option<String>)
    ensures
        io_error is None || state != ClientState::Play ==> (r matches Some(t) && t@ == text_component(
            "Unexpected error"@,
        )),
{
    let kind = match io_error {
        Some(e) => Some(io_error_kind(e)),
        None => None,
    };
    failure_reason(kind, state)
}

} // verus!
