//! The decisions of a client connection: which state it is in, what each
//! packet leads to, and when keep-alives are sent.
pub mod crypto;
pub mod failure;
pub mod keep_alive;
pub mod protocol;
pub mod stream;


use vstd::prelude::*;

verus! {

/// The state of a connection.
#[derive(Clone, Copy, Debug, PartialEq, Eq, Structural)]
pub enum ClientState {
    Handshaking,
    Status,
    Login,
    Play,
    Disconnected,
}

} // verus!
