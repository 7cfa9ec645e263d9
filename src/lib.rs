//! A WebSocket protocol engine: frame codec, message assembly, the close
//! handshake and the decisions of a full-duplex session, each with a
//! verified contract. The transport and the handler that drives a session
//! are supplied by the embedding application.
use vstd::prelude::*;
use vstd::string::StringSliceAdditionalSpecFns;

pub mod close;
pub mod frame;
pub mod handshake;
pub mod message;
pub mod session;

pub use handshake::{handshake_input, sign};
pub use session::Session;

verus! {

/// Per-session policy, fixed when the session is created.
#[derive(Clone, Copy, Debug)]
pub struct Config {
    pub write_buffer_size: usize,
    pub max_write_buffer_size: usize,
    pub accept_unmasked_frames: bool,
    pub max_message_size: Option<usize>,
    pub max_frame_size: Option<usize>,
}

/// 128 KiB.
pub const DEFAULT_WRITE_BUFFER_SIZE: usize = 131072;
/// 64 MiB.
pub const DEFAULT_MAX_MESSAGE_SIZE: usize = 67108864;
/// 16 MiB.
pub const DEFAULT_MAX_FRAME_SIZE: usize = 16777216;

impl Default for Config {
    fn default() -> (r: Config)
        ensures
            r.write_buffer_size == DEFAULT_WRITE_BUFFER_SIZE,
            r.max_write_buffer_size == usize::MAX,
            !r.accept_unmasked_frames,
            r.max_message_size == Some(DEFAULT_MAX_MESSAGE_SIZE),
            r.max_frame_size == Some(DEFAULT_MAX_FRAME_SIZE),
    {
        Config {
            write_buffer_size: DEFAULT_WRITE_BUFFER_SIZE,
            max_write_buffer_size: usize::MAX,
            accept_unmasked_frames: false,
            max_message_size: Some(DEFAULT_MAX_MESSAGE_SIZE),
            max_frame_size: Some(DEFAULT_MAX_FRAME_SIZE),
        }
    }
}

/// An accepted session: the signed `Sec-WebSocket-Key` (the value of the
/// `Sec-WebSocket-Accept` response header) and the session's policy.
pub struct WebSocket {
    /// signed `Sec-WebSocket-Key`
    pub sec_websocket_key: String,
    pub config: Config,
}

impl WebSocket {
    /// A new open session under this socket's policy.
    pub fn session(&self) -> (r: session::Session)
        ensures
            r.config() == self.config,
            r.pending() is None,
            r.state() == close::CloseState::Open,
    {
        session::Session::new(self.config)
    }
}

/// What the HTTP layer extracted from an upgrade request.
pub struct WebSocketContext<'ctx> {
    sec_websocket_key: &'ctx str,
}

impl<'ctx> WebSocketContext<'ctx> {
    pub closed spec fn key(&self) -> &'ctx str {
        self.sec_websocket_key
    }

    /// Creates a context from the `Sec-WebSocket-Key` request header value.
    pub fn new(sec_websocket_key: &'ctx str) -> (r: Self)
        ensures
            r.key() == sec_websocket_key,
    {
        WebSocketContext { sec_websocket_key }
    }

    /// Creates a session with the default policy.
    pub fn connect(self) -> (r: WebSocket)
        ensures
            r.sec_websocket_key@ == handshake::accept_value(self.key().spec_bytes()),
            r.config.write_buffer_size == DEFAULT_WRITE_BUFFER_SIZE,
            r.config.max_write_buffer_size == usize::MAX,
            !r.config.accept_unmasked_frames,
            r.config.max_message_size == Some(DEFAULT_MAX_MESSAGE_SIZE),
            r.config.max_frame_size == Some(DEFAULT_MAX_FRAME_SIZE),
    {
        self.connect_with(Config::default())
    }

    /// Creates a session with the given policy.
    pub fn connect_with(self, config: Config) -> (r: WebSocket)
        ensures
            r.sec_websocket_key@ == handshake::accept_value(self.key().spec_bytes()),
            r.config == config,
    {
        WebSocket { sec_websocket_key: sign(self.sec_websocket_key), config }
    }
}

} // verus!
