//! Transport core of a visual-logging viewer: target filtering, wire-event
//! encoding, the WebSocket handshake, frame encoding, the event channel and
//! the lifecycle of the single viewer connection.
//!
//! Nothing here touches a socket, a thread or the environment. The caller
//! reads and writes; these modules say what the bytes mean and what to do
//! next.

pub mod channel;
pub mod encode;
pub mod escape;
pub mod filter;
pub mod frame;
pub mod handshake;
pub mod record;
pub mod session;
pub mod text;

pub use channel::EventChannel;
pub use filter::{Builder, WebVLogger};
pub use handshake::{Handshake, HandshakeState};
pub use record::{Color, LineStyle, Number, PointStyle, TextAlignment, Visual, VisualRecord};
pub use session::{Action, ConnectionManager, Event, Phase, SessionState};
