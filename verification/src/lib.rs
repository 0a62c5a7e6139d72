//! The core of a UDP publish/subscribe relay that also plays MIDI.
//!
//! Clients subscribe to channels and publish to them with short text
//! messages. A published message is forwarded to the other subscribers of
//! its channel and, where the channel has an entry in the mapping table,
//! turned into MIDI messages. A second socket answers discovery probes
//! with the address of the relay.
//!
//! Nothing here touches a socket, a file or a MIDI device: the functions
//! take the bytes that arrived and say what to change, send and schedule.
//!
//! - [`registry`]: which endpoints listen on which channel
//! - [`protocol`]: what a datagram asks for
//! - [`midi_handler`]: the mapping table, topic by topic
//! - [`overrides`]: the per-message overrides of a payload
//! - [`dispatch`]: MIDI bytes for an action
//! - [`server`]: the reaction to a datagram, and the discovery answer
//! - [`control`]: the commands of the tray menu
//! - [`icon`]: recolouring of the tray icon
//! - [`json`], [`text`]: what is asked of JSON documents and of text

pub mod control;
pub mod dispatch;
pub mod icon;
pub mod json;
pub mod midi_handler;
pub mod overrides;
pub mod protocol;
pub mod registry;
pub mod server;
pub mod text;
