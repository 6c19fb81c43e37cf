//! Authentication engine for an SRUN3000-family captive portal.
//!
//! - `codec`: the credential transform that the portal expects on the wire.
//! - `status`: the status record and its parser.
//! - `portal`: the request bodies and the reading of the portal's replies.
//! - `supervisor`: the state machine that decides when to probe, log in and
//!   wait.
//! - `config`: the settings that the supervisor reads.
//! - `update`: comparing a published release with this version.
//! - `display`: texts for the user.
//! - `text`: searching, splitting and number parsing on character sequences.
//!
//! Nothing here sleeps or touches the network: the caller sends what `portal`
//! builds, hands back what it got, and acts as `supervisor` says.

pub mod codec;
pub mod config;
pub mod display;
pub mod portal;
pub mod status;
pub mod supervisor;
pub mod text;
pub mod update;
