//! Flows: asynchronous workflows on top of the entity-component-system.
//! This module holds the handles that flows use to refer to the world and
//! to entities, and the futures they build.

pub mod entity;
pub mod futures;
pub mod world;

pub use self::entity::{try_poll_step, FlowEntity, PollEntityRef, PollEntityView, TryPollEntityRef, TryPollEntityView, WakerAction};
pub use self::futures::YieldNow;
pub use self::world::{FlowWorld, PollView, PollWorld};
