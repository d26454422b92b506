//! Reaction roles: bindings between an emoji on a message and a guild role,
//! the administrator commands that maintain them, and the synchronizer that
//! turns reaction events into role grants and revocations.

pub mod emoji;
pub mod error;
pub mod ids;
pub mod binding;
pub mod store;
pub mod text;
pub mod commands;
pub mod sync;
pub mod laws;

pub use binding::{ReactionRole, ReactionUser, ReturnReactionId, ReturnRoleId, ReturnUserId};
pub use emoji::EmojiType;
