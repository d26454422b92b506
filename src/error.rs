use vstd::prelude::*;

verus! {

/// Why a binding command or a store operation failed.
#[derive(Clone, Copy, Debug, PartialEq, Eq, Structural)]
pub enum BindingError {
    /// The token is neither a standard emoji nor a custom emoji of the guild.
    InvalidEmoji,
    /// The role already has a binding on the message.
    Conflict,
    /// The role has no binding on the message.
    NotFound,
    /// A store or platform call failed.
    UpstreamFailure,
}

impl BindingError {
    /// The failure reason shown to the administrator.
    pub fn reason(&self) -> (r: String)
        ensures
            r@ == match *self {
                BindingError::InvalidEmoji => "Invalid emoji"@,
                BindingError::Conflict => "Role already has an emoji on this message"@,
                BindingError::NotFound => "Role does not exist on message"@,
                BindingError::UpstreamFailure => "Upstream call failed"@,
            },
    {
        match self {
            BindingError::InvalidEmoji => String::from_str("Invalid emoji"),
            BindingError::Conflict => String::from_str("Role already has an emoji on this message"),
            BindingError::NotFound => String::from_str("Role does not exist on message"),
            BindingError::UpstreamFailure => String::from_str("Upstream call failed"),
        }
    }
}

} // verus!
