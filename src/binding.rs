use crate::emoji::{EmojiModel, EmojiType, ReactionEmoji};
use crate::ids::{parse_id, parsed_id};
use vstd::prelude::*;

verus! {

/// A stored binding: reacting with `emoji` on the message at `message_link`
/// grants the role `role_id`.
#[derive(Debug)]
pub struct ReactionRole {
    pub id: i32,
    pub role_id: u64,
    pub message_link: String,
    pub emoji: ReactionEmoji,
}

/// The mathematical value of a `ReactionRole`.
pub struct BindingModel {
    pub id: int,
    pub role_id: u64,
    pub message_link: Seq<char>,
    pub emoji: EmojiModel,
}

impl BindingModel {
    /// Whether the binding is the one of `role_id` on the message `link`.
    pub open spec fn has_key(self, link: Seq<char>, role_id: u64) -> bool {
        self.message_link == link && self.role_id == role_id
    }
}

impl View for ReactionRole {
    type V = BindingModel;

    open spec fn view(&self) -> BindingModel {
        BindingModel {
            id: self.id as int,
            role_id: self.role_id,
            message_link: self.message_link@,
            emoji: self.emoji@,
        }
    }
}

/// The binding that a stored row describes, when its columns are consistent:
/// a custom emoji carries a numeric id, a standard one carries none.
pub open spec fn row_model(
    id: i32,
    role_id: Seq<char>,
    message_link: Seq<char>,
    emoji_type: Option<EmojiType>,
    emoji_name: Seq<char>,
    emoji_id: Option<Seq<char>>,
) -> Option<BindingModel> {
    match parsed_id(role_id) {
        None => None,
        Some(role) => {
            let emoji = match (emoji_type, emoji_id) {
                (Some(EmojiType::Unicode), None) => Some(EmojiModel::Unicode { name: emoji_name }),
                (Some(EmojiType::Emote), Some(text)) => match parsed_id(text) {
                    Some(eid) => Some(EmojiModel::Custom { id: eid, name: emoji_name }),
                    None => None,
                },
                _ => None,
            };
            match emoji {
                Some(e) => Some(
                    BindingModel { id: id as int, role_id: role, message_link, emoji: e },
                ),
                None => None,
            }
        },
    }
}

pub open spec fn text_option_view(t: Option<String>) -> Option<Seq<char>> {
    match t {
        Some(s) => Some(s@),
        None => None,
    }
}

impl ReactionRole {
    /// Builds a binding from the columns of a stored row; `None` when the
    /// columns are inconsistent.
    pub fn from_columns(
        id: i32,
        role_id: &String,
        message_link: String,
        emoji_type: Option<EmojiType>,
        emoji_name: String,
        emoji_id: Option<String>,
    ) -> (r: Option<ReactionRole>)
        ensures
            match r {
                Some(b) => row_model(
                    id,
                    role_id@,
                    message_link@,
                    emoji_type,
                    emoji_name@,
                    text_option_view(emoji_id),
                ) == Some(b@),
                None => row_model(
                    id,
                    role_id@,
                    message_link@,
                    emoji_type,
                    emoji_name@,
                    text_option_view(emoji_id),
                ) is None,
            },
    {
        let role = match parse_id(role_id) {
            Some(v) => v,
            None => return None,
        };
        let emoji = match (emoji_type, emoji_id) {
            (Some(EmojiType::Unicode), None) => ReactionEmoji::Unicode { name: emoji_name },
            (Some(EmojiType::Emote), Some(text)) => match parse_id(&text) {
                Some(eid) => ReactionEmoji::Custom { id: eid, name: emoji_name },
                None => return None,
            },
            _ => return None,
        };
        Some(ReactionRole { id, role_id: role, message_link, emoji })
    }

    /// The `emoji_type` column of the binding.
    pub fn emoji_type(&self) -> (r: EmojiType)
        ensures
            r == self@.emoji.kind(),
    {
        self.emoji.kind()
    }

    /// The `reaction_emoji_name` column of the binding.
    pub fn reaction_emoji_name(&self) -> (r: &String)
        ensures
            r@ == self@.emoji.name(),
    {
        self.emoji.name()
    }

    /// The `reaction_emoji_id` column of the binding: present exactly for a
    /// custom emoji.
    pub fn reaction_emoji_id(&self) -> (r: Option<u64>)
        ensures
            r == self@.emoji.custom_id(),
    {
        self.emoji.custom_id()
    }

    /// A copy of the binding.
    pub fn duplicate(&self) -> (r: ReactionRole)
        ensures
            r@ == self@,
    {
        ReactionRole {
            id: self.id,
            role_id: self.role_id,
            message_link: self.message_link.clone(),
            emoji: self.emoji.duplicate(),
        }
    }
}

/// The id that a store operation assigned or touched.
#[derive(Clone, Copy, Debug, PartialEq, Eq, Structural)]
pub struct ReturnReactionId {
    pub id: i32,
}

/// The role of a binding that an emoji on a message resolved to.
#[derive(Clone, Copy, Debug, PartialEq, Eq, Structural)]
pub struct ReturnRoleId {
    pub role_id: u64,
}

/// A platform user who reacted.
#[derive(Debug)]
pub struct ReactionUser {
    /// The user's platform id.
    pub id: String,
    pub username: String,
}

/// The id of a platform user.
#[derive(Debug)]
pub struct ReturnUserId {
    pub id: String,
}

} // verus!
