use crate::error::BindingError;
use vstd::prelude::*;

verus! {

/// Whether an emoji belongs to the standard catalog or is a guild's own.
#[derive(Clone, Copy, Debug, PartialEq, Eq, Structural)]
pub enum EmojiType {
    Emote,
    Unicode,
}

/// The identity of an emoji as a binding records it: a standard emoji by its
/// text, a custom emoji by its platform id and display name.
#[derive(Debug)]
pub enum ReactionEmoji {
    Unicode { name: String },
    Custom { id: u64, name: String },
}

/// The mathematical value of a `ReactionEmoji`.
pub enum EmojiModel {
    Unicode { name: Seq<char> },
    Custom { id: u64, name: Seq<char> },
}

impl EmojiModel {
    pub open spec fn kind(self) -> EmojiType {
        match self {
            EmojiModel::Unicode { .. } => EmojiType::Unicode,
            EmojiModel::Custom { .. } => EmojiType::Emote,
        }
    }

    pub open spec fn name(self) -> Seq<char> {
        match self {
            EmojiModel::Unicode { name } => name,
            EmojiModel::Custom { name, .. } => name,
        }
    }

    pub open spec fn custom_id(self) -> Option<u64> {
        match self {
            EmojiModel::Unicode { .. } => None,
            EmojiModel::Custom { id, .. } => Some(id),
        }
    }
}

impl View for ReactionEmoji {
    type V = EmojiModel;

    open spec fn view(&self) -> EmojiModel {
        match self {
            ReactionEmoji::Unicode { name } => EmojiModel::Unicode { name: name@ },
            ReactionEmoji::Custom { id, name } => EmojiModel::Custom { id: *id, name: name@ },
        }
    }
}

impl ReactionEmoji {
    pub fn kind(&self) -> (r: EmojiType)
        ensures
            r == self@.kind(),
    {
        match self {
            ReactionEmoji::Unicode { .. } => EmojiType::Unicode,
            ReactionEmoji::Custom { .. } => EmojiType::Emote,
        }
    }

    pub fn name(&self) -> (r: &String)
        ensures
            r@ == self@.name(),
    {
        match self {
            ReactionEmoji::Unicode { name } => name,
            ReactionEmoji::Custom { name, .. } => name,
        }
    }

    pub fn custom_id(&self) -> (r: Option<u64>)
        ensures
            r == self@.custom_id(),
    {
        match self {
            ReactionEmoji::Unicode { .. } => None,
            ReactionEmoji::Custom { id, .. } => Some(*id),
        }
    }

    /// A copy of the emoji.
    pub fn duplicate(&self) -> (r: ReactionEmoji)
        ensures
            r@ == self@,
    {
        match self {
            ReactionEmoji::Unicode { name } => ReactionEmoji::Unicode { name: name.clone() },
            ReactionEmoji::Custom { id, name } => ReactionEmoji::Custom { id: *id, name: name.clone() },
        }
    }
}

/// A custom emoji as the guild's emoji directory resolved a token.
#[derive(Debug)]
pub struct CustomEmoji {
    pub id: u64,
    pub name: String,
}

/// Whether the text is an entry of the standard emoji catalog.
pub uninterp spec fn is_catalog_emoji(token: Seq<char>) -> bool;

/// Relies on `emojis::get`: it finds the text in the standard emoji catalog
/// or returns `None`, and depends on the text alone.
#[verifier::external_body]
fn catalog_contains(token: &str) -> (r: bool)
    ensures
        r == is_catalog_emoji(token@),
{
    emojis::get(token).is_some()
}

/// Whether the token names a standard emoji; when it does not, the token has
/// to be resolved as a custom emoji of the guild.
pub fn is_unicode_emoji(token: &String) -> (r: bool)
    ensures
        r == is_catalog_emoji(token@),
{
    catalog_contains(token.as_str())
}

/// What a token classifies as, given whether the catalog holds it and what
/// the guild's directory resolved it to.
pub open spec fn classified(
    token: Seq<char>,
    in_catalog: bool,
    custom: Option<(u64, Seq<char>)>,
) -> Option<EmojiModel> {
    if in_catalog {
        Some(EmojiModel::Unicode { name: token })
    } else {
        match custom {
            Some((id, name)) => Some(EmojiModel::Custom { id, name }),
            None => None,
        }
    }
}

pub open spec fn custom_view(custom: Option<CustomEmoji>) -> Option<(u64, Seq<char>)> {
    match custom {
        Some(c) => Some((c.id, c.name@)),
        None => None,
    }
}

/// The outcome of a classification, as the model states it.
pub open spec fn classification_matches(
    r: Result<ReactionEmoji, BindingError>,
    expected: Option<EmojiModel>,
) -> bool {
    match expected {
        Some(e) => r is Ok && r->Ok_0@ == e,
        None => r == Err::<ReactionEmoji, BindingError>(BindingError::InvalidEmoji),
    }
}

/// Classifies a token: a standard emoji when the catalog holds it, else the
/// custom emoji that the guild's directory resolved it to, else invalid.
pub fn classify_with(token: &String, in_catalog: bool, custom: Option<CustomEmoji>) -> (r: Result<
    ReactionEmoji,
    BindingError,
>)
    ensures
        classification_matches(r, classified(token@, in_catalog, custom_view(custom))),
{
    if in_catalog {
        Ok(ReactionEmoji::Unicode { name: token.clone() })
    } else {
        match custom {
            Some(c) => Ok(ReactionEmoji::Custom { id: c.id, name: c.name }),
            None => Err(BindingError::InvalidEmoji),
        }
    }
}

/// Classifies a token against the standard emoji catalog and, failing that,
/// the custom emoji that the guild's directory resolved it to.
pub fn classify_emoji(token: &String, custom: Option<CustomEmoji>) -> (r: Result<
    ReactionEmoji,
    BindingError,
>)
    ensures
        classification_matches(r, classified(token@, is_catalog_emoji(token@), custom_view(custom))),
{
    let in_catalog = is_unicode_emoji(token);
    classify_with(token, in_catalog, custom)
}

} // verus!
