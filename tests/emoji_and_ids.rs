use reaction_roles::binding::ReactionRole;
use reaction_roles::emoji::{
    classify_emoji, classify_with, is_unicode_emoji, CustomEmoji, EmojiType, ReactionEmoji,
};
use reaction_roles::error::BindingError;
use reaction_roles::ids::parse_id;
use reaction_roles::text::append_decimal;

fn s(t: &str) -> String {
    String::from(t)
}

#[test]
fn catalog_knows_standard_emoji() {
    assert!(is_unicode_emoji(&s("🔥")));
    assert!(is_unicode_emoji(&s("🎉")));
    assert!(!is_unicode_emoji(&s("party_parrot")));
    assert!(!is_unicode_emoji(&s("")));
}

#[test]
fn classify_standard_emoji_ignores_directory() {
    let custom = Some(CustomEmoji { id: 9, name: s("other") });
    match classify_emoji(&s("🔥"), custom) {
        Ok(ReactionEmoji::Unicode { name }) => assert_eq!(name, "🔥"),
        other => panic!("unexpected {:?}", other),
    }
}

#[test]
fn classify_custom_emoji_from_directory() {
    let custom = Some(CustomEmoji { id: 1234, name: s("parrot") });
    match classify_emoji(&s("<:parrot:1234>"), custom) {
        Ok(ReactionEmoji::Custom { id, name }) => {
            assert_eq!(id, 1234);
            assert_eq!(name, "parrot");
        }
        other => panic!("unexpected {:?}", other),
    }
}

#[test]
fn classify_unresolved_token_is_invalid() {
    assert!(matches!(classify_emoji(&s("nope"), None), Err(BindingError::InvalidEmoji)));
    assert!(matches!(classify_with(&s("nope"), false, None), Err(BindingError::InvalidEmoji)));
}

#[test]
fn classify_with_catalog_flag() {
    let r = classify_with(&s("x"), true, None).unwrap();
    assert_eq!(r.kind(), EmojiType::Unicode);
    assert_eq!(r.name(), "x");
    assert_eq!(r.custom_id(), None);
    let c = classify_with(&s("x"), false, Some(CustomEmoji { id: 5, name: s("y") })).unwrap();
    assert_eq!(c.kind(), EmojiType::Emote);
    assert_eq!(c.name(), "y");
    assert_eq!(c.custom_id(), Some(5));
}

#[test]
fn parse_id_reads_decimal() {
    assert_eq!(parse_id(&s("0")), Some(0));
    assert_eq!(parse_id(&s("123")), Some(123));
    assert_eq!(parse_id(&s("007")), Some(7));
    assert_eq!(parse_id(&s("18446744073709551615")), Some(u64::MAX));
}

#[test]
fn parse_id_rejects_other_text() {
    assert_eq!(parse_id(&s("")), None);
    assert_eq!(parse_id(&s("12a")), None);
    assert_eq!(parse_id(&s("-1")), None);
    assert_eq!(parse_id(&s(" 1")), None);
    assert_eq!(parse_id(&s("18446744073709551616")), None);
}

#[test]
fn append_decimal_writes_digits() {
    let mut out = s("id=");
    append_decimal(&mut out, 0);
    assert_eq!(out, "id=0");
    let mut out = s("");
    append_decimal(&mut out, 1234567890123);
    assert_eq!(out, "1234567890123");
    let mut out = s("");
    append_decimal(&mut out, u64::MAX);
    assert_eq!(out, "18446744073709551615");
}

#[test]
fn row_with_standard_emoji() {
    let row = ReactionRole::from_columns(
        3,
        &s("42"),
        s("https://discord.com/channels/1/2/3"),
        Some(EmojiType::Unicode),
        s("🔥"),
        None,
    )
    .unwrap();
    assert_eq!(row.id, 3);
    assert_eq!(row.role_id, 42);
    assert_eq!(row.emoji_type(), EmojiType::Unicode);
    assert_eq!(row.reaction_emoji_name(), "🔥");
    assert_eq!(row.reaction_emoji_id(), None);
}

#[test]
fn row_with_custom_emoji() {
    let row = ReactionRole::from_columns(
        4,
        &s("42"),
        s("link"),
        Some(EmojiType::Emote),
        s("parrot"),
        Some(s("99")),
    )
    .unwrap();
    assert_eq!(row.emoji_type(), EmojiType::Emote);
    assert_eq!(row.reaction_emoji_name(), "parrot");
    assert_eq!(row.reaction_emoji_id(), Some(99));
}

#[test]
fn inconsistent_rows_are_refused() {
    let bad_role =
        ReactionRole::from_columns(1, &s("role"), s("l"), Some(EmojiType::Unicode), s("🔥"), None);
    assert!(bad_role.is_none());
    let custom_without_id =
        ReactionRole::from_columns(1, &s("1"), s("l"), Some(EmojiType::Emote), s("p"), None);
    assert!(custom_without_id.is_none());
    let unicode_with_id = ReactionRole::from_columns(
        1,
        &s("1"),
        s("l"),
        Some(EmojiType::Unicode),
        s("🔥"),
        Some(s("5")),
    );
    assert!(unicode_with_id.is_none());
    let no_kind = ReactionRole::from_columns(1, &s("1"), s("l"), None, s("🔥"), None);
    assert!(no_kind.is_none());
    let bad_emoji_id = ReactionRole::from_columns(
        1,
        &s("1"),
        s("l"),
        Some(EmojiType::Emote),
        s("p"),
        Some(s("x")),
    );
    assert!(bad_emoji_id.is_none());
}

#[test]
fn error_reasons() {
    assert_eq!(BindingError::InvalidEmoji.reason(), "Invalid emoji");
    assert_eq!(BindingError::Conflict.reason(), "Role already has an emoji on this message");
    assert_eq!(BindingError::NotFound.reason(), "Role does not exist on message");
    assert_eq!(BindingError::UpstreamFailure.reason(), "Upstream call failed");
}
