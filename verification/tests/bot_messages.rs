use music_bot::bot::{
    author_avatar, count_listeners, display_name, leave_after_grace, member_avatar_url, parse_command,
    start_leave_timer, VoiceMember, LEAVE_GRACE_SECS,
};

#[test]
fn message_with_prefix_is_a_command() {
    let (label, args) = parse_command("t!  PLAY   never\tgonna  give ").unwrap();
    assert_eq!(label, "play");
    assert_eq!(args, vec!["never", "gonna", "give"]);
}

#[test]
fn label_lowercased_unicode() {
    let (label, _) = parse_command("t!ÁLBUM x").unwrap();
    assert_eq!(label, "álbum");
}

#[test]
fn message_without_args() {
    let (label, args) = parse_command("t!queue").unwrap();
    assert_eq!(label, "queue");
    assert!(args.is_empty());
}

#[test]
fn message_without_prefix_or_label() {
    assert!(parse_command("hola").is_none());
    assert!(parse_command("t").is_none());
    assert!(parse_command("T!play").is_none());
    assert!(parse_command("t!").is_none());
    assert!(parse_command("t!    ").is_none());
}

#[test]
fn label_keeps_tabs_before_first_space() {
    let (label, args) = parse_command("t!vol\t50 x").unwrap();
    assert_eq!(label, "vol\t50");
    assert_eq!(args, vec!["x"]);
}

#[test]
fn display_name_fallbacks() {
    let n = "user".to_string();
    assert_eq!(display_name(&Some("nick".into()), &Some("glob".into()), &n), "nick");
    assert_eq!(display_name(&None, &Some("glob".into()), &n), "glob");
    assert_eq!(display_name(&None, &None, &n), "user");
}

#[test]
fn avatar_urls() {
    assert_eq!(
        member_avatar_url(1, 2, "a_abc"),
        "https://cdn.discordapp.com/guilds/1/users/2/avatars/a_abc.gif?size=1024"
    );
    assert_eq!(
        member_avatar_url(10, 20, "abc"),
        "https://cdn.discordapp.com/guilds/10/users/20/avatars/abc.webp?size=1024"
    );
    assert_eq!(author_avatar(1, 2, None, Some("u".into())), Some("u".to_string()));
    assert_eq!(
        author_avatar(1, 2, Some("h"), Some("u".into())),
        Some("https://cdn.discordapp.com/guilds/1/users/2/avatars/h.webp?size=1024".to_string())
    );
}

#[test]
fn listeners_exclude_bots_and_others() {
    let states = [
        VoiceMember { channel_id: Some(5), user_id: 1, is_bot: false },
        VoiceMember { channel_id: Some(5), user_id: 99, is_bot: true },
        VoiceMember { channel_id: Some(5), user_id: 7, is_bot: false },
        VoiceMember { channel_id: Some(6), user_id: 3, is_bot: false },
        VoiceMember { channel_id: None, user_id: 4, is_bot: false },
        VoiceMember { channel_id: Some(5), user_id: 42, is_bot: false },
    ];
    assert_eq!(count_listeners(&states, 5, 42), 2);
    assert_eq!(count_listeners(&states, 8, 42), 0);
    assert_eq!(count_listeners(&[], 5, 42), 0);
}

#[test]
fn auto_leave_only_from_an_empty_channel() {
    let alone = [
        VoiceMember { channel_id: Some(5), user_id: 42, is_bot: false },
        VoiceMember { channel_id: Some(5), user_id: 99, is_bot: true },
        VoiceMember { channel_id: Some(6), user_id: 3, is_bot: false },
    ];
    let company = [VoiceMember { channel_id: Some(5), user_id: 7, is_bot: false }];
    assert_eq!(LEAVE_GRACE_SECS, 30);
    assert!(start_leave_timer(&alone, 5, 42));
    assert!(!start_leave_timer(&company, 5, 42));
    assert!(leave_after_grace(Some(&alone[..]), 5, 42));
    assert!(!leave_after_grace(Some(&company[..]), 5, 42));
    assert!(!leave_after_grace(None, 5, 42));
}
