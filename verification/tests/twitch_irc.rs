use stream_infra::chat::twitch::{decode_tag, parse_privmsg, ParsedMessage};

#[test]
fn parses_tagged_twitch_privmsg() {
    let message = parse_privmsg(
        "@display-name=Some\\sViewer;id=message-123 :someviewer!someviewer@someviewer.tmi.twitch.tv PRIVMSG #channel :hello chat!\r\n",
    )
    .unwrap();

    assert_eq!(
        message,
        ParsedMessage {
            id: Some("message-123".into()),
            author: "Some Viewer".into(),
            text: "hello chat!".into(),
        }
    );
}

#[test]
fn parses_untagged_privmsg_like_the_reference_implementation() {
    let message =
        parse_privmsg(":viewer!viewer@viewer.tmi.twitch.tv PRIVMSG #channel :hello").unwrap();

    assert_eq!(message.id, None);
    assert_eq!(message.author, "viewer");
    assert_eq!(message.text, "hello");
}

#[test]
fn ignores_non_chat_irc_messages() {
    assert!(parse_privmsg("PING :tmi.twitch.tv\r\n").is_none());
    assert!(parse_privmsg(":tmi.twitch.tv 001 justinfan12345 :Welcome\r\n").is_none());
}

#[test]
fn tag_escapes_are_decoded() {
    assert_eq!(decode_tag("a\\sb\\:c\\\\d\\re\\nf\\xg\\"), "a b;c\\d\re\nfxg\\");
    assert_eq!(decode_tag(""), "");
}

#[test]
fn blank_text_or_author_is_not_a_chat_message() {
    assert!(parse_privmsg(":viewer!v@v PRIVMSG #channel :   ").is_none());
    assert!(parse_privmsg("@display-name=\\s :viewer!v@v PRIVMSG #c :hi").is_none());
    assert!(parse_privmsg("@no-space-after-tags").is_none());
}

#[test]
fn empty_tags_fall_back_to_the_prefix_nick() {
    let message = parse_privmsg("@display-name=;id= :nick!user@host PRIVMSG #c :text :with colon").unwrap();
    assert_eq!(message.author, "nick");
    assert_eq!(message.id, None);
    assert_eq!(message.text, "text :with colon");
}
