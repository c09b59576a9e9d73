use tirc::classify::{
    channel, classify, display_name, message, parse_privmsg, strip_line_ending, ChatLine,
    LineError, LineKind,
};
use tirc::tags::extract_tags;

const WIRE_LINE: &str = "@user-id=42;user-type=;vip=1 :Pogger!pogger@pogger.tmi.twitch.tv PRIVMSG #somechannel :hello world";

const RUN_ON_LINE: &str = "@user-id=42;user-type=;vip=1:Pogger!pogger@pogger.tmi.twitch.tv PRIVMSG #somechannel :hello world";

#[test]
fn reconnect_request_is_recognised_only_when_exact() {
    assert_eq!(classify(":tmi.twitch.tv RECONNECT"), LineKind::Reconnect);
    assert_eq!(classify(":tmi.twitch.tv RECONNECT "), LineKind::Other);
    assert_eq!(classify(" :tmi.twitch.tv RECONNECT"), LineKind::Other);
    assert_eq!(classify(":tmi.twitch.tv reconnect"), LineKind::Other);
}

#[test]
fn lines_with_privmsg_are_chat() {
    assert_eq!(classify(WIRE_LINE), LineKind::Chat);
    assert_eq!(classify("PRIVMSG"), LineKind::Chat);
}

#[test]
fn lines_with_the_ping_are_pings() {
    assert_eq!(classify("PING :tmi.twitch.tv"), LineKind::Ping);
    assert_eq!(classify("xx PING :tmi.twitch.tv yy"), LineKind::Ping);
    assert_eq!(classify("PING :other.host"), LineKind::Other);
}

#[test]
fn chat_comes_before_ping() {
    assert_eq!(
        classify(":a!a@a.tmi.twitch.tv PRIVMSG #c :PING :tmi.twitch.tv"),
        LineKind::Chat
    );
}

#[test]
fn other_lines_are_ignored() {
    assert_eq!(classify(""), LineKind::Other);
    assert_eq!(classify(":tmi.twitch.tv 001 justinfan :Welcome, GLHF!"), LineKind::Other);
    assert_eq!(classify("PRIVMS"), LineKind::Other);
}

#[test]
fn line_ending_is_stripped() {
    assert_eq!(strip_line_ending("PING :tmi.twitch.tv\r\n"), "PING :tmi.twitch.tv");
    assert_eq!(strip_line_ending("PING :tmi.twitch.tv\n"), "PING :tmi.twitch.tv");
    assert_eq!(strip_line_ending("PING :tmi.twitch.tv"), "PING :tmi.twitch.tv");
    assert_eq!(strip_line_ending("a\r\n\r\n"), "a\r\n");
    assert_eq!(strip_line_ending("a\r"), "a\r");
    assert_eq!(strip_line_ending("\n"), "");
    assert_eq!(strip_line_ending("\r\n"), "");
    assert_eq!(strip_line_ending(""), "");
    assert_eq!(strip_line_ending(" a \n"), " a ");
}

#[test]
fn channel_is_the_fourth_token_without_its_hash() {
    assert_eq!(channel(WIRE_LINE), Some("somechannel".to_string()));
    assert_eq!(channel("a b c d"), Some("d".to_string()));
    assert_eq!(channel("a b c ##d e"), Some("#d".to_string()));
    assert_eq!(channel("a b c d#"), Some("d#".to_string()));
    assert_eq!(channel("a  b c"), Some("c".to_string()));
    assert_eq!(channel("a b c "), Some(String::new()));
    assert_eq!(channel("a b c"), None);
    assert_eq!(channel(""), None);
}

#[test]
fn display_name_comes_from_the_vip_tag() {
    assert_eq!(display_name(&extract_tags(WIRE_LINE)), Some("Pogger".to_string()));
    assert_eq!(display_name(&extract_tags(RUN_ON_LINE)), Some("Pogger".to_string()));
    assert_eq!(display_name(&extract_tags("vip=a!b:c;user-type=x!y@z")), Some("b".to_string()));
}

#[test]
fn display_name_comes_from_user_type_without_vip() {
    let line = "@user-id=7;user-type= :nick!nick@nick.tmi.twitch.tv PRIVMSG #chan :hi";
    assert_eq!(display_name(&extract_tags(line)), Some("nick".to_string()));
    assert_eq!(display_name(&extract_tags("user-type=a@b!c")), Some("b".to_string()));
}

#[test]
fn display_name_is_missing_without_a_second_piece() {
    assert_eq!(display_name(&extract_tags("vip=1;user-type=a!b")), None);
    assert_eq!(display_name(&extract_tags("user-type=")), None);
    assert_eq!(display_name(&extract_tags("user-id=1")), None);
}

#[test]
fn message_follows_the_last_channel_marker() {
    assert_eq!(message(WIRE_LINE, "somechannel"), "hello world");
    assert_eq!(message("x #c :one #c :two", "c"), "two");
    assert_eq!(message("no marker here", "c"), "no marker here");
    assert_eq!(message("x #c :", "c"), "");
}

#[test]
fn message_is_trimmed() {
    assert_eq!(message("x #c :  hi there \t\r\n", "c"), "hi there");
    assert_eq!(message("x #c :\u{2003}hi\u{a0}", "c"), "hi");
    assert_eq!(message("  plain  ", "c"), "plain");
}

#[test]
fn pairs_of_spaces_become_one_space() {
    assert_eq!(message("x #c :a  b", "c"), "a b");
    assert_eq!(message("x #c :a   b", "c"), "a  b");
    assert_eq!(message("x #c :a    b", "c"), "a  b");
    assert_eq!(message("x #c :a     b  c", "c"), "a   b c");
}

#[test]
fn wire_line_parses_to_channel_name_and_message() {
    assert_eq!(
        parse_privmsg(WIRE_LINE),
        Ok(ChatLine {
            channel: "somechannel".to_string(),
            display_name: "Pogger".to_string(),
            message: "hello world".to_string(),
        })
    );
}

#[test]
fn run_on_line_has_its_fourth_token_in_the_message() {
    assert_eq!(
        parse_privmsg(RUN_ON_LINE),
        Ok(ChatLine {
            channel: ":hello".to_string(),
            display_name: "Pogger".to_string(),
            message: RUN_ON_LINE.to_string(),
        })
    );
    assert_eq!(message(RUN_ON_LINE, "somechannel"), "hello world");
}

#[test]
fn line_without_vip_parses_through_user_type() {
    let line = "@badges=;user-id=7;user-type= :nick!nick@nick.tmi.twitch.tv PRIVMSG #chan :so  it  goes ";
    assert_eq!(
        parse_privmsg(line),
        Ok(ChatLine {
            channel: "chan".to_string(),
            display_name: "nick".to_string(),
            message: "so it goes".to_string(),
        })
    );
}

#[test]
fn short_line_lacks_its_channel() {
    assert_eq!(parse_privmsg("PRIVMSG"), Err(LineError::MissingChannel));
    assert_eq!(parse_privmsg("@user-id=1;user-type=a!b PRIVMSG #c"), Err(LineError::MissingChannel));
}

#[test]
fn line_without_user_id_is_refused() {
    assert_eq!(
        parse_privmsg("@user-type= :n!n@n PRIVMSG #c :hi"),
        Err(LineError::MissingUserId)
    );
}

#[test]
fn line_without_user_type_is_refused() {
    assert_eq!(
        parse_privmsg("@user-id=1;vip=1 :n!n@n PRIVMSG #c :hi"),
        Err(LineError::MissingUserType)
    );
}

#[test]
fn line_without_a_name_is_refused() {
    assert_eq!(
        parse_privmsg("@user-id=1;user-type= PRIVMSG #c plain"),
        Err(LineError::MissingDisplayName)
    );
    assert_eq!(
        parse_privmsg("@user-id=1;user-type=a!b;vip=1 PRIVMSG #c plain"),
        Err(LineError::MissingDisplayName)
    );
}
