use dashmap::DashMap;
use tirc::tags::extract_tags;

fn value(tags: &DashMap<String, String>, key: &str) -> Option<String> {
    tags.get(key).map(|entry| entry.value().clone())
}

#[test]
fn two_pairs_give_two_entries() {
    let tags = extract_tags("@k1=v1;k2=v2");
    assert_eq!(tags.len(), 2);
    assert_eq!(value(&tags, "k1"), Some("v1".to_string()));
    assert_eq!(value(&tags, "k2"), Some("v2".to_string()));
}

#[test]
fn text_without_sentinel_parses_the_same() {
    let tags = extract_tags("k1=v1;k2=v2");
    assert_eq!(tags.len(), 2);
    assert_eq!(value(&tags, "k1"), Some("v1".to_string()));
    assert_eq!(value(&tags, "k2"), Some("v2".to_string()));
}

#[test]
fn segment_without_equals_gives_the_empty_pair() {
    let tags = extract_tags("@a=1;junk;b=2");
    assert_eq!(tags.len(), 3);
    assert_eq!(value(&tags, "a"), Some("1".to_string()));
    assert_eq!(value(&tags, "b"), Some("2".to_string()));
    assert_eq!(value(&tags, ""), Some(String::new()));
    assert_eq!(value(&tags, "junk"), None);
}

#[test]
fn later_segment_with_empty_key_replaces_the_empty_pair() {
    let tags = extract_tags("junk;=x");
    assert_eq!(tags.len(), 1);
    assert_eq!(value(&tags, ""), Some("x".to_string()));
}

#[test]
fn empty_text_is_one_segment_without_equals() {
    let tags = extract_tags("");
    assert_eq!(tags.len(), 1);
    assert_eq!(value(&tags, ""), Some(String::new()));
}

#[test]
fn trailing_semicolon_adds_the_empty_pair() {
    let tags = extract_tags("k=v;");
    assert_eq!(tags.len(), 2);
    assert_eq!(value(&tags, "k"), Some("v".to_string()));
    assert_eq!(value(&tags, ""), Some(String::new()));
}

#[test]
fn parsing_twice_gives_the_same_set() {
    let text = "@badges=;color=#FF0000;junk;user-id=42";
    let first = extract_tags(text);
    let second = extract_tags(text);
    assert_eq!(first.len(), second.len());
    for entry in first.iter() {
        assert_eq!(value(&second, entry.key()), Some(entry.value().clone()));
    }
    assert_eq!(first.len(), 4);
}

#[test]
fn only_one_leading_sentinel_is_stripped() {
    let tags = extract_tags("@@k=v");
    assert_eq!(tags.len(), 1);
    assert_eq!(value(&tags, "@k"), Some("v".to_string()));
}

#[test]
fn trailing_marker_is_stripped_once() {
    let tags = extract_tags("@k=v PRIVMSG");
    assert_eq!(value(&tags, "k"), Some("v ".to_string()));
    let twice = extract_tags("k=vPRIVMSGPRIVMSG");
    assert_eq!(value(&twice, "k"), Some("vPRIVMSG".to_string()));
}

#[test]
fn marker_alone_leaves_nothing() {
    let tags = extract_tags("@PRIVMSG");
    assert_eq!(tags.len(), 1);
    assert_eq!(value(&tags, ""), Some(String::new()));
}

#[test]
fn last_value_of_a_repeated_key_stands() {
    let tags = extract_tags("a=1;b=2;a=3");
    assert_eq!(tags.len(), 2);
    assert_eq!(value(&tags, "a"), Some("3".to_string()));
    assert_eq!(value(&tags, "b"), Some("2".to_string()));
}

#[test]
fn value_keeps_what_follows_the_first_equals() {
    let tags = extract_tags("k=a=b;empty=");
    assert_eq!(value(&tags, "k"), Some("a=b".to_string()));
    assert_eq!(value(&tags, "empty"), Some(String::new()));
}

#[test]
fn text_beyond_ascii_is_kept() {
    let tags = extract_tags("@display-name=Zoë;emote=☃=☃");
    assert_eq!(value(&tags, "display-name"), Some("Zoë".to_string()));
    assert_eq!(value(&tags, "emote"), Some("☃=☃".to_string()));
}
