use guildbot::emoji::{
    created_emoji_reply, data_uri, emoji_deleted_reply, emoji_renamed_reply, emoji_step,
    image_kind, new_emoji, parse_emoji, parse_emoji_panics, read_image, remove_emoji,
    rename_emoji, EmojiRef, EmojiStep, ImageError, ImageKind,
};
use guildbot::reply::Outgoing;
use guildbot::text::{chars_of, contains, decimal, last_segment, starts_with};

#[test]
fn contains_finds_runs() {
    assert!(contains("cat.png", "png"));
    assert!(contains("png", "png"));
    assert!(!contains("cat.pn", "png"));
    assert!(contains("anything", ""));
    assert!(!contains("", "a"));
}

#[test]
fn starts_with_checks_prefix() {
    assert!(starts_with("https://x", "http"));
    assert!(!starts_with("htt", "http"));
    assert!(!starts_with("ftp://x", "http"));
}

#[test]
fn chars_of_copies_unicode() {
    assert_eq!(chars_of("aé✓"), vec!['a', 'é', '✓']);
}

#[test]
fn last_segment_is_after_last_slash() {
    assert_eq!(last_segment("https://cdn.example.com/emojis/party.gif"), "party.gif");
    assert_eq!(last_segment("no_slash.png"), "no_slash.png");
    assert_eq!(last_segment("trailing/"), "");
    assert_eq!(last_segment(""), "");
}

#[test]
fn decimal_renders_like_display() {
    assert_eq!(decimal(0), "0");
    assert_eq!(decimal(7), "7");
    assert_eq!(decimal(10), "10");
    assert_eq!(decimal(1234567890), "1234567890");
    assert_eq!(decimal(u128::MAX), u128::MAX.to_string());
}

#[test]
fn image_kind_prefers_png_then_jpeg_then_gif() {
    assert_eq!(image_kind("a.png"), Some(ImageKind::Png));
    assert_eq!(image_kind("png.gif"), Some(ImageKind::Png));
    assert_eq!(image_kind("a.jpg"), Some(ImageKind::Jpeg));
    assert_eq!(image_kind("a.jpeg"), Some(ImageKind::Jpeg));
    assert_eq!(image_kind("jpg.gif"), Some(ImageKind::Jpeg));
    assert_eq!(image_kind("a.gif"), Some(ImageKind::Gif));
    assert_eq!(image_kind("a.webp"), None);
}

#[test]
fn data_uri_wraps_encoded_text() {
    assert_eq!(data_uri("x.png", "QUJD").unwrap(), "data:image/png;base64,QUJD");
    assert_eq!(data_uri("x.jpeg", "QUJD").unwrap(), "data:image/jpeg;base64,QUJD");
    assert_eq!(data_uri("x.gif", "").unwrap(), "data:image/gif;base64,");
    assert_eq!(data_uri("x.bmp", "QUJD"), Err(ImageError::NotValid));
}

#[test]
fn read_image_encodes_in_base64() {
    assert_eq!(read_image("a.png", b"hi").unwrap(), "data:image/png;base64,aGk=");
    assert_eq!(read_image("a.jpg", b"Man").unwrap(), "data:image/jpeg;base64,TWFu");
    assert_eq!(read_image("a.gif", &[]).unwrap(), "data:image/gif;base64,");
    assert_eq!(read_image("a.txt", b"hi"), Err(ImageError::NotValid));
}

#[test]
fn image_error_message() {
    assert_eq!(ImageError::NotValid.message(), "Image is not valid");
}

#[test]
fn new_emoji_uses_last_url_segment() {
    assert_eq!(
        new_emoji("https://cdn.example.com/png/cat.gif", &[0, 1, 2]).unwrap(),
        "data:image/gif;base64,AAEC"
    );
    assert_eq!(
        new_emoji("https://cdn.example.com/gif/picture", &[0, 1, 2]),
        Err(ImageError::NotValid)
    );
}

#[test]
fn created_emoji_reply_text() {
    assert_eq!(
        created_emoji_reply("<:cat:42>", "cat"),
        Outgoing::Say("Created emoji <:cat:42> with name cat".to_string())
    );
}

#[test]
fn parse_emoji_reads_mentions() {
    assert_eq!(
        parse_emoji("<:smugAnimeFace:302516740095606785>"),
        Some(EmojiRef { animated: false, name: "smugAnimeFace".to_string(), id: 302516740095606785 })
    );
    assert_eq!(
        parse_emoji("<a:dance:123456>"),
        Some(EmojiRef { animated: true, name: "dance".to_string(), id: 123456 })
    );
    assert_eq!(parse_emoji("<:smugAnimeFace:302516740095606785"), None);
    assert_eq!(parse_emoji("smile"), None);
}

#[test]
fn parse_emoji_panic_inputs() {
    assert!(parse_emoji_panics("<:é:1234>"));
    assert!(parse_emoji_panics("<a:éé:1>"));
    assert!(!parse_emoji_panics("<a:é:12>"));
    assert!(!parse_emoji_panics("<:cat:1>"));
    assert!(!parse_emoji_panics("<:é>"));
    assert_eq!(parse_emoji("<a:é:12>"), None);
}

#[test]
fn remove_and_rename_pick_the_emoji() {
    assert_eq!(remove_emoji("<:x:1>"), EmojiStep::Act(1));
    assert_eq!(rename_emoji("<a:party:77>"), EmojiStep::Act(77));
    assert_eq!(
        remove_emoji("nope"),
        EmojiStep::Send(Outgoing::Say("That emoji was not found".to_string()))
    );
    assert_eq!(
        emoji_step(&None),
        EmojiStep::Send(Outgoing::Say("That emoji was not found".to_string()))
    );
    assert_eq!(emoji_deleted_reply(), Outgoing::Say("Deleted emoji".to_string()));
    assert_eq!(emoji_renamed_reply("dog"), Outgoing::Say("Renamed emoji to dog".to_string()));
}

#[test]
fn read_image_base64_vectors() {
    assert_eq!(read_image("f.png", b"f").unwrap(), "data:image/png;base64,Zg==");
    assert_eq!(read_image("f.png", b"fo").unwrap(), "data:image/png;base64,Zm8=");
    assert_eq!(read_image("f.png", b"foo").unwrap(), "data:image/png;base64,Zm9v");
    assert_eq!(read_image("f.png", b"foob").unwrap(), "data:image/png;base64,Zm9vYg==");
    assert_eq!(read_image("f.png", b"fooba").unwrap(), "data:image/png;base64,Zm9vYmE=");
    assert_eq!(read_image("f.png", b"foobar").unwrap(), "data:image/png;base64,Zm9vYmFy");
    assert_eq!(read_image("f.png", &[0xfb, 0xff]).unwrap(), "data:image/png;base64,+/8=");
}

#[test]
fn new_emoji_type_comes_from_last_segment_only() {
    assert_eq!(
        new_emoji("https://png.example.com/cat.bmp", b"x"),
        Err(ImageError::NotValid)
    );
    assert_eq!(
        new_emoji("https://example.com/cat.PNG", b"x"),
        Err(ImageError::NotValid)
    );
    assert_eq!(
        new_emoji("mypngfile", b"x").unwrap(),
        "data:image/png;base64,eA=="
    );
}

#[test]
fn parse_emoji_reads_id_at_character_count_offset() {
    assert!(!parse_emoji_panics("<a:ééé5>:9>"));
    assert_eq!(
        parse_emoji("<a:ééé5>:9>"),
        Some(EmojiRef { animated: true, name: "ééé5>".to_string(), id: 5 })
    );
    assert!(!parse_emoji_panics("<a:ée:1>"));
    assert_eq!(parse_emoji("<a:ée:1>"), None);
    assert_eq!(
        parse_emoji("<:a:+7>"),
        Some(EmojiRef { animated: false, name: "a".to_string(), id: 7 })
    );
    assert_eq!(parse_emoji("<:abc>"), None);
    assert_eq!(parse_emoji("<:a:1>x>"), Some(EmojiRef { animated: false, name: "a".to_string(), id: 1 }));
}
