use starboard::text::{first_image_url, truncate_with_ellipsis};
use starboard::view::{
    build_summary, select_image, tier_color, Attachment, Embed, ImageChoice, ReplyContext,
    SourceMessage, TIER_ONE_COLOR, TIER_THREE_COLOR, TIER_TWO_COLOR,
};

fn message() -> SourceMessage {
    SourceMessage {
        id: 12345,
        channel_id: 2,
        guild_id: 1,
        author_id: 77,
        author_name: String::from("alice"),
        content: String::from("hello world"),
        attachments: Vec::new(),
        embeds: Vec::new(),
        reply: None,
        timestamp: 1700000000,
    }
}

#[test]
fn tier_colors_for_threshold_five() {
    assert_eq!(tier_color(7, 5), TIER_ONE_COLOR);
    assert_eq!(tier_color(12, 5), TIER_TWO_COLOR);
    assert_eq!(tier_color(20, 5), TIER_THREE_COLOR);
}

#[test]
fn tier_boundaries_switch_at_two_and_three_times() {
    assert_eq!(tier_color(9, 5), TIER_ONE_COLOR);
    assert_eq!(tier_color(10, 5), TIER_TWO_COLOR);
    assert_eq!(tier_color(14, 5), TIER_TWO_COLOR);
    assert_eq!(tier_color(15, 5), TIER_THREE_COLOR);
}

#[test]
fn attachment_image_beats_text_url() {
    let mut m = message();
    m.content = String::from("see https://example.com/pic.jpg here");
    m.attachments.push(Attachment {
        url: String::from("https://cdn.example.com/shot.png"),
        content_type: Some(String::from("image/png")),
    });
    match select_image(&m) {
        ImageChoice::FromAttachment { url } => {
            assert_eq!(url, "https://cdn.example.com/shot.png");
        }
        other => panic!("expected the attachment image, got {:?}", other),
    }
}

#[test]
fn text_url_found_case_insensitively() {
    let mut m = message();
    m.content = String::from("look https://example.com/a.PNG wow");
    match select_image(&m) {
        ImageChoice::FromText { url } => {
            assert_eq!(url, "https://example.com/a.PNG");
        }
        other => panic!("expected the text link, got {:?}", other),
    }
}

#[test]
fn non_image_attachment_falls_back_to_text_url() {
    let mut m = message();
    m.content = String::from("https://example.com/b.gif");
    m.attachments.push(Attachment {
        url: String::from("https://cdn.example.com/notes.pdf"),
        content_type: Some(String::from("application/pdf")),
    });
    match select_image(&m) {
        ImageChoice::FromText { url } => {
            assert_eq!(url, "https://example.com/b.gif");
        }
        other => panic!("expected the text link, got {:?}", other),
    }
}

#[test]
fn embed_image_is_last_resort() {
    let mut m = message();
    m.embeds.push(Embed { image_url: None });
    m.embeds.push(Embed {
        image_url: Some(String::from("https://img.example.com/e.png")),
    });
    match select_image(&m) {
        ImageChoice::FromEmbed { url } => {
            assert_eq!(url, "https://img.example.com/e.png");
        }
        other => panic!("expected the embed image, got {:?}", other),
    }
}

#[test]
fn no_image_anywhere() {
    let m = message();
    assert!(matches!(select_image(&m), ImageChoice::NoImage));
}

#[test]
fn first_image_url_skips_plain_links() {
    let r = first_image_url("read https://example.com/doc.html then https://example.com/x.jpeg ok");
    assert_eq!(r.unwrap(), "https://example.com/x.jpeg");
}

#[test]
fn first_image_url_requires_a_link() {
    assert!(first_image_url("just picture.jpg on disk").is_none());
}

#[test]
fn reply_of_600_chars_truncates_to_524_plus_ellipsis() {
    let long = "x".repeat(600);
    let mut m = message();
    m.reply = Some(ReplyContext {
        author_name: String::from("bob"),
        content: long.clone(),
    });
    let v = build_summary(&m, &String::from("\u{2b50}"), 7, 5);
    let f = v.reply_field.unwrap();
    assert_eq!(f.title, "In reply to bob's message");
    let mut expected = "x".repeat(524);
    expected.push_str("...");
    assert_eq!(f.body, expected);
    assert_eq!(f.body.chars().count(), 527);
}

#[test]
fn reply_without_text_gets_placeholder() {
    let mut m = message();
    m.reply = Some(ReplyContext {
        author_name: String::from("bob"),
        content: String::new(),
    });
    let v = build_summary(&m, &String::from("\u{2b50}"), 7, 5);
    assert_eq!(v.reply_field.unwrap().body, "*[no text content]*");
}

#[test]
fn truncation_keeps_text_at_the_limit() {
    let exact = "y".repeat(524);
    assert_eq!(truncate_with_ellipsis(&exact, 524), exact);
    let over = "y".repeat(525);
    let out = truncate_with_ellipsis(&over, 524);
    assert_eq!(out.chars().count(), 527);
    assert!(out.ends_with("..."));
}

#[test]
fn summary_footer_and_link_render_exactly() {
    let m = message();
    let v = build_summary(&m, &String::from("\u{2b50}"), 7, 5);
    assert_eq!(v.footer, "\u{2b50} 7 \u{2022} 12345");
    assert_eq!(v.content, "https://discord.com/channels/1/2/12345");
    assert_eq!(v.description, "hello world");
    assert_eq!(v.author_name, "alice");
    assert_eq!(v.timestamp, 1700000000);
    assert_eq!(v.color, TIER_ONE_COLOR);
    assert!(v.reply_field.is_none());
    assert!(v.attachment_list.is_none());
}

#[test]
fn attachments_without_image_are_listed() {
    let mut m = message();
    m.attachments.push(Attachment {
        url: String::from("https://cdn.example.com/a.pdf"),
        content_type: Some(String::from("application/pdf")),
    });
    m.attachments.push(Attachment {
        url: String::from("https://cdn.example.com/b.zip"),
        content_type: None,
    });
    let v = build_summary(&m, &String::from("\u{2b50}"), 7, 5);
    assert_eq!(
        v.attachment_list.unwrap(),
        "https://cdn.example.com/a.pdf\nhttps://cdn.example.com/b.zip"
    );
}

#[test]
fn image_attachment_suppresses_listing() {
    let mut m = message();
    m.attachments.push(Attachment {
        url: String::from("https://cdn.example.com/shot.png"),
        content_type: Some(String::from("image/png")),
    });
    let v = build_summary(&m, &String::from("\u{2b50}"), 7, 5);
    assert!(v.attachment_list.is_none());
    assert!(matches!(v.image, ImageChoice::FromAttachment { .. }));
}
