//! The markup of notification bodies: tags become formatted spans of the plain text.
use noti::markup::{Entity, EntityKind, Text};


#[test]
fn text_not_tag() {
    let input = String::from("Normal equation: 1 < 2");
    let text = Text::parse(input.clone());
    assert_eq!(
        text,
        Text {
            body: input,
            entities: vec![]
        }
    )
}

#[test]
fn text_with_emoji() {
    let input = String::from("<b>coffee ☕️</b>");
    let text = Text::parse(input);
    assert_eq!(
        text,
        Text {
            body: String::from("coffee ☕️"),
            entities: vec![Entity {
                offset: 0,
                offset_in_byte: 0,
                length: 8,
                length_in_byte: 13,
                kind: EntityKind::Bold
            }]
        }
    )
}

#[test]
fn text() {
    let input = String::from("hello world!!!");
    let text = Text::parse(input.clone());
    assert_eq!(
        text,
        Text {
            body: input,
            entities: vec![],
        }
    );
}

#[test]
fn text_with_tags() {
    let input = String::from("test<b>text</b> <i>parsing</i><u>!!!</u>");
    println!("input: {input}");
    let text = Text::parse(input);
    assert_eq!(
        text,
        Text {
            body: String::from("testtext parsing!!!"),
            entities: vec![
                Entity {
                    offset: 4,
                    offset_in_byte: 4,
                    length: 4,
                    length_in_byte: 4,
                    kind: EntityKind::Bold,
                },
                Entity {
                    offset: 9,
                    offset_in_byte: 9,
                    length: 7,
                    length_in_byte: 7,
                    kind: EntityKind::Italic,
                },
                Entity {
                    offset: 16,
                    offset_in_byte: 16,
                    length: 3,
                    length_in_byte: 3,
                    kind: EntityKind::Underline,
                },
            ],
        }
    );
}

#[test]
fn text_with_unclosed_tag() {
    let input = String::from("hello <b>world!!!");
    let text = Text::parse(input);
    assert_eq!(
        text,
        Text {
            body: String::from("hello world!!!"),
            entities: vec![Entity {
                offset: 6,
                offset_in_byte: 6,
                length: 8,
                length_in_byte: 8,
                kind: EntityKind::Bold,
            }],
        }
    );
}

#[test]
fn text_with_multiple_unclosed_tags() {
    let input = String::from("<i>hello <b>world!!!");
    let text = Text::parse(input);
    assert_eq!(
        text,
        Text {
            body: String::from("hello world!!!"),
            entities: vec![
                Entity {
                    offset: 0,
                    offset_in_byte: 0,
                    length: 14,
                    length_in_byte: 14,
                    kind: EntityKind::Italic,
                },
                Entity {
                    offset: 6,
                    offset_in_byte: 6,
                    length: 8,
                    length_in_byte: 8,
                    kind: EntityKind::Bold,
                },
            ],
        }
    );
}

#[test]
fn text_with_unmatched_tags() {
    let input = String::from("<i>hello</b>");
    let text = Text::parse(input);
    assert_eq!(
        text,
        Text {
            body: String::from("hello"),
            entities: vec![Entity {
                offset: 0,
                offset_in_byte: 0,
                length: 5,
                length_in_byte: 5,
                kind: EntityKind::Italic,
            },],
        }
    );
}

#[test]
fn text_with_unmatched_tags2() {
    let input = String::from("hello<i> <b>");
    let text = Text::parse(input);
    assert_eq!(
        text,
        Text {
            body: String::from("hello"),
            entities: vec![],
        }
    );
}

#[test]
fn text_with_nested_tags() {
    let input = String::from("hello <b>wo<i>rld</i></b>!!!");
    let text = Text::parse(input);
    assert_eq!(
        text,
        Text {
            body: String::from("hello world!!!"),
            entities: vec![
                Entity {
                    offset: 6,
                    offset_in_byte: 6,
                    length: 5,
                    length_in_byte: 5,
                    kind: EntityKind::Bold,
                },
                Entity {
                    offset: 8,
                    offset_in_byte: 8,
                    length: 3,
                    length_in_byte: 3,
                    kind: EntityKind::Italic,
                },
            ],
        }
    );
}

#[test]
fn text_with_link() {
    let input = String::from("hello <a href=\"link.com\">click</a>!!!");
    let text = Text::parse(input);
    assert_eq!(
        text,
        Text {
            body: String::from("hello click!!!"),
            entities: vec![Entity {
                offset: 6,
                offset_in_byte: 6,
                length: 5,
                length_in_byte: 5,
                kind: EntityKind::Link {
                    href: Some("link.com".to_string())
                },
            },],
        }
    )
}

#[test]
fn text_with_link_without_href() {
    let input = String::from("<a>link</a>");
    let text = Text::parse(input);
    assert_eq!(
        text,
        Text {
            body: String::from("link"),
            entities: vec![Entity {
                offset: 0,
                offset_in_byte: 0,
                length: 4,
                length_in_byte: 4,
                kind: EntityKind::Link { href: None },
            },],
        }
    )
}

#[test]
fn text_with_img() {
    let input = String::from("image:<img src=\"/path/to/image.png\"/>");
    let text = Text::parse(input);
    assert_eq!(
        text,
        Text {
            body: String::from("image:"),
            entities: vec![Entity {
                offset: 6,
                offset_in_byte: 6,
                length: 0,
                length_in_byte: 0,
                kind: EntityKind::Image {
                    src: Some("/path/to/image.png".to_string()),
                    alt: None
                },
            },],
        }
    )
}

#[test]
fn text_with_img_2() {
    let input = String::from("<img src=\"/path/to/image.png\"/> some text");
    let text = Text::parse(input);
    assert_eq!(
        text,
        Text {
            body: String::from("some text"),
            entities: vec![Entity {
                offset: 0,
                offset_in_byte: 0,
                length: 0,
                length_in_byte: 0,
                kind: EntityKind::Image {
                    src: Some("/path/to/image.png".to_string()),
                    alt: None
                },
            },],
        }
    )
}

#[test]
fn text_with_img_with_alt() {
    let input =
        String::from("image: <img src=\"/path/to/image.png\" alt=\"some cool image\"/>!!!");
    let text = Text::parse(input);
    assert_eq!(
        text,
        Text {
            body: String::from("image: !!!"),
            entities: vec![Entity {
                offset: 7,
                offset_in_byte: 7,
                length: 0,
                length_in_byte: 0,
                kind: EntityKind::Image {
                    src: Some("/path/to/image.png".to_string()),
                    alt: Some("some cool image".to_string()),
                },
            },],
        }
    )
}

#[test]
fn text_with_stupid_tags() {
    let input = String::from("<b><i> hi </b></i>");
    let text = Text::parse(input);
    assert_eq!(
        text,
        Text {
            body: String::from("hi"),
            entities: vec![
                Entity {
                    offset: 0,
                    offset_in_byte: 0,
                    length: 4,
                    length_in_byte: 4,
                    kind: EntityKind::Italic
                },
                Entity {
                    offset: 0,
                    offset_in_byte: 0,
                    length: 4,
                    length_in_byte: 4,
                    kind: EntityKind::Bold
                },
            ],
        }
    )
}

#[test]
fn text_with_empty_tags() {
    let input = String::from("test<b></b> <i> </i> <u>         </u>");
    let text = Text::parse(input);
    assert_eq!(
        text,
        Text {
            body: String::from("test"),
            entities: vec![],
        }
    )
}

#[test]
fn text_with_empty_tags2() {
    let input = String::from("test<b>  <i> <u>      </u> </i> </b>");
    let text = Text::parse(input);
    assert_eq!(
        text,
        Text {
            body: String::from("test"),
            entities: vec![],
        }
    )
}

#[test]
fn text_with_spaces() {
    let input = String::from("test       asdasd");
    let text = Text::parse(input);
    assert_eq!(
        text,
        Text {
            body: String::from("test       asdasd"),
            entities: vec![],
        }
    )
}

#[test]
fn text_with_html_symbol() {
    let input = String::from("<b>hello&quot;</b>");
    let text = Text::parse(input);
    assert_eq!(
        text,
        Text {
            body: String::from("hello\""),
            entities: vec![Entity {
                offset: 0,
                offset_in_byte: 0,
                length: 6,
                length_in_byte: 6,
                kind: EntityKind::Bold
            }]
        }
    )
}

#[test]
fn text_with_chained_html_symbols() {
    let input = String::from("<b>hello&amp;quot;</b>");
    let text = Text::parse(input);
    assert_eq!(
        text,
        Text {
            body: String::from("hello&quot;"),
            entities: vec![Entity {
                offset: 0,
                offset_in_byte: 0,
                length: 11,
                length_in_byte: 11,
                kind: EntityKind::Bold
            }]
        }
    )
}

#[test]
fn text_with_escaped_slash() {
    let input = String::from("hello<&#47;b>");
    let text = Text::parse(input);
    assert_eq!(
        text,
        Text {
            body: String::from("hello</b>"),
            entities: vec![]
        }
    )
}

#[test]
fn text_with_lt_and_gt_html_escapes() {
    let input = String::from("<b>&lt;i&gt;penis&lt;/i&gt;</b>");
    let text = Text::parse(input);
    assert_eq!(
        text,
        Text {
            body: String::from("<i>penis</i>"),
            entities: vec![Entity {
                offset: 0,
                offset_in_byte: 0,
                length: 12,
                length_in_byte: 12,
                kind: EntityKind::Bold
            }]
        }
    )
}
