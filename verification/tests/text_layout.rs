//! Text laid out in lines: words, wrapping, and the ellipsis where the text does not fit.
use noti::layout::RectSize;
use noti::text_layout::{
    convert_to_words, EllipsizeAt, Glyph, LineRect, TextJustification, TextRect, WordRect,
};

fn glyph(ch: char) -> Glyph {
    Glyph { ch, advance_width: 10, is_empty: ch == ' ' }
}

fn glyphs(text: &str) -> Vec<Glyph> {
    text.chars().map(glyph).collect()
}

fn word_text(w: &WordRect) -> String {
    w.glyphs.iter().map(|g| g.ch).collect()
}

fn line_text(l: &LineRect) -> Vec<String> {
    l.words.iter().map(word_text).collect()
}

fn text(content: &str, at: EllipsizeAt) -> TextRect {
    TextRect::from_glyphs(&glyphs(content), 5, 20, glyph('~'), at, TextJustification::Left)
}

#[test]
fn glyphs_are_grouped_into_words() {
    let words = convert_to_words(&glyphs("  ab cd   e "));
    let texts: Vec<String> = words.iter().map(word_text).collect();
    assert_eq!(texts, vec!["ab", "cd", "e"]);
    assert_eq!(words[0].width(), 20);
    assert!(convert_to_words(&glyphs("   ")).is_empty());
}

#[test]
fn words_wrap_into_lines() {
    let mut t = text("ab cd ef", EllipsizeAt::End);
    t.compile(RectSize::new(50, 40));
    assert_eq!(t.width(), 50);
    assert_eq!(t.lines.len(), 2);
    assert_eq!(line_text(&t.lines[0]), vec!["ab", "cd"]);
    assert_eq!(t.lines[0].available_space, 5);
    assert_eq!(t.lines[0].y_offset, 0);
    assert_eq!(line_text(&t.lines[1]), vec!["ef"]);
    assert_eq!(t.lines[1].available_space, 30);
    assert_eq!(t.lines[1].y_offset, 20);
    assert!(t.words.is_empty());
    assert_eq!(t.height(), 40);
    assert!(!t.is_empty());
}

#[test]
fn ellipsis_at_the_end_of_the_last_line() {
    let mut t = text("ab cd ef", EllipsizeAt::End);
    t.compile(RectSize::new(50, 20));
    assert_eq!(t.lines.len(), 1);
    assert_eq!(line_text(&t.lines[0]), vec!["ab~"]);
    assert_eq!(t.lines[0].available_space, 20);
}

#[test]
fn ellipsis_in_the_middle_shortens_a_word() {
    let mut t = text("ab cd ef", EllipsizeAt::Middle);
    t.compile(RectSize::new(50, 20));
    assert_eq!(t.lines.len(), 1);
    assert_eq!(line_text(&t.lines[0]), vec!["ab", "c~"]);
    assert_eq!(t.lines[0].available_space, 5);
}

#[test]
fn text_without_wrapping_takes_one_line() {
    let mut t = text("ab cd ef", EllipsizeAt::End);
    t.wrap = false;
    t.compile(RectSize::new(50, 40));
    assert_eq!(t.lines.len(), 1);
    assert_eq!(line_text(&t.lines[0]), vec!["ab~"]);
}

#[test]
fn margins_take_room_from_the_text() {
    let mut t = text("ab cd", EllipsizeAt::End);
    t.margin.left = 10;
    t.margin.top = 3;
    t.compile(RectSize::new(50, 23));
    assert_eq!(line_text(&t.lines[0]), vec!["ab~"]);
    assert_eq!(t.lines[0].available_space, 10);
    assert!(t.words.is_empty());
    assert_eq!(t.height(), 23);
}

#[test]
fn nothing_is_laid_out_where_no_line_fits() {
    let mut t = text("ab", EllipsizeAt::End);
    t.compile(RectSize::new(50, 10));
    assert!(t.lines.is_empty());
    assert!(t.is_empty());
    assert_eq!(t.height(), 0);
}

#[test]
fn lines_take_and_give_back_words() {
    let mut line = LineRect::new(0, 30, 5, TextJustification::Left);
    line.push_word(WordRect::from_glyphs(glyphs("ab")));
    line.push_word(WordRect::from_glyphs(glyphs("cd")));
    assert_eq!(line.available_space, -15);
    assert!(line.is_overflow());
    let last = line.pop_word().unwrap();
    assert_eq!(word_text(&last), "cd");
    assert_eq!(line.available_space, 10);
    assert_eq!(line.blank_space(), 10);
    assert_eq!(line.len(), 1);
}

#[test]
fn popping_a_word_undoes_pushing_it() {
    let mut line = LineRect::new(0, 100, 5, TextJustification::Left);
    line.push_word(WordRect::from_glyphs(glyphs("ab")));
    let before = line.available_space;
    let w = WordRect::from_glyphs(glyphs("cd"));
    line.push_word(w.clone());
    assert_eq!(line.available_space, before - 25);
    assert_eq!(line.pop_word(), Some(w));
    assert_eq!(line.available_space, before);
    assert_eq!(line.len(), 1);
    assert_eq!(line.pop_word().map(|w| word_text(&w)), Some("ab".to_string()));
    assert_eq!(line.available_space, 100);
    assert_eq!(line.pop_word(), None);
    assert_eq!(line.available_space, 100);
}

#[test]
fn popping_a_glyph_undoes_pushing_it() {
    let mut w = WordRect::from_glyphs(glyphs("ab"));
    w.push_glyph(glyph('c'));
    assert_eq!(w.width(), 30);
    assert_eq!(w.pop_glyph(), Some(glyph('c')));
    assert_eq!(w.width(), 20);
    assert_eq!(word_text(&w), "ab");
    let mut blank = WordRect::new_empty();
    assert_eq!(blank.pop_glyph(), None);
    assert!(blank.is_blank());
    assert_eq!(blank.width(), 0);
}
