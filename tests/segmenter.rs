use vim_slides::segment::{split_to_slides, Slide};

fn titles(slides: &[Slide]) -> Vec<String> {
    slides.iter().map(|s| s.title.clone()).collect()
}

#[test]
fn new_slide_is_empty() {
    let s = Slide::new();
    assert_eq!(s.title, "");
    assert!(s.content.is_empty());
    assert!(s.comments.is_empty());
}

#[test]
fn two_slides_with_a_note() {
    let slides = split_to_slides("# Intro\nhello\n\n# Details\nworld\n<!-- remember X -->");
    assert_eq!(slides.len(), 2);
    assert_eq!(slides[0].title, "# Intro");
    assert_eq!(slides[0].content, vec!["hello".to_string(), "".to_string()]);
    assert!(slides[0].comments.is_empty());
    assert_eq!(slides[1].title, "# Details");
    assert_eq!(slides[1].content, vec!["world".to_string()]);
    assert_eq!(slides[1].comments, vec!["remember X".to_string()]);
}

#[test]
fn closed_comment_gives_its_inner_text() {
    let slides = split_to_slides("# A\n<!-- speaker note -->\n");
    assert_eq!(slides.len(), 1);
    assert_eq!(slides[0].comments, vec!["speaker note".to_string()]);
    assert!(slides[0].content.is_empty());
}

#[test]
fn unterminated_comment_gives_its_rest() {
    let slides = split_to_slides("# A\n<!-- unterminated\nnext");
    assert_eq!(slides[0].comments, vec!["unterminated".to_string()]);
    assert_eq!(slides[0].content, vec!["next".to_string()]);
}

#[test]
fn no_heading_no_slides() {
    assert!(split_to_slides("just text\nmore text\n<!-- note -->").is_empty());
}

#[test]
fn empty_input_no_slides() {
    assert!(split_to_slides("").is_empty());
    assert!(split_to_slides("\n\n").is_empty());
}

#[test]
fn leading_text_is_dropped() {
    let slides = split_to_slides("preamble\n<!-- early -->\n# One\nbody\n## Two");
    assert_eq!(titles(&slides), vec!["# One".to_string(), "## Two".to_string()]);
    assert_eq!(slides[0].content, vec!["body".to_string()]);
    assert!(slides[0].comments.is_empty());
}

#[test]
fn slide_count_is_heading_count() {
    let slides = split_to_slides("x\n# a\n  # b\ny\n#c\n\n<!-- n -->\n#d\n");
    assert_eq!(slides.len(), 4);
    assert_eq!(titles(&slides), vec!["# a", "# b", "#c", "#d"]);
}

#[test]
fn consecutive_headings_give_empty_content() {
    let slides = split_to_slides("# A\n# B\n");
    assert_eq!(slides.len(), 2);
    assert!(slides[0].content.is_empty());
    assert!(slides[1].content.is_empty());
}

#[test]
fn sections_of_equal_length() {
    let mut doc = String::new();
    for i in 0..5 {
        doc.push_str(&format!("# Slide {}\n", i));
        for j in 0..3 {
            doc.push_str(&format!("line {} {}\n", i, j));
        }
    }
    let slides = split_to_slides(&doc);
    assert_eq!(slides.len(), 5);
    for (i, s) in slides.iter().enumerate() {
        assert_eq!(s.title, format!("# Slide {}", i));
        assert_eq!(s.content.len(), 3);
        assert_eq!(s.content[2], format!("line {} 2", i));
    }
}

#[test]
fn content_keeps_indentation_and_drops_trailing_space() {
    let slides = split_to_slides("   # Title   \n    indented  \t\r\n\ttab\n");
    assert_eq!(slides[0].title, "# Title");
    assert_eq!(slides[0].content, vec!["    indented".to_string(), "\ttab".to_string()]);
}

#[test]
fn comment_markers_are_stripped_and_trimmed() {
    let slides = split_to_slides("# A\n  <!---->\n<!--x-->\n<!-- a --> b\n");
    assert_eq!(
        slides[0].comments,
        vec!["".to_string(), "x".to_string(), "a --> b".to_string()]
    );
}

#[test]
fn non_ascii_whitespace_is_trimmed() {
    let slides = split_to_slides("\u{3000}# Wide\u{a0}\nbody\u{2003}\n");
    assert_eq!(slides[0].title, "# Wide");
    assert_eq!(slides[0].content, vec!["body".to_string()]);
}
