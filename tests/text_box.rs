use embedded_text::alignment::HorizontalAlignment;
use embedded_text::parser::Token;
use embedded_text::rendering::line_iter::RenderElement;
use embedded_text::style::{
    FontExt, FontMetrics, HeightMode, TabSize, TextBoxStyle, TextBoxStyleBuilder, VerticalAlignment,
    VerticalOverdraw,
};
use embedded_text::text_box::{Rectangle, StyledTextBox};

fn font() -> FontMetrics {
    FontMetrics::new(6, 8)
}

fn boxed(text: &str, width: u32, height: u32, style: TextBoxStyle) -> StyledTextBox {
    StyledTextBox::new(text.to_string(), Rectangle { left: 0, top: 0, width, height }, style)
}

fn rows(b: &StyledTextBox) -> Vec<(i64, u32, u32)> {
    b.layout().lines.iter().map(|l| (l.y, l.rows_start, l.rows_end)).collect()
}

#[test]
fn default_style() {
    let style = TextBoxStyle::new(font());
    assert_eq!(style.alignment, HorizontalAlignment::Left);
    assert_eq!(style.vertical_alignment, VerticalAlignment::Top);
    assert_eq!(style.height_mode, HeightMode::Exact(VerticalOverdraw::FullRowsOnly));
    assert_eq!(style.tab_size, TabSize::Spaces(4));
    assert_eq!(style.tab_size.into_pixels(&style.font), 24);
    assert_eq!(TabSize::Pixels(7).into_pixels(&style.font), 7);
}

#[test]
fn top_aligned_lines() {
    let style = TextBoxStyleBuilder::new(font()).alignment(HorizontalAlignment::Justified).build();
    let b = boxed("word wrapping", 55, 55, style);
    assert_eq!(b.measure_text_height(), 16);
    assert_eq!(rows(&b), vec![(0, 0, 8), (8, 0, 8)]);
    let layout = b.layout();
    assert_eq!(layout.lines[0].elements[0].element, RenderElement::PrintedCharacters(0, 4));
    assert_eq!(layout.lines[1].elements[0].element, RenderElement::PrintedCharacters(5, 13));
}

#[test]
fn middle_and_bottom_alignment() {
    let middle = TextBoxStyle { vertical_alignment: VerticalAlignment::Middle, ..TextBoxStyle::new(font()) };
    assert_eq!(rows(&boxed("word wrapping", 55, 55, middle)), vec![(19, 0, 8), (27, 0, 8)]);
    let bottom = TextBoxStyle { vertical_alignment: VerticalAlignment::Bottom, ..TextBoxStyle::new(font()) };
    assert_eq!(rows(&boxed("word wrapping", 55, 55, bottom)), vec![(39, 0, 8), (47, 0, 8)]);
}

#[test]
fn scrolling_shows_the_tail() {
    let style = TextBoxStyle { vertical_alignment: VerticalAlignment::Scrolling, ..TextBoxStyle::new(font()) };
    assert_eq!(rows(&boxed("word wrapping", 55, 10, style)), vec![(-6, 0, 0), (2, 0, 8)]);
}

#[test]
fn height_modes() {
    let fit = TextBoxStyle { height_mode: HeightMode::FitToText, ..TextBoxStyle::new(font()) };
    assert_eq!(boxed("word wrapping", 55, 55, fit).layout().bounds.height, 16);
    assert_eq!(boxed("word wrapping", 55, 5, fit).layout().bounds.height, 16);

    let shrink = TextBoxStyle {
        height_mode: HeightMode::ShrinkToText(VerticalOverdraw::FullRowsOnly),
        ..TextBoxStyle::new(font())
    };
    assert_eq!(boxed("word wrapping", 55, 55, shrink).layout().bounds.height, 16);
    let small = boxed("word wrapping", 55, 10, shrink);
    assert_eq!(small.layout().bounds.height, 10);
    assert_eq!(rows(&small), vec![(0, 0, 8), (8, 0, 0)]);

    let visible = TextBoxStyle {
        height_mode: HeightMode::Exact(VerticalOverdraw::Visible),
        ..TextBoxStyle::new(font())
    };
    assert_eq!(rows(&boxed("word wrapping", 55, 10, visible)), vec![(0, 0, 8), (8, 0, 2)]);

    let hidden = TextBoxStyle {
        height_mode: HeightMode::Exact(VerticalOverdraw::Hidden),
        ..TextBoxStyle::new(font())
    };
    assert_eq!(rows(&boxed("word wrapping", 55, 10, hidden)), vec![(0, 0, 8), (8, 0, 8)]);
}

#[test]
fn paragraph_and_line_spacing() {
    let style = TextBoxStyle { line_spacing: 1, paragraph_spacing: 3, ..TextBoxStyle::new(font()) };
    let b = boxed("a\nb c", 12, 55, style);
    let layout = b.layout();
    let ys: Vec<i64> = layout.lines.iter().map(|l| l.y).collect();
    assert_eq!(ys, vec![0, 12, 21]);
    assert_eq!(layout.lines[0].carried_token, Some(Token::NewLine));
}

#[test]
fn carriage_return_stays_on_the_row() {
    let b = boxed("ab\rc", 60, 55, TextBoxStyle::new(font()));
    let layout = b.layout();
    let ys: Vec<i64> = layout.lines.iter().map(|l| l.y).collect();
    assert_eq!(ys, vec![0, 0]);
    assert_eq!(layout.lines[1].elements[0].x, 0);
    assert_eq!(layout.lines[1].elements[0].element, RenderElement::PrintedCharacters(3, 4));
}

#[test]
fn empty_text_has_no_lines() {
    let b = boxed("", 60, 55, TextBoxStyle::new(font()));
    assert_eq!(b.measure_text_height(), 0);
    assert!(b.layout().lines.is_empty());
}

#[test]
fn lines_below_the_box_are_not_laid_out() {
    let b = boxed("a b c d e", 6, 17, TextBoxStyle::new(font()));
    assert_eq!(rows(&b), vec![(0, 0, 8), (8, 0, 8), (16, 0, 0)]);
}

#[test]
fn test_max_space_width() {
    let f = font();
    assert_eq!((0, 0), f.max_space_width(0, 36));
    assert_eq!((36, 6), f.max_space_width(6, 36));
    assert_eq!((36, 6), f.max_space_width(6, 38));
    assert_eq!((36, 6), f.max_space_width(7, 36));
    assert_eq!(f.str_width_nocr(3), 18);
}

#[test]
fn builder_sets_each_field() {
    let style = TextBoxStyleBuilder::new(font())
        .alignment(HorizontalAlignment::Right)
        .vertical_alignment(VerticalAlignment::Bottom)
        .height_mode(HeightMode::FitToText)
        .line_spacing(2)
        .paragraph_spacing(5)
        .tab_size(TabSize::Pixels(10))
        .build();
    assert_eq!(
        style,
        TextBoxStyle {
            font: font(),
            alignment: HorizontalAlignment::Right,
            vertical_alignment: VerticalAlignment::Bottom,
            height_mode: HeightMode::FitToText,
            line_spacing: 2,
            tab_size: TabSize::Pixels(10),
            paragraph_spacing: 5,
            leading_spaces: false,
            trailing_spaces: false,
        }
    );
    let custom = TextBoxStyleBuilder::new(font())
        .alignment(HorizontalAlignment::Justified)
        .leading_spaces(true)
        .trailing_spaces(false)
        .build();
    assert!(custom.leading_spaces);
    assert!(!custom.trailing_spaces);
    assert_eq!(TextBoxStyleBuilder::new(font()).build(), TextBoxStyle::new(font()));
}

#[test]
fn layout_is_deterministic() {
    let style = TextBoxStyleBuilder::new(font()).alignment(HorizontalAlignment::Justified).build();
    let a = boxed("word and other word last line", 61, 55, style).layout();
    let b = boxed("word and other word last line", 61, 55, style).layout();
    assert_eq!(a.bounds, b.bounds);
    assert_eq!(a.lines.len(), 3);
    assert_eq!(a.lines.len(), b.lines.len());
    for (x, y) in a.lines.iter().zip(b.lines.iter()) {
        assert_eq!(x.y, y.y);
        assert_eq!(x.elements, y.elements);
        assert_eq!((x.rows_start, x.rows_end), (y.rows_start, y.rows_end));
    }
}

#[test]
fn leading_spaces_follow_the_style() {
    let keep = TextBoxStyleBuilder::new(font()).alignment(HorizontalAlignment::Right).leading_spaces(true).build();
    let layout = boxed("  ab", 60, 55, keep).layout();
    assert_eq!(layout.lines[0].elements.len(), 2);
    assert_eq!(layout.lines[0].elements[0].element, RenderElement::Space(12, 2));
    assert_eq!(layout.lines[0].elements[0].x, 36);
    let drop = TextBoxStyleBuilder::new(font()).alignment(HorizontalAlignment::Right).build();
    let layout = boxed("  ab", 60, 55, drop).layout();
    assert_eq!(layout.lines[0].elements.len(), 1);
    assert_eq!(layout.lines[0].elements[0].x, 48);
}

#[test]
fn lines_without_height_still_cover_the_text() {
    let flat = TextBoxStyle::new(FontMetrics::new(6, 0));
    let layout = boxed("a b c", 6, 10, flat).layout();
    let ys: Vec<i64> = layout.lines.iter().map(|l| l.y).collect();
    assert_eq!(ys, vec![0, 0, 0]);
    assert_eq!(layout.lines[2].elements[0].element, RenderElement::PrintedCharacters(4, 5));
}
