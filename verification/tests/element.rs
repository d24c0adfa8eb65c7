use prpr_client::element::StyleWrites;
use prpr_client::style::{Align, BorderStyle, Cursor, Filter, Gradation, Rgba};

fn rgba(r: i32, g: i32, b: i32, alpha: &str) -> Rgba {
    Rgba { r, g, b, alpha: alpha.to_string() }
}

fn pairs(w: &StyleWrites) -> Vec<(&str, &str)> {
    w.writes.iter().map(|(k, v)| (k.as_str(), v.as_str())).collect()
}

/// The value a property holds after the writes: that of the last write to it.
fn value_of<'a>(w: &'a StyleWrites, key: &str) -> Option<&'a str> {
    w.writes.iter().rev().find(|(k, _)| k == key).map(|(_, v)| v.as_str())
}

#[test]
fn set_by_name_impl_appends_one_write() {
    let mut w = StyleWrites::new();
    assert!(w.writes.is_empty());
    w.set_by_name_impl("width", "10px");
    w.set_by_name_impl("height", "20px");
    assert_eq!(pairs(&w), vec![("width", "10px"), ("height", "20px")]);
}

#[test]
fn read_after_write_gives_last_value() {
    let mut w = StyleWrites::new();
    w.set_by_name_impl("width", "10px");
    w.set_by_name_impl("height", "20px");
    w.set_by_name_impl("width", "30px");
    assert_eq!(value_of(&w, "width"), Some("30px"));
    assert_eq!(value_of(&w, "height"), Some("20px"));
    assert_eq!(value_of(&w, "color"), None);
}

#[test]
fn set_cursor_writes_keyword() {
    let mut w = StyleWrites::new();
    w.set_cursor(Cursor::NotAllowed);
    assert_eq!(pairs(&w), vec![("cursor", "not-allowed")]);
}

#[test]
fn set_filter_empty_is_none() {
    let mut w = StyleWrites::new();
    w.set_filter(&vec![]);
    assert_eq!(pairs(&w), vec![("filter", "none")]);
}

#[test]
fn set_filter_joins_with_spaces() {
    let mut w = StyleWrites::new();
    w.set_filter(&vec![Filter::Blur("5px".to_string())]);
    w.set_filter_impl(&vec![
        Filter::Blur("5px".to_string()),
        Filter::Sepia("1.0000".to_string()),
        Filter::HueRotate("30.0000".to_string()),
    ]);
    assert_eq!(
        pairs(&w),
        vec![
            ("filter", "blur(5px)"),
            ("filter", "blur(5px) sepia(1.0000) hue-rotate(30.0000deg)"),
        ]
    );
}

#[test]
fn color_and_shadow_impl() {
    let mut w = StyleWrites::new();
    w.set_color_impl("outline-color", &rgba(1, 2, 3, "1.0000"));
    w.set_shadow_impl("box-shadow", "1px", "-2px", "3px", &rgba(0, 0, 0, "0.2500"));
    assert_eq!(
        pairs(&w),
        vec![
            ("outline-color", "rgba(1,2,3,1.0000)"),
            ("box-shadow", "1px -2px 3px rgba(0,0,0,0.2500)"),
        ]
    );
}

#[test]
fn text_setters() {
    let mut w = StyleWrites::new();
    w.set_text_color(&rgba(255, 255, 255, "1.0000"));
    w.set_text_shadow("1px", "1px", "2px", &rgba(0, 0, 0, "1.0000"));
    w.set_text_size("20px");
    w.set_text_line_height("30px");
    w.set_text_letter_spacing("2px");
    w.set_text_bold(true);
    w.set_text_bold(false);
    w.set_text_italic(true);
    w.set_text_italic(false);
    assert_eq!(
        pairs(&w),
        vec![
            ("color", "rgba(255,255,255,1.0000)"),
            ("text-shadow", "1px 1px 2px rgba(0,0,0,1.0000)"),
            ("font-size", "20px"),
            ("line-height", "30px"),
            ("letter-spacing", "2px"),
            ("font-weight", "bold"),
            ("font-weight", "normal"),
            ("font-style", "italic"),
            ("font-style", "normal"),
        ]
    );
}

#[test]
fn set_padding_sets_every_side() {
    let mut w = StyleWrites::new();
    w.set_padding("10px");
    assert_eq!(
        pairs(&w),
        vec![
            ("padding-left", "10px"),
            ("padding-right", "10px"),
            ("padding-top", "10px"),
            ("padding-bottom", "10px"),
        ]
    );
    w.set_padding_top("5px");
    assert_eq!(value_of(&w, "padding-top"), Some("5px"));
    assert_eq!(value_of(&w, "padding-left"), Some("10px"));
}

#[test]
fn border_setters_set_every_side() {
    let mut w = StyleWrites::new();
    w.set_border_color(&rgba(9, 8, 7, "1.0000"));
    w.set_border_width("2px");
    w.set_border_style(BorderStyle::Dashed);
    w.set_border_radius("4px");
    assert_eq!(
        pairs(&w),
        vec![
            ("border-left-color", "rgba(9,8,7,1.0000)"),
            ("border-right-color", "rgba(9,8,7,1.0000)"),
            ("border-bottom-color", "rgba(9,8,7,1.0000)"),
            ("border-top-color", "rgba(9,8,7,1.0000)"),
            ("border-left-width", "2px"),
            ("border-right-width", "2px"),
            ("border-bottom-width", "2px"),
            ("border-top-width", "2px"),
            ("border-left-style", "dashed"),
            ("border-right-style", "dashed"),
            ("border-bottom-style", "dashed"),
            ("border-top-style", "dashed"),
            ("border-radius", "4px"),
        ]
    );
}

#[test]
fn single_side_setters() {
    let mut w = StyleWrites::new();
    w.set_padding_left("1px");
    w.set_padding_right("2px");
    w.set_padding_top("3px");
    w.set_padding_bottom("4px");
    w.set_border_left_color(&rgba(1, 1, 1, "1.0000"));
    w.set_border_left_width("5px");
    w.set_border_left_style(BorderStyle::Solid);
    w.set_border_right_color(&rgba(2, 2, 2, "1.0000"));
    w.set_border_right_width("6px");
    w.set_border_right_style(BorderStyle::Double);
    w.set_border_top_color(&rgba(3, 3, 3, "1.0000"));
    w.set_border_top_width("7px");
    w.set_border_top_style(BorderStyle::Hidden);
    w.set_border_bottom_color(&rgba(4, 4, 4, "1.0000"));
    w.set_border_bottom_width("8px");
    w.set_border_bottom_style(BorderStyle::Dashed);
    assert_eq!(
        pairs(&w),
        vec![
            ("padding-left", "1px"),
            ("padding-right", "2px"),
            ("padding-top", "3px"),
            ("padding-bottom", "4px"),
            ("border-left-color", "rgba(1,1,1,1.0000)"),
            ("border-left-width", "5px"),
            ("border-left-style", "solid"),
            ("border-right-color", "rgba(2,2,2,1.0000)"),
            ("border-right-width", "6px"),
            ("border-right-style", "double"),
            ("border-top-color", "rgba(3,3,3,1.0000)"),
            ("border-top-width", "7px"),
            ("border-top-style", "hidden"),
            ("border-bottom-color", "rgba(4,4,4,1.0000)"),
            ("border-bottom-width", "8px"),
            ("border-bottom-style", "dashed"),
        ]
    );
}

#[test]
fn container_setters() {
    let mut w = StyleWrites::new();
    w.set_align(Align::Center);
    w.set_background_color(&rgba(0, 128, 0, "0.5000"));
    w.set_background_gradation(&Gradation::Linear(
        90,
        vec![rgba(0, 0, 0, "1.0000"), rgba(255, 255, 255, "1.0000")],
    ));
    w.set_background_shadow("0px", "4px", "8px", &rgba(0, 0, 0, "0.3000"));
    assert_eq!(
        pairs(&w),
        vec![
            ("text-align", "center"),
            ("background-color", "rgba(0,128,0,0.5000)"),
            (
                "background",
                "linear-gradient(90deg , rgba(0,0,0,1.0000), rgba(255,255,255,1.0000))"
            ),
            ("box-shadow", "0px 4px 8px rgba(0,0,0,0.3000)"),
        ]
    );
}

#[test]
fn background_textclip_writes() {
    let mut w = StyleWrites::new();
    w.set_text_color(&rgba(255, 0, 0, "1.0000"));
    w.set_background_textclip();
    assert_eq!(
        pairs(&w)[1..].to_vec(),
        vec![
            ("background-clip", "text"),
            ("-webkit-background-clip", "text"),
            ("color", "transparent"),
            ("text-shadow", "none"),
        ]
    );
    assert_eq!(value_of(&w, "color"), Some("transparent"));
}
