use prpr_client::decimal::{i32_to_decimal, u64_to_decimal};
use prpr_client::style::{clamp255, to_css, Align, BorderStyle, Cursor, Filter, Gradation, Rgba};

fn rgba(r: i32, g: i32, b: i32, alpha: &str) -> Rgba {
    Rgba { r, g, b, alpha: alpha.to_string() }
}

#[test]
fn border_style_values() {
    assert_eq!(BorderStyle::Solid.value(), "solid");
    assert_eq!(BorderStyle::Double.value(), "double");
    assert_eq!(BorderStyle::Hidden.value(), "hidden");
    assert_eq!(BorderStyle::Dashed.value(), "dashed");
}

#[test]
fn align_values() {
    assert_eq!(Align::Left.value(), "left");
    assert_eq!(Align::Right.value(), "right");
    assert_eq!(Align::Center.value(), "center");
}

#[test]
fn cursor_values() {
    assert_eq!(Cursor::Auto.value(), "auto");
    assert_eq!(Cursor::Default.value(), "default");
    assert_eq!(Cursor::Pointer.value(), "pointer");
    assert_eq!(Cursor::Wait.value(), "wait");
    assert_eq!(Cursor::Text.value(), "text");
    assert_eq!(Cursor::NotAllowed.value(), "not-allowed");
    assert_eq!(Cursor::Move.value(), "move");
    assert_eq!(Cursor::CrossHair.value(), "crosshair");
    assert_eq!(Cursor::ColResize.value(), "col-resize");
    assert_eq!(Cursor::RowResize.value(), "row-resize");
}

#[test]
fn cursor_values_are_distinct() {
    let all = [
        Cursor::Auto, Cursor::Default, Cursor::Pointer, Cursor::Wait, Cursor::Text,
        Cursor::NotAllowed, Cursor::Move, Cursor::CrossHair, Cursor::ColResize, Cursor::RowResize,
    ];
    for (i, a) in all.iter().enumerate() {
        for (j, b) in all.iter().enumerate() {
            assert_eq!(i == j, a.value() == b.value());
        }
    }
}

#[test]
fn decimal_rendering() {
    assert_eq!(u64_to_decimal(0), "0");
    assert_eq!(u64_to_decimal(7), "7");
    assert_eq!(u64_to_decimal(10), "10");
    assert_eq!(u64_to_decimal(199), "199");
    assert_eq!(u64_to_decimal(1000), "1000");
    assert_eq!(u64_to_decimal(u64::MAX), u64::MAX.to_string());
    assert_eq!(i32_to_decimal(0), "0");
    assert_eq!(i32_to_decimal(-45), "-45");
    assert_eq!(i32_to_decimal(i32::MIN), i32::MIN.to_string());
    assert_eq!(i32_to_decimal(i32::MAX), i32::MAX.to_string());
}

#[test]
fn clamp255_holds_channels_in_range() {
    assert_eq!(clamp255(-1), 0);
    assert_eq!(clamp255(i32::MIN), 0);
    assert_eq!(clamp255(0), 0);
    assert_eq!(clamp255(128), 128);
    assert_eq!(clamp255(255), 255);
    assert_eq!(clamp255(256), 255);
    assert_eq!(clamp255(i32::MAX), 255);
}

#[test]
fn to_css_writes_rgba() {
    assert_eq!(to_css(&rgba(255, 0, 127, "1.0000")), "rgba(255,0,127,1.0000)");
    assert_eq!(to_css(&rgba(300, -20, 12, "0.5000")), "rgba(255,0,12,0.5000)");
    assert_eq!(to_css(&rgba(0, 0, 0, "0.0000")), "rgba(0,0,0,0.0000)");
}

#[test]
fn linear_gradation_css() {
    let g = Gradation::Linear(45, vec![rgba(255, 0, 0, "1.0000"), rgba(0, 0, 255, "0.5000")]);
    assert_eq!(
        g.to_css(),
        "linear-gradient(45deg , rgba(255,0,0,1.0000), rgba(0,0,255,0.5000))"
    );
    let g = Gradation::Linear(-90, vec![]);
    assert_eq!(g.to_css(), "linear-gradient(-90deg )");
}

#[test]
fn radial_gradation_css() {
    let g = Gradation::Radial(
        true,
        "50.00".to_string(),
        "25.00".to_string(),
        vec![rgba(10, 20, 30, "1.0000")],
    );
    assert_eq!(
        g.to_css(),
        "radial-gradient(circle at 50.00% 25.00%, , rgba(10,20,30,1.0000))"
    );
    let g = Gradation::Radial(false, "0.00".to_string(), "100.00".to_string(), vec![]);
    assert_eq!(g.to_css(), "radial-gradient(ellipse at 0.00% 100.00%, )");
}

#[test]
fn filter_values() {
    let s = |t: &str| t.to_string();
    assert_eq!(Filter::Blur(s("5px")).value(), "blur(5px)");
    assert_eq!(Filter::Brightness(s("1.0000")).value(), "brightness(1.0000)");
    assert_eq!(Filter::Contrast(s("0.5000")).value(), "contrast(0.5000)");
    assert_eq!(Filter::GrayScale(s("0.0000")).value(), "grayscale(0.0000)");
    assert_eq!(Filter::HueRotate(s("90.0000")).value(), "hue-rotate(90.0000deg)");
    assert_eq!(Filter::Invert(s("0.2500")).value(), "invert(0.2500)");
    assert_eq!(Filter::Opacity(s("0.7500")).value(), "opacity(0.7500)");
    assert_eq!(Filter::Saturate(s("2.0000")).value(), "saturate(2.0000)");
    assert_eq!(Filter::Sepia(s("1.0000")).value(), "sepia(1.0000)");
    assert_eq!(
        Filter::DropShadow(s("1px"), s("2px"), s("3px"), rgba(0, 0, 0, "0.5000")).value(),
        "drop-shadow(1px 2px 3px rgba(0,0,0,0.5000) "
    );
}
