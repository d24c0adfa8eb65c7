//! CSS values for an element's inline style: keywords, colours, gradients, filters,
//! and the property writes that each styling operation makes.
use vstd::prelude::*;
use crate::decimal::{
    decimal, lemma_signed_decimal_injective, i32_to_decimal, is_digit, lemma_decimal_digits, lemma_decimal_injective, signed_decimal,
};

verus! {

/// Line style of a border.
#[derive(Clone, Copy)]
pub enum BorderStyle {
    Solid,
    Double,
    Hidden,
    Dashed,
}

impl BorderStyle {
    /// The CSS keyword of this border style.
    pub open spec fn keyword(self) -> Seq<char> {
        match self {
            BorderStyle::Solid => "solid"@,
            BorderStyle::Double => "double"@,
            BorderStyle::Hidden => "hidden"@,
            BorderStyle::Dashed => "dashed"@,
        }
    }

    /// The CSS keyword of this border style.
    pub fn value(&self) -> (s: &'static str)
        ensures
            s@ == self.keyword(),
    {
        match self {
            BorderStyle::Solid => "solid",
            BorderStyle::Double => "double",
            BorderStyle::Hidden => "hidden",
            BorderStyle::Dashed => "dashed",
        }
    }
}

/// Horizontal alignment of text.
#[derive(Clone, Copy)]
pub enum Align {
    Left,
    Right,
    Center,
}

impl Align {
    /// The CSS keyword of this alignment.
    pub open spec fn keyword(self) -> Seq<char> {
        match self {
            Align::Left => "left"@,
            Align::Right => "right"@,
            Align::Center => "center"@,
        }
    }

    /// The CSS keyword of this alignment.
    pub fn value(&self) -> (s: &'static str)
        ensures
            s@ == self.keyword(),
    {
        match self {
            Align::Left => "left",
            Align::Right => "right",
            Align::Center => "center",
        }
    }
}

/// Mouse cursor shown over an element.
#[derive(Clone, Copy)]
pub enum Cursor {
    Auto,
    Default,
    Pointer,
    Wait,
    Text,
    NotAllowed,
    Move,
    CrossHair,
    ColResize,
    RowResize,
}

impl Cursor {
    /// The CSS keyword of this cursor.
    pub open spec fn keyword(self) -> Seq<char> {
        match self {
            Cursor::Auto => "auto"@,
            Cursor::Default => "default"@,
            Cursor::Pointer => "pointer"@,
            Cursor::Wait => "wait"@,
            Cursor::Text => "text"@,
            Cursor::NotAllowed => "not-allowed"@,
            Cursor::Move => "move"@,
            Cursor::CrossHair => "crosshair"@,
            Cursor::ColResize => "col-resize"@,
            Cursor::RowResize => "row-resize"@,
        }
    }

    /// The CSS keyword of this cursor.
    pub fn value(&self) -> (s: &'static str)
        ensures
            s@ == self.keyword(),
    {
        match self {
            Cursor::Auto => "auto",
            Cursor::Default => "default",
            Cursor::Pointer => "pointer",
            Cursor::Wait => "wait",
            Cursor::Text => "text",
            Cursor::NotAllowed => "not-allowed",
            Cursor::Move => "move",
            Cursor::CrossHair => "crosshair",
            Cursor::ColResize => "col-resize",
            Cursor::RowResize => "row-resize",
        }
    }
}

/// A colour as `to_css` reads it. Red, green and blue are each the channel scaled to
/// 0..=255 and truncated to an integer, which may still lie outside that range; `alpha`
/// is the alpha channel, clamped to [0, 1] and written with four decimals.
pub struct Rgba {
    pub r: i32,
    pub g: i32,
    pub b: i32,
    pub alpha: String,
}

/// A colour channel held to the range 0..=255.
pub open spec fn channel(x: int) -> nat {
    if x < 0 {
        0
    } else if x > 255 {
        255
    } else {
        x as nat
    }
}

/// The CSS text of a colour: `rgba(r,g,b,a)`.
pub open spec fn rgba_css(c: Rgba) -> Seq<char> {
    "rgba("@ + decimal(channel(c.r as int)) + ","@ + decimal(channel(c.g as int)) + ","@
        + decimal(channel(c.b as int)) + ","@ + c.alpha@ + ")"@
}

/// Holds a scaled colour channel to the range 0..=255.
pub fn clamp255(x: i32) -> (r: i32)
    ensures
        r as int == channel(x as int),
        0 <= r <= 255,
        0 <= x <= 255 ==> r == x,
        x < 0 ==> r == 0,
        x > 255 ==> r == 255,
{
    if x < 0 {
        0
    } else if x > 255 {
        255
    } else {
        x
    }
}

/// The CSS text of a colour: `rgba(r,g,b,a)` with each channel held to 0..=255.
pub fn to_css(v: &Rgba) -> (s: String)
    ensures
        s@ == rgba_css(*v),
{
    let mut s = String::from_str("rgba(");
    let r = i32_to_decimal(clamp255(v.r));
    s.append(r.as_str());
    s.append(",");
    let g = i32_to_decimal(clamp255(v.g));
    s.append(g.as_str());
    s.append(",");
    let b = i32_to_decimal(clamp255(v.b));
    s.append(b.as_str());
    s.append(",");
    s.append(v.alpha.as_str());
    s.append(")");
    s
}

/// The colour stops of a gradient, each written as `, ` and its CSS colour.
pub open spec fn colors_css(cs: Seq<Rgba>) -> Seq<char>
    decreases cs.len(),
{
    if cs.len() == 0 {
        Seq::empty()
    } else {
        colors_css(cs.drop_last()) + ", "@ + rgba_css(cs.last())
    }
}

/// Writes each colour stop after `prefix`, then the closing bracket.
fn push_color_stops(prefix: String, rgbas: &Vec<Rgba>) -> (s: String)
    ensures
        s@ == prefix@ + colors_css(rgbas@) + ")"@,
{
    let mut result = prefix;
    let mut i: usize = 0;
    while i < rgbas.len()
        invariant
            i <= rgbas.len(),
            result@ == prefix@ + colors_css(rgbas@.take(i as int)),
        decreases rgbas.len() - i,
    {
        let css = to_css(&rgbas[i]);
        result.append(", ");
        result.append(css.as_str());
        proof {
            assert(rgbas@.take(i + 1).drop_last() =~= rgbas@.take(i as int));
            assert(rgbas@.take(i + 1).last() == rgbas@[i as int]);
        }
        i = i + 1;
    }
    assert(rgbas@.take(rgbas.len() as int) =~= rgbas@);
    result.append(")");
    result
}

/// A background gradient.
///
/// `Linear(degree, rgbas)`: the direction in whole degrees (the angle truncated to an
/// integer), then the colour stops.
/// `Radial(is_circle, x, y, rgbas)`: circle or ellipse, the centre's position as
/// percentages written with two decimals, then the colour stops.
pub enum Gradation {
    Linear(i32, Vec<Rgba>),
    Radial(bool, String, String, Vec<Rgba>),
}

/// The CSS text of a gradient.
pub open spec fn gradation_css(g: Gradation) -> Seq<char> {
    match g {
        Gradation::Linear(degree, rgbas) => "linear-gradient("@ + signed_decimal(degree as int)
            + "deg "@ + colors_css(rgbas@) + ")"@,
        Gradation::Radial(is_circle, x, y, rgbas) => "radial-gradient("@ + (if is_circle {
            "circle"@
        } else {
            "ellipse"@
        }) + " at "@ + x@ + "% "@ + y@ + "%, "@ + colors_css(rgbas@) + ")"@,
    }
}

impl Gradation {
    /// The CSS text of this gradient, for the `background` property.
    pub fn to_css(&self) -> (s: String)
        ensures
            s@ == gradation_css(*self),
    {
        match self {
            Gradation::Linear(degree, rgbas) => {
                let mut result = String::from_str("linear-gradient(");
                let d = i32_to_decimal(*degree);
                result.append(d.as_str());
                result.append("deg ");
                push_color_stops(result, rgbas)
            },
            Gradation::Radial(is_circle, x, y, rgbas) => {
                let mut result = String::from_str("radial-gradient(");
                if *is_circle {
                    result.append("circle");
                } else {
                    result.append("ellipse");
                }
                result.append(" at ");
                result.append(x.as_str());
                result.append("% ");
                result.append(y.as_str());
                result.append("%, ");
                push_color_stops(result, rgbas)
            },
        }
    }
}

/// A CSS filter function. Each number is already written as CSS reads it: `Blur` and the
/// offsets and radius of `DropShadow` as lengths (`"5px"`), the others with four decimals.
pub enum Filter {
    Blur(String),
    Brightness(String),
    Contrast(String),
    DropShadow(String, String, String, Rgba),
    GrayScale(String),
    HueRotate(String),
    Invert(String),
    Opacity(String),
    Saturate(String),
    Sepia(String),
}

/// The CSS text of a filter function. The drop shadow's text is left open, with a
/// trailing space and no closing bracket.
pub open spec fn filter_css(f: Filter) -> Seq<char> {
    match f {
        Filter::Blur(per) => "blur("@ + per@ + ")"@,
        Filter::Brightness(x) => "brightness("@ + x@ + ")"@,
        Filter::Contrast(x) => "contrast("@ + x@ + ")"@,
        Filter::GrayScale(x) => "grayscale("@ + x@ + ")"@,
        Filter::HueRotate(degree) => "hue-rotate("@ + degree@ + "deg)"@,
        Filter::Invert(x) => "invert("@ + x@ + ")"@,
        Filter::Opacity(x) => "opacity("@ + x@ + ")"@,
        Filter::Saturate(x) => "saturate("@ + x@ + ")"@,
        Filter::Sepia(x) => "sepia("@ + x@ + ")"@,
        Filter::DropShadow(x, y, r, rgba) => "drop-shadow("@ + x@ + " "@ + y@ + " "@ + r@ + " "@
            + rgba_css(rgba) + " "@,
    }
}

/// `name`, then `arg`, then `close`.
fn wrap(name: &str, arg: &String, close: &str) -> (s: String)
    ensures
        s@ == name@ + arg@ + close@,
{
    let mut s = String::from_str(name);
    s.append(arg.as_str());
    s.append(close);
    s
}

impl Filter {
    /// The CSS text of this filter function.
    pub fn value(&self) -> (s: String)
        ensures
            s@ == filter_css(*self),
    {
        match self {
            Filter::Blur(per) => wrap("blur(", per, ")"),
            Filter::Brightness(x) => wrap("brightness(", x, ")"),
            Filter::Contrast(x) => wrap("contrast(", x, ")"),
            Filter::GrayScale(x) => wrap("grayscale(", x, ")"),
            Filter::HueRotate(degree) => wrap("hue-rotate(", degree, "deg)"),
            Filter::Invert(x) => wrap("invert(", x, ")"),
            Filter::Opacity(x) => wrap("opacity(", x, ")"),
            Filter::Saturate(x) => wrap("saturate(", x, ")"),
            Filter::Sepia(x) => wrap("sepia(", x, ")"),
            Filter::DropShadow(x, y, r, rgba) => {
                let mut s = String::from_str("drop-shadow(");
                s.append(x.as_str());
                s.append(" ");
                s.append(y.as_str());
                s.append(" ");
                s.append(r.as_str());
                s.append(" ");
                let c = to_css(rgba);
                s.append(c.as_str());
                s.append(" ");
                s
            },
        }
    }
}

/// A channel already in 0..=255 is kept as it is; one below is held at 0, one above at 255.
pub proof fn lemma_channel_holds_range(x: int)
    ensures
        0 <= x <= 255 ==> channel(x) == x,
        x < 0 ==> channel(x) == 0,
        x > 255 ==> channel(x) == 255,
        forall|y: int| x <= y ==> channel(x) <= #[trigger] channel(y),
{
}

/// The text of a colour whose channels lie in 0..=255 names those channels themselves.
pub proof fn lemma_rgba_css_in_range(c: Rgba)
    requires
        0 <= c.r <= 255,
        0 <= c.g <= 255,
        0 <= c.b <= 255,
    ensures
        rgba_css(c) == "rgba("@ + decimal(c.r as nat) + ","@ + decimal(c.g as nat) + ","@ + decimal(
            c.b as nat,
        ) + ","@ + c.alpha@ + ")"@,
{
}

/// Digits, a comma, then anything: two such texts that are equal have the same digits and
/// the same rest.
proof fn lemma_split_at_comma(d1: Seq<char>, t1: Seq<char>, d2: Seq<char>, t2: Seq<char>)
    requires
        forall|i: int| 0 <= i < d1.len() ==> is_digit(#[trigger] d1[i]),
        forall|i: int| 0 <= i < d2.len() ==> is_digit(#[trigger] d2[i]),
        d1 + ","@ + t1 == d2 + ","@ + t2,
    ensures
        d1 == d2,
        t1 == t2,
{
    reveal_strlit(",");
    let s = d1 + ","@ + t1;
    let s2 = d2 + ","@ + t2;
    if d1.len() < d2.len() {
        assert(s[d1.len() as int] == ',');
        assert(s2[d1.len() as int] == d2[d1.len() as int]);
        assert(is_digit(d2[d1.len() as int]));
    }
    if d2.len() < d1.len() {
        assert(s2[d2.len() as int] == ',');
        assert(s[d2.len() as int] == d1[d2.len() as int]);
        assert(is_digit(d1[d2.len() as int]));
    }
    assert(d1 =~= s.subrange(0, d1.len() as int));
    assert(d2 =~= s2.subrange(0, d2.len() as int));
    assert(t1 =~= s.subrange(d1.len() as int + 1, s.len() as int));
    assert(t2 =~= s2.subrange(d2.len() as int + 1, s2.len() as int));
}

/// Three digit strings and a last part, joined by commas and closed by a bracket: equal
/// texts of that shape have equal parts.
proof fn lemma_split_channels(
    r1: Seq<char>,
    g1: Seq<char>,
    b1: Seq<char>,
    a1: Seq<char>,
    r2: Seq<char>,
    g2: Seq<char>,
    b2: Seq<char>,
    a2: Seq<char>,
)
    requires
        forall|i: int| 0 <= i < r1.len() ==> is_digit(#[trigger] r1[i]),
        forall|i: int| 0 <= i < g1.len() ==> is_digit(#[trigger] g1[i]),
        forall|i: int| 0 <= i < b1.len() ==> is_digit(#[trigger] b1[i]),
        forall|i: int| 0 <= i < r2.len() ==> is_digit(#[trigger] r2[i]),
        forall|i: int| 0 <= i < g2.len() ==> is_digit(#[trigger] g2[i]),
        forall|i: int| 0 <= i < b2.len() ==> is_digit(#[trigger] b2[i]),
        r1 + ","@ + (g1 + ","@ + (b1 + ","@ + (a1 + ")"@))) == r2 + ","@ + (g2 + ","@ + (b2
            + ","@ + (a2 + ")"@))),
    ensures
        r1 == r2,
        g1 == g2,
        b1 == b2,
        a1 == a2,
{
    reveal_strlit(")");
    lemma_split_at_comma(r1, g1 + ","@ + (b1 + ","@ + (a1 + ")"@)), r2, g2 + ","@ + (b2 + ","@ + (
    a2 + ")"@)));
    lemma_split_at_comma(g1, b1 + ","@ + (a1 + ")"@), g2, b2 + ","@ + (a2 + ")"@));
    lemma_split_at_comma(b1, a1 + ")"@, b2, a2 + ")"@);
    assert((a1 + ")"@).drop_last() =~= a1);
    assert((a2 + ")"@).drop_last() =~= a2);
}

/// The part of a colour's text after `rgba(`.
spec fn rgba_tail(c: Rgba) -> Seq<char> {
    decimal(channel(c.r as int)) + ","@ + (decimal(channel(c.g as int)) + ","@ + (decimal(
        channel(c.b as int),
    ) + ","@ + (c.alpha@ + ")"@)))
}

/// A colour's text is `rgba(` followed by its tail.
proof fn lemma_rgba_css_tail(c: Rgba)
    ensures
        rgba_css(c) == "rgba("@ + rgba_tail(c),
        rgba_tail(c) == rgba_css(c).subrange(5, rgba_css(c).len() as int),
{
    reveal_strlit("rgba(");
    assert(rgba_css(c) =~= "rgba("@ + rgba_tail(c));
    assert(rgba_tail(c) =~= rgba_css(c).subrange(5, rgba_css(c).len() as int));
}

/// A colour's text determines the colour: two colours with the same text have the same
/// channels, as held to 0..=255, and the same alpha text.
pub proof fn lemma_rgba_css_injective(c1: Rgba, c2: Rgba)
    requires
        rgba_css(c1) == rgba_css(c2),
    ensures
        channel(c1.r as int) == channel(c2.r as int),
        channel(c1.g as int) == channel(c2.g as int),
        channel(c1.b as int) == channel(c2.b as int),
        c1.alpha@ == c2.alpha@,
{
    lemma_rgba_css_tail(c1);
    lemma_rgba_css_tail(c2);
    lemma_decimal_digits(channel(c1.r as int));
    lemma_decimal_digits(channel(c2.r as int));
    lemma_decimal_digits(channel(c1.g as int));
    lemma_decimal_digits(channel(c2.g as int));
    lemma_decimal_digits(channel(c1.b as int));
    lemma_decimal_digits(channel(c2.b as int));
    lemma_split_channels(
        decimal(channel(c1.r as int)),
        decimal(channel(c1.g as int)),
        decimal(channel(c1.b as int)),
        c1.alpha@,
        decimal(channel(c2.r as int)),
        decimal(channel(c2.g as int)),
        decimal(channel(c2.b as int)),
        c2.alpha@,
    );
    lemma_decimal_injective(channel(c1.r as int), channel(c2.r as int));
    lemma_decimal_injective(channel(c1.g as int), channel(c2.g as int));
    lemma_decimal_injective(channel(c1.b as int), channel(c2.b as int));
}

/// Equal texts made of the same name, an argument and the same closing have equal
/// arguments.
proof fn lemma_wrapped_argument(name: Seq<char>, a: Seq<char>, b: Seq<char>, close: Seq<char>)
    requires
        name + a + close == name + b + close,
    ensures
        a == b,
{
    let s = name + a + close;
    assert(a =~= s.subrange(name.len() as int, s.len() - close.len()));
    assert(b =~= s.subrange(name.len() as int, s.len() - close.len()));
}

/// The number text of a filter function with one argument (empty for a drop shadow).
pub open spec fn filter_argument(f: Filter) -> Seq<char> {
    match f {
        Filter::Blur(a) => a@,
        Filter::Brightness(a) => a@,
        Filter::Contrast(a) => a@,
        Filter::GrayScale(a) => a@,
        Filter::HueRotate(a) => a@,
        Filter::Invert(a) => a@,
        Filter::Opacity(a) => a@,
        Filter::Saturate(a) => a@,
        Filter::Sepia(a) => a@,
        Filter::DropShadow(..) => Seq::empty(),
    }
}

/// A filter's text names its argument: two filters of the same one-argument kind with
/// the same text have the same argument.
pub proof fn lemma_filter_argument_recovered(f1: Filter, f2: Filter)
    requires
        filter_css(f1) == filter_css(f2),
        (f1 is Blur && f2 is Blur) || (f1 is Brightness && f2 is Brightness) || (f1 is Contrast
            && f2 is Contrast) || (f1 is GrayScale && f2 is GrayScale) || (f1 is HueRotate
            && f2 is HueRotate) || (f1 is Invert && f2 is Invert) || (f1 is Opacity
            && f2 is Opacity) || (f1 is Saturate && f2 is Saturate) || (f1 is Sepia
            && f2 is Sepia),
    ensures
        filter_argument(f1) == filter_argument(f2),
{
    match (f1, f2) {
        (Filter::Blur(a), Filter::Blur(b)) => lemma_wrapped_argument("blur("@, a@, b@, ")"@),
        (Filter::Brightness(a), Filter::Brightness(b)) => lemma_wrapped_argument(
            "brightness("@,
            a@,
            b@,
            ")"@,
        ),
        (Filter::Contrast(a), Filter::Contrast(b)) => lemma_wrapped_argument(
            "contrast("@,
            a@,
            b@,
            ")"@,
        ),
        (Filter::GrayScale(a), Filter::GrayScale(b)) => lemma_wrapped_argument(
            "grayscale("@,
            a@,
            b@,
            ")"@,
        ),
        (Filter::HueRotate(a), Filter::HueRotate(b)) => lemma_wrapped_argument(
            "hue-rotate("@,
            a@,
            b@,
            "deg)"@,
        ),
        (Filter::Invert(a), Filter::Invert(b)) => lemma_wrapped_argument("invert("@, a@, b@, ")"@),
        (Filter::Opacity(a), Filter::Opacity(b)) => lemma_wrapped_argument(
            "opacity("@,
            a@,
            b@,
            ")"@,
        ),
        (Filter::Saturate(a), Filter::Saturate(b)) => lemma_wrapped_argument(
            "saturate("@,
            a@,
            b@,
            ")"@,
        ),
        (Filter::Sepia(a), Filter::Sepia(b)) => lemma_wrapped_argument("sepia("@, a@, b@, ")"@),
        _ => {},
    }
}

/// A linear gradient's text names its direction: two linear gradients with the same
/// colour stops and the same text have the same angle.
pub proof fn lemma_linear_degree_recovered(g1: Gradation, g2: Gradation)
    requires
        g1 is Linear,
        g2 is Linear,
        g1->Linear_1@ == g2->Linear_1@,
        gradation_css(g1) == gradation_css(g2),
    ensures
        g1->Linear_0 == g2->Linear_0,
{
    let d1 = g1->Linear_0;
    let d2 = g2->Linear_0;
    let close = "deg "@ + colors_css(g1->Linear_1@) + ")"@;
    assert(gradation_css(g1) =~= "linear-gradient("@ + signed_decimal(d1 as int) + close);
    assert(gradation_css(g2) =~= "linear-gradient("@ + signed_decimal(d2 as int) + close);
    lemma_wrapped_argument(
        "linear-gradient("@,
        signed_decimal(d1 as int),
        signed_decimal(d2 as int),
        close,
    );
    lemma_signed_decimal_injective(d1 as int, d2 as int);
}

/// Colour stops are written in list order: adding a colour at the end of a gradient's
/// list gives the shorter gradient's text without its closing bracket, then `, `, the
/// colour's text, and the closing bracket.
pub proof fn lemma_gradation_appends_stop(g1: Gradation, g2: Gradation, c: Rgba)
    requires
        match (g1, g2) {
            (Gradation::Linear(d1, s1), Gradation::Linear(d2, s2)) => d1 == d2 && s2@ == s1@.push(
                c,
            ),
            (Gradation::Radial(o1, x1, y1, s1), Gradation::Radial(o2, x2, y2, s2)) => o1 == o2
                && x1@ == x2@ && y1@ == y2@ && s2@ == s1@.push(c),
            _ => false,
        },
    ensures
        gradation_css(g2) == gradation_css(g1).drop_last() + ", "@ + rgba_css(c) + ")"@,
{
    reveal_strlit(")");
    match (g1, g2) {
        (Gradation::Linear(d1, s1), Gradation::Linear(d2, s2)) => {
            assert(s2@.drop_last() =~= s1@);
            let head = "linear-gradient("@ + signed_decimal(d1 as int) + "deg "@;
            assert(gradation_css(g1) =~= head + colors_css(s1@) + ")"@);
            assert((head + colors_css(s1@) + ")"@).drop_last() =~= head + colors_css(s1@));
            assert(gradation_css(g2) =~= head + colors_css(s1@) + ", "@ + rgba_css(c) + ")"@);
        },
        (Gradation::Radial(o1, x1, y1, s1), Gradation::Radial(o2, x2, y2, s2)) => {
            assert(s2@.drop_last() =~= s1@);
            let head = "radial-gradient("@ + (if o1 {
                "circle"@
            } else {
                "ellipse"@
            }) + " at "@ + x1@ + "% "@ + y1@ + "%, "@;
            assert(gradation_css(g1) =~= head + colors_css(s1@) + ")"@);
            assert((head + colors_css(s1@) + ")"@).drop_last() =~= head + colors_css(s1@));
            assert(gradation_css(g2) =~= head + colors_css(s1@) + ", "@ + rgba_css(c) + ")"@);
        },
        _ => {},
    }
}

/// The text of a drop shadow names its colour: two drop shadows with the same offsets and
/// radius and the same text have colours with the same channels and alpha.
pub proof fn lemma_drop_shadow_color(x: String, y: String, r: String, c1: Rgba, c2: Rgba)
    requires
        filter_css(Filter::DropShadow(x, y, r, c1)) == filter_css(Filter::DropShadow(x, y, r, c2)),
    ensures
        channel(c1.r as int) == channel(c2.r as int),
        channel(c1.g as int) == channel(c2.g as int),
        channel(c1.b as int) == channel(c2.b as int),
        c1.alpha@ == c2.alpha@,
{
    reveal_strlit(" ");
    let head = "drop-shadow("@ + x@ + " "@ + y@ + " "@ + r@ + " "@;
    let t1 = filter_css(Filter::DropShadow(x, y, r, c1));
    let t2 = filter_css(Filter::DropShadow(x, y, r, c2));
    assert(t1 =~= head + rgba_css(c1) + " "@);
    assert(t2 =~= head + rgba_css(c2) + " "@);
    assert(rgba_css(c1) =~= t1.subrange(head.len() as int, t1.len() - 1));
    assert(rgba_css(c2) =~= t2.subrange(head.len() as int, t2.len() - 1));
    lemma_rgba_css_injective(c1, c2);
}

/// Two border styles with the same keyword are the same style.
pub proof fn lemma_border_style_keyword_injective(a: BorderStyle, b: BorderStyle)
    requires
        a.keyword() == b.keyword(),
    ensures
        a == b,
{
    reveal_strlit("solid");
    reveal_strlit("double");
    reveal_strlit("hidden");
    reveal_strlit("dashed");
    assert("solid"@[0] == 's');
    assert("double"@[0] == 'd' && "double"@[1] == 'o');
    assert("hidden"@[0] == 'h');
    assert("dashed"@[0] == 'd' && "dashed"@[1] == 'a');
    match a {
        BorderStyle::Solid => assert(a.keyword()[0] == 's'),
        BorderStyle::Double => assert(a.keyword()[1] == 'o'),
        BorderStyle::Hidden => assert(a.keyword()[0] == 'h'),
        BorderStyle::Dashed => assert(a.keyword()[1] == 'a'),
    }
    match b {
        BorderStyle::Solid => assert(b.keyword()[0] == 's'),
        BorderStyle::Double => assert(b.keyword()[1] == 'o'),
        BorderStyle::Hidden => assert(b.keyword()[0] == 'h'),
        BorderStyle::Dashed => assert(b.keyword()[1] == 'a'),
    }
}

/// Two alignments with the same keyword are the same alignment.
pub proof fn lemma_align_keyword_injective(a: Align, b: Align)
    requires
        a.keyword() == b.keyword(),
    ensures
        a == b,
{
    reveal_strlit("left");
    reveal_strlit("right");
    reveal_strlit("center");
    match a {
        Align::Left => assert(a.keyword()[0] == 'l' && a.keyword().len() == 4),
        Align::Right => assert(a.keyword()[0] == 'r' && a.keyword().len() == 5),
        Align::Center => assert(a.keyword()[0] == 'c' && a.keyword().len() == 6),
    }
    match b {
        Align::Left => assert(b.keyword()[0] == 'l' && b.keyword().len() == 4),
        Align::Right => assert(b.keyword()[0] == 'r' && b.keyword().len() == 5),
        Align::Center => assert(b.keyword()[0] == 'c' && b.keyword().len() == 6),
    }
}

/// Two cursors with the same keyword are the same cursor.
pub proof fn lemma_cursor_keyword_injective(a: Cursor, b: Cursor)
    requires
        a.keyword() == b.keyword(),
    ensures
        a == b,
{
    reveal_strlit("auto");
    reveal_strlit("default");
    reveal_strlit("pointer");
    reveal_strlit("wait");
    reveal_strlit("text");
    reveal_strlit("not-allowed");
    reveal_strlit("move");
    reveal_strlit("crosshair");
    reveal_strlit("col-resize");
    reveal_strlit("row-resize");
    match a {
        Cursor::Auto => assert(a.keyword()[0] == 'a' && a.keyword().len() == 4),
        Cursor::Default => assert(a.keyword()[0] == 'd' && a.keyword().len() == 7),
        Cursor::Pointer => assert(a.keyword()[0] == 'p' && a.keyword().len() == 7),
        Cursor::Wait => assert(a.keyword()[0] == 'w' && a.keyword().len() == 4),
        Cursor::Text => assert(a.keyword()[0] == 't' && a.keyword().len() == 4),
        Cursor::NotAllowed => assert(a.keyword()[0] == 'n' && a.keyword().len() == 11),
        Cursor::Move => assert(a.keyword()[0] == 'm' && a.keyword().len() == 4),
        Cursor::CrossHair => assert(a.keyword()[0] == 'c' && a.keyword().len() == 9),
        Cursor::ColResize => assert(a.keyword()[0] == 'c' && a.keyword().len() == 10),
        Cursor::RowResize => assert(a.keyword()[0] == 'r' && a.keyword().len() == 10),
    }
    match b {
        Cursor::Auto => assert(b.keyword()[0] == 'a' && b.keyword().len() == 4),
        Cursor::Default => assert(b.keyword()[0] == 'd' && b.keyword().len() == 7),
        Cursor::Pointer => assert(b.keyword()[0] == 'p' && b.keyword().len() == 7),
        Cursor::Wait => assert(b.keyword()[0] == 'w' && b.keyword().len() == 4),
        Cursor::Text => assert(b.keyword()[0] == 't' && b.keyword().len() == 4),
        Cursor::NotAllowed => assert(b.keyword()[0] == 'n' && b.keyword().len() == 11),
        Cursor::Move => assert(b.keyword()[0] == 'm' && b.keyword().len() == 4),
        Cursor::CrossHair => assert(b.keyword()[0] == 'c' && b.keyword().len() == 9),
        Cursor::ColResize => assert(b.keyword()[0] == 'c' && b.keyword().len() == 10),
        Cursor::RowResize => assert(b.keyword()[0] == 'r' && b.keyword().len() == 10),
    }
}

} // verus!
