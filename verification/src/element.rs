//! The inline-style property writes that each styling operation on an element makes,
//! in the order it makes them.
use vstd::prelude::*;
use crate::style::{
    Align, BorderStyle, Cursor, Filter, Gradation, Rgba, channel, filter_css, gradation_css,
    lemma_rgba_css_injective, rgba_css, to_css,
};

verus! {

/// A property write: the property's name and the value given to it.
pub type PropertyWrite = (Seq<char>, Seq<char>);

/// The filter functions written one after another, separated by single spaces.
pub open spec fn joined_filters(fs: Seq<Filter>) -> Seq<char>
    decreases fs.len(),
{
    if fs.len() == 0 {
        Seq::empty()
    } else if fs.len() == 1 {
        filter_css(fs[0])
    } else {
        joined_filters(fs.drop_last()) + " "@ + filter_css(fs.last())
    }
}

/// The value of the `filter` property for a list of filters: `none` when it is empty.
pub open spec fn filter_value(fs: Seq<Filter>) -> Seq<char> {
    if fs.len() == 0 {
        "none"@
    } else {
        joined_filters(fs)
    }
}

/// The value of a shadow property: x offset, y offset, blur radius and colour.
pub open spec fn shadow_value(dx: Seq<char>, dy: Seq<char>, blur_radius: Seq<char>, rgba: Rgba) -> Seq<
    char,
> {
    dx + " "@ + dy + " "@ + blur_radius + " "@ + rgba_css(rgba)
}

/// The `filter` value of no filters is `none`; of one filter, that filter's text; and
/// adding a filter at the end of a non-empty list appends a space and its text, however
/// long the list is.
pub proof fn lemma_filter_value_appends(fs: Seq<Filter>, f: Filter)
    ensures
        filter_value(Seq::empty()) == "none"@,
        filter_value(seq![f]) == filter_css(f),
        fs.len() > 0 ==> filter_value(fs.push(f)) == filter_value(fs) + " "@ + filter_css(f),
{
    assert(fs.push(f).drop_last() =~= fs);
}

/// A shadow value ends with its colour's text, exactly what a colour write gives for that
/// colour, after the offsets, the blur radius and three spaces.
pub proof fn lemma_shadow_value_ends_with_color(
    dx: Seq<char>,
    dy: Seq<char>,
    blur_radius: Seq<char>,
    rgba: Rgba,
)
    ensures
        shadow_value(dx, dy, blur_radius, rgba).subrange(
            (dx.len() + dy.len() + blur_radius.len() + 3) as int,
            shadow_value(dx, dy, blur_radius, rgba).len() as int,
        ) == rgba_css(rgba),
        shadow_value(dx, dy, blur_radius, rgba).len() == dx.len() + dy.len() + blur_radius.len() + 3
            + rgba_css(rgba).len(),
{
    reveal_strlit(" ");
    let v = shadow_value(dx, dy, blur_radius, rgba);
    let head = dx + " "@ + dy + " "@ + blur_radius + " "@;
    assert(v =~= head + rgba_css(rgba));
    assert(v.subrange(head.len() as int, v.len() as int) =~= rgba_css(rgba));
}

/// A shadow value names its colour: two shadows with the same offsets and blur radius and
/// the same value have colours with the same channels and alpha.
pub proof fn lemma_shadow_value_color(
    dx: Seq<char>,
    dy: Seq<char>,
    blur_radius: Seq<char>,
    c1: Rgba,
    c2: Rgba,
)
    requires
        shadow_value(dx, dy, blur_radius, c1) == shadow_value(dx, dy, blur_radius, c2),
    ensures
        channel(c1.r as int) == channel(c2.r as int),
        channel(c1.g as int) == channel(c2.g as int),
        channel(c1.b as int) == channel(c2.b as int),
        c1.alpha@ == c2.alpha@,
{
    lemma_shadow_value_ends_with_color(dx, dy, blur_radius, c1);
    lemma_shadow_value_ends_with_color(dx, dy, blur_radius, c2);
    lemma_rgba_css_injective(c1, c2);
}

/// A drop-shadow filter is written as `drop-shadow(`, the same value a shadow property
/// gets for those offsets, radius and colour, and a space.
pub proof fn lemma_drop_shadow_is_shadow_value(x: String, y: String, r: String, rgba: Rgba)
    ensures
        filter_css(Filter::DropShadow(x, y, r, rgba)) == "drop-shadow("@ + shadow_value(
            x@,
            y@,
            r@,
            rgba,
        ) + " "@,
{
    assert(filter_css(Filter::DropShadow(x, y, r, rgba)) =~= "drop-shadow("@ + shadow_value(
        x@,
        y@,
        r@,
        rgba,
    ) + " "@);
}

/// The writes of `set_padding`.
pub open spec fn padding_writes(length: Seq<char>) -> Seq<PropertyWrite> {
    seq![
        ("padding-left"@, length),
        ("padding-right"@, length),
        ("padding-top"@, length),
        ("padding-bottom"@, length),
    ]
}

/// The writes of `set_border_color`.
pub open spec fn border_color_writes(color: Seq<char>) -> Seq<PropertyWrite> {
    seq![
        ("border-left-color"@, color),
        ("border-right-color"@, color),
        ("border-bottom-color"@, color),
        ("border-top-color"@, color),
    ]
}

/// The writes of `set_border_width`.
pub open spec fn border_width_writes(length: Seq<char>) -> Seq<PropertyWrite> {
    seq![
        ("border-left-width"@, length),
        ("border-right-width"@, length),
        ("border-bottom-width"@, length),
        ("border-top-width"@, length),
    ]
}

/// The writes of `set_border_style`.
pub open spec fn border_style_writes(keyword: Seq<char>) -> Seq<PropertyWrite> {
    seq![
        ("border-left-style"@, keyword),
        ("border-right-style"@, keyword),
        ("border-bottom-style"@, keyword),
        ("border-top-style"@, keyword),
    ]
}

/// The writes of `set_background_textclip`.
pub open spec fn textclip_writes() -> Seq<PropertyWrite> {
    seq![
        ("background-clip"@, "text"@),
        ("-webkit-background-clip"@, "text"@),
        ("color"@, "transparent"@),
        ("text-shadow"@, "none"@),
    ]
}

/// The value that property `key` holds after `writes` are applied in order: that of the
/// last write to `key`, or none when no write names it.
pub open spec fn property_value(writes: Seq<PropertyWrite>, key: Seq<char>) -> Option<Seq<char>>
    decreases writes.len(),
{
    if writes.len() == 0 {
        None
    } else if writes.last().0 == key {
        Some(writes.last().1)
    } else {
        property_value(writes.drop_last(), key)
    }
}

/// A property read after a write gives the written value; every other property keeps
/// the value it had.
pub proof fn lemma_read_after_write(writes: Seq<PropertyWrite>, key: Seq<char>, value: Seq<char>, other: Seq<char>)
    ensures
        property_value(writes.push((key, value)), key) == Some(value),
        other != key ==> property_value(writes.push((key, value)), other) == property_value(
            writes,
            other,
        ),
{
    assert(writes.push((key, value)).drop_last() =~= writes);
}

/// Writes that do not name `key` leave its value as it was.
pub proof fn lemma_other_writes_keep_value(writes: Seq<PropertyWrite>, batch: Seq<PropertyWrite>, key: Seq<char>)
    requires
        forall|j: int| 0 <= j < batch.len() ==> #[trigger] batch[j].0 != key,
    ensures
        property_value(writes + batch, key) == property_value(writes, key),
    decreases batch.len(),
{
    if batch.len() == 0 {
        assert(writes + batch =~= writes);
    } else {
        let shorter = batch.drop_last();
        assert((writes + batch).drop_last() =~= writes + shorter);
        assert((writes + batch).last() == batch.last());
        assert(batch[batch.len() - 1].0 != key);
        lemma_other_writes_keep_value(writes, shorter, key);
    }
}

/// After a batch of writes, a property holds the value of the batch's last write to it.
pub proof fn lemma_last_write_wins(writes: Seq<PropertyWrite>, batch: Seq<PropertyWrite>, i: int)
    requires
        0 <= i < batch.len(),
        forall|j: int| i < j < batch.len() ==> #[trigger] batch[j].0 != batch[i].0,
    ensures
        property_value(writes + batch, batch[i].0) == Some(batch[i].1),
{
    let key = batch[i].0;
    let head = batch.take(i + 1);
    let tail = batch.skip(i + 1);
    assert(batch =~= head + tail);
    assert(writes + batch =~= (writes + head) + tail);
    assert forall|j: int| 0 <= j < tail.len() implies #[trigger] tail[j].0 != key by {
        assert(tail[j] == batch[i + 1 + j]);
    }
    lemma_other_writes_keep_value(writes + head, tail, key);
    assert((writes + head).last() == batch[i]);
}

/// `set_padding` gives all four sides the same padding.
pub proof fn lemma_padding_sets_every_side(writes: Seq<PropertyWrite>, length: Seq<char>)
    ensures
        property_value(writes + padding_writes(length), "padding-left"@) == Some(length),
        property_value(writes + padding_writes(length), "padding-right"@) == Some(length),
        property_value(writes + padding_writes(length), "padding-top"@) == Some(length),
        property_value(writes + padding_writes(length), "padding-bottom"@) == Some(length),
{
    reveal_strlit("padding-left");
    reveal_strlit("padding-right");
    reveal_strlit("padding-top");
    reveal_strlit("padding-bottom");
    lemma_four_writes_each_win(writes, padding_writes(length));
}

/// `set_border_color` gives all four borders the same colour.
pub proof fn lemma_border_color_sets_every_side(writes: Seq<PropertyWrite>, color: Seq<char>)
    ensures
        property_value(writes + border_color_writes(color), "border-left-color"@) == Some(color),
        property_value(writes + border_color_writes(color), "border-right-color"@) == Some(color),
        property_value(writes + border_color_writes(color), "border-bottom-color"@) == Some(color),
        property_value(writes + border_color_writes(color), "border-top-color"@) == Some(color),
{
    reveal_strlit("border-left-color");
    reveal_strlit("border-right-color");
    reveal_strlit("border-bottom-color");
    reveal_strlit("border-top-color");
    lemma_four_writes_each_win(writes, border_color_writes(color));
}

/// `set_border_width` gives all four borders the same width.
pub proof fn lemma_border_width_sets_every_side(writes: Seq<PropertyWrite>, length: Seq<char>)
    ensures
        property_value(writes + border_width_writes(length), "border-left-width"@) == Some(length),
        property_value(writes + border_width_writes(length), "border-right-width"@) == Some(length),
        property_value(writes + border_width_writes(length), "border-bottom-width"@) == Some(length),
        property_value(writes + border_width_writes(length), "border-top-width"@) == Some(length),
{
    reveal_strlit("border-left-width");
    reveal_strlit("border-right-width");
    reveal_strlit("border-bottom-width");
    reveal_strlit("border-top-width");
    lemma_four_writes_each_win(writes, border_width_writes(length));
}

/// `set_border_style` gives all four borders the same line style.
pub proof fn lemma_border_style_sets_every_side(writes: Seq<PropertyWrite>, keyword: Seq<char>)
    ensures
        property_value(writes + border_style_writes(keyword), "border-left-style"@) == Some(keyword),
        property_value(writes + border_style_writes(keyword), "border-right-style"@) == Some(keyword),
        property_value(writes + border_style_writes(keyword), "border-bottom-style"@) == Some(keyword),
        property_value(writes + border_style_writes(keyword), "border-top-style"@) == Some(keyword),
{
    reveal_strlit("border-left-style");
    reveal_strlit("border-right-style");
    reveal_strlit("border-bottom-style");
    reveal_strlit("border-top-style");
    lemma_four_writes_each_win(writes, border_style_writes(keyword));
}

/// `set_background_textclip` leaves the text transparent, without a shadow, over a
/// background clipped to it.
pub proof fn lemma_textclip_values(writes: Seq<PropertyWrite>)
    ensures
        property_value(writes + textclip_writes(), "background-clip"@) == Some("text"@),
        property_value(writes + textclip_writes(), "-webkit-background-clip"@) == Some("text"@),
        property_value(writes + textclip_writes(), "color"@) == Some("transparent"@),
        property_value(writes + textclip_writes(), "text-shadow"@) == Some("none"@),
{
    reveal_strlit("background-clip");
    reveal_strlit("-webkit-background-clip");
    reveal_strlit("color");
    reveal_strlit("text-shadow");
    lemma_four_writes_each_win(writes, textclip_writes());
}

/// In a batch of four writes to properties of different name lengths, each write is the
/// last to its property.
proof fn lemma_four_writes_each_win(writes: Seq<PropertyWrite>, batch: Seq<PropertyWrite>)
    requires
        batch.len() == 4,
        forall|i: int, j: int|
            0 <= i < j < 4 ==> (#[trigger] batch[i]).0.len() != (#[trigger] batch[j]).0.len(),
    ensures
        forall|i: int|
            0 <= i < 4 ==> property_value(writes + batch, (#[trigger] batch[i]).0) == Some(batch[i].1),
{
    assert forall|i: int| 0 <= i < 4 implies property_value(writes + batch, (#[trigger] batch[i]).0)
        == Some(batch[i].1) by {
        assert forall|j: int| i < j < batch.len() implies #[trigger] batch[j].0 != batch[i].0 by {
            assert(batch[i].0.len() != batch[j].0.len());
        }
        lemma_last_write_wins(writes, batch, i);
    }
}

/// The property writes made to an element's inline style, oldest first.
pub struct StyleWrites {
    pub writes: Vec<(String, String)>,
}

impl View for StyleWrites {
    type V = Seq<PropertyWrite>;

    open spec fn view(&self) -> Seq<PropertyWrite> {
        self.writes@.map_values(|w: (String, String)| (w.0@, w.1@))
    }
}

impl StyleWrites {
    /// No writes yet.
    pub fn new() -> (s: Self)
        ensures
            s@ == Seq::<PropertyWrite>::empty(),
    {
        let s = StyleWrites { writes: Vec::new() };
        assert(s@ =~= Seq::<PropertyWrite>::empty());
        s
    }

    /// Sets the property `key` to `value`.
    pub fn set_by_name_impl(&mut self, key: &str, value: &str)
        ensures
            final(self)@ == old(self)@.push((key@, value@)),
    {
        let k = String::from_str(key);
        let v = String::from_str(value);
        self.writes.push((k, v));
        assert(self@ =~= old(self)@.push((key@, value@)));
    }

    /// Sets the mouse cursor.
    pub fn set_cursor(&mut self, cursor: Cursor)
        ensures
            final(self)@ == old(self)@.push(("cursor"@, cursor.keyword())),
    {
        self.set_by_name_impl("cursor", cursor.value());
    }

    /// Sets the filter functions.
    pub fn set_filter(&mut self, filter: &Vec<Filter>)
        ensures
            final(self)@ == old(self)@.push(("filter"@, filter_value(filter@))),
    {
        self.set_filter_impl(filter);
    }

    /// Sets the property `key` to the CSS text of a colour.
    pub fn set_color_impl(&mut self, key: &str, rgba: &Rgba)
        ensures
            final(self)@ == old(self)@.push((key@, rgba_css(*rgba))),
    {
        let css = to_css(rgba);
        self.set_by_name_impl(key, css.as_str());
    }

    /// Sets the shadow property `key` from its offsets, blur radius and colour.
    pub fn set_shadow_impl(&mut self, key: &str, dx: &str, dy: &str, blur_radius: &str, rgba: &Rgba)
        ensures
            final(self)@ == old(self)@.push((key@, shadow_value(dx@, dy@, blur_radius@, *rgba))),
    {
        let mut value = String::from_str(dx);
        value.append(" ");
        value.append(dy);
        value.append(" ");
        value.append(blur_radius);
        value.append(" ");
        let css = to_css(rgba);
        value.append(css.as_str());
        self.set_by_name_impl(key, value.as_str());
    }

    /// Sets `filter` to the filter functions separated by spaces, or to `none` when there
    /// are none.
    pub fn set_filter_impl(&mut self, filter: &Vec<Filter>)
        ensures
            final(self)@ == old(self)@.push(("filter"@, filter_value(filter@))),
    {
        if filter.len() == 0 {
            self.set_by_name_impl("filter", "none");
        } else {
            let mut value = filter[0].value();
            let mut i: usize = 1;
            assert(filter@.take(1) =~= seq![filter@[0]]);
            while i < filter.len()
                invariant
                    1 <= i <= filter.len(),
                    value@ == joined_filters(filter@.take(i as int)),
                decreases filter.len() - i,
            {
                let css = filter[i].value();
                value.append(" ");
                value.append(css.as_str());
                proof {
                    assert(filter@.take(i + 1).drop_last() =~= filter@.take(i as int));
                    assert(filter@.take(i + 1).last() == filter@[i as int]);
                }
                i = i + 1;
            }
            assert(filter@.take(filter.len() as int) =~= filter@);
            self.set_by_name_impl("filter", value.as_str());
        }
    }

    // Text

    /// Sets the text colour.
    pub fn set_text_color(&mut self, rgba: &Rgba)
        ensures
            final(self)@ == old(self)@.push(("color"@, rgba_css(*rgba))),
    {
        self.set_color_impl("color", rgba);
    }

    /// Sets the text shadow.
    pub fn set_text_shadow(&mut self, dx: &str, dy: &str, blur_radius: &str, rgba: &Rgba)
        ensures
            final(self)@ == old(self)@.push(("text-shadow"@, shadow_value(dx@, dy@, blur_radius@, *rgba))),
    {
        self.set_shadow_impl("text-shadow", dx, dy, blur_radius, rgba);
    }

    /// Sets the font size to a CSS length.
    pub fn set_text_size(&mut self, length: &str)
        ensures
            final(self)@ == old(self)@.push(("font-size"@, length@)),
    {
        self.set_by_name_impl("font-size", length);
    }

    /// Sets the line height to a CSS length.
    pub fn set_text_line_height(&mut self, length: &str)
        ensures
            final(self)@ == old(self)@.push(("line-height"@, length@)),
    {
        self.set_by_name_impl("line-height", length);
    }

    /// Sets the letter spacing to a CSS length.
    pub fn set_text_letter_spacing(&mut self, length: &str)
        ensures
            final(self)@ == old(self)@.push(("letter-spacing"@, length@)),
    {
        self.set_by_name_impl("letter-spacing", length);
    }

    /// Sets the font weight: `bold`, or `normal`.
    pub fn set_text_bold(&mut self, is_bold: bool)
        ensures
            final(self)@ == old(self)@.push(("font-weight"@, (if is_bold { "bold"@ } else { "normal"@ }))),
    {
        self.set_by_name_impl("font-weight", if is_bold { "bold" } else { "normal" });
    }

    /// Sets the font style: `italic`, or `normal`.
    pub fn set_text_italic(&mut self, is_italic: bool)
        ensures
            final(self)@ == old(self)@.push(("font-style"@, (if is_italic { "italic"@ } else { "normal"@ }))),
    {
        self.set_by_name_impl("font-style", if is_italic { "italic" } else { "normal" });
    }

    // Container

    /// Sets the text alignment.
    pub fn set_align(&mut self, align: Align)
        ensures
            final(self)@ == old(self)@.push(("text-align"@, align.keyword())),
    {
        self.set_by_name_impl("text-align", align.value());
    }

    /// Sets the padding of all four sides to the same CSS length.
    pub fn set_padding(&mut self, length: &str)
        ensures
            final(self)@ == old(self)@ + padding_writes(length@),
    {
        self.set_padding_left(length);
        self.set_padding_right(length);
        self.set_padding_top(length);
        self.set_padding_bottom(length);
        assert(self@ =~= old(self)@ + padding_writes(length@));
    }

    /// Sets the border radius to a CSS length.
    pub fn set_border_radius(&mut self, length: &str)
        ensures
            final(self)@ == old(self)@.push(("border-radius"@, length@)),
    {
        self.set_by_name_impl("border-radius", length);
    }

    /// Sets the colour of all four borders.
    pub fn set_border_color(&mut self, rgba: &Rgba)
        ensures
            final(self)@ == old(self)@ + border_color_writes(rgba_css(*rgba)),
    {
        self.set_border_left_color(rgba);
        self.set_border_right_color(rgba);
        self.set_border_bottom_color(rgba);
        self.set_border_top_color(rgba);
        assert(self@ =~= old(self)@ + border_color_writes(rgba_css(*rgba)));
    }

    /// Sets the width of all four borders to the same CSS length.
    pub fn set_border_width(&mut self, length: &str)
        ensures
            final(self)@ == old(self)@ + border_width_writes(length@),
    {
        self.set_border_left_width(length);
        self.set_border_right_width(length);
        self.set_border_bottom_width(length);
        self.set_border_top_width(length);
        assert(self@ =~= old(self)@ + border_width_writes(length@));
    }

    /// Sets the line style of all four borders.
    pub fn set_border_style(&mut self, border_style: BorderStyle)
        ensures
            final(self)@ == old(self)@ + border_style_writes(border_style.keyword()),
    {
        self.set_border_left_style(border_style);
        self.set_border_right_style(border_style);
        self.set_border_bottom_style(border_style);
        self.set_border_top_style(border_style);
        assert(self@ =~= old(self)@ + border_style_writes(border_style.keyword()));
    }

    /// Sets the background colour.
    pub fn set_background_color(&mut self, rgba: &Rgba)
        ensures
            final(self)@ == old(self)@.push(("background-color"@, rgba_css(*rgba))),
    {
        self.set_color_impl("background-color", rgba);
    }

    /// Sets the background to a gradient.
    pub fn set_background_gradation(&mut self, gradation: &Gradation)
        ensures
            final(self)@ == old(self)@.push(("background"@, gradation_css(*gradation))),
    {
        let css = gradation.to_css();
        self.set_by_name_impl("background", css.as_str());
    }

    /// Sets the box shadow.
    pub fn set_background_shadow(&mut self, dx: &str, dy: &str, blur_radius: &str, rgba: &Rgba)
        ensures
            final(self)@ == old(self)@.push(("box-shadow"@, shadow_value(dx@, dy@, blur_radius@, *rgba))),
    {
        self.set_shadow_impl("box-shadow", dx, dy, blur_radius, rgba);
    }

    /// Clips the background to the text: the background shows through transparent
    /// letters, with no text shadow.
    pub fn set_background_textclip(&mut self)
        ensures
            final(self)@ == old(self)@ + textclip_writes(),
    {
        self.set_by_name_impl("background-clip", "text");
        self.set_by_name_impl("-webkit-background-clip", "text");
        self.set_by_name_impl("color", "transparent");
        self.set_by_name_impl("text-shadow", "none");
        assert(self@ =~= old(self)@ + textclip_writes());
    }

    /// Sets the left padding to a CSS length.
    pub fn set_padding_left(&mut self, length: &str)
        ensures
            final(self)@ == old(self)@.push(("padding-left"@, length@)),
    {
        self.set_by_name_impl("padding-left", length);
    }

    /// Sets the right padding to a CSS length.
    pub fn set_padding_right(&mut self, length: &str)
        ensures
            final(self)@ == old(self)@.push(("padding-right"@, length@)),
    {
        self.set_by_name_impl("padding-right", length);
    }

    /// Sets the top padding to a CSS length.
    pub fn set_padding_top(&mut self, length: &str)
        ensures
            final(self)@ == old(self)@.push(("padding-top"@, length@)),
    {
        self.set_by_name_impl("padding-top", length);
    }

    /// Sets the bottom padding to a CSS length.
    pub fn set_padding_bottom(&mut self, length: &str)
        ensures
            final(self)@ == old(self)@.push(("padding-bottom"@, length@)),
    {
        self.set_by_name_impl("padding-bottom", length);
    }

    /// Sets the colour of the left border.
    pub fn set_border_left_color(&mut self, rgba: &Rgba)
        ensures
            final(self)@ == old(self)@.push(("border-left-color"@, rgba_css(*rgba))),
    {
        self.set_color_impl("border-left-color", rgba);
    }

    /// Sets the width of the left border to a CSS length.
    pub fn set_border_left_width(&mut self, length: &str)
        ensures
            final(self)@ == old(self)@.push(("border-left-width"@, length@)),
    {
        self.set_by_name_impl("border-left-width", length);
    }

    /// Sets the line style of the left border.
    pub fn set_border_left_style(&mut self, border_style: BorderStyle)
        ensures
            final(self)@ == old(self)@.push(("border-left-style"@, border_style.keyword())),
    {
        self.set_by_name_impl("border-left-style", border_style.value());
    }

    /// Sets the colour of the right border.
    pub fn set_border_right_color(&mut self, rgba: &Rgba)
        ensures
            final(self)@ == old(self)@.push(("border-right-color"@, rgba_css(*rgba))),
    {
        self.set_color_impl("border-right-color", rgba);
    }

    /// Sets the width of the right border to a CSS length.
    pub fn set_border_right_width(&mut self, length: &str)
        ensures
            final(self)@ == old(self)@.push(("border-right-width"@, length@)),
    {
        self.set_by_name_impl("border-right-width", length);
    }

    /// Sets the line style of the right border.
    pub fn set_border_right_style(&mut self, border_style: BorderStyle)
        ensures
            final(self)@ == old(self)@.push(("border-right-style"@, border_style.keyword())),
    {
        self.set_by_name_impl("border-right-style", border_style.value());
    }

    /// Sets the colour of the top border.
    pub fn set_border_top_color(&mut self, rgba: &Rgba)
        ensures
            final(self)@ == old(self)@.push(("border-top-color"@, rgba_css(*rgba))),
    {
        self.set_color_impl("border-top-color", rgba);
    }

    /// Sets the width of the top border to a CSS length.
    pub fn set_border_top_width(&mut self, length: &str)
        ensures
            final(self)@ == old(self)@.push(("border-top-width"@, length@)),
    {
        self.set_by_name_impl("border-top-width", length);
    }

    /// Sets the line style of the top border.
    pub fn set_border_top_style(&mut self, border_style: BorderStyle)
        ensures
            final(self)@ == old(self)@.push(("border-top-style"@, border_style.keyword())),
    {
        self.set_by_name_impl("border-top-style", border_style.value());
    }

    /// Sets the colour of the bottom border.
    pub fn set_border_bottom_color(&mut self, rgba: &Rgba)
        ensures
            final(self)@ == old(self)@.push(("border-bottom-color"@, rgba_css(*rgba))),
    {
        self.set_color_impl("border-bottom-color", rgba);
    }

    /// Sets the width of the bottom border to a CSS length.
    pub fn set_border_bottom_width(&mut self, length: &str)
        ensures
            final(self)@ == old(self)@.push(("border-bottom-width"@, length@)),
    {
        self.set_by_name_impl("border-bottom-width", length);
    }

    /// Sets the line style of the bottom border.
    pub fn set_border_bottom_style(&mut self, border_style: BorderStyle)
        ensures
            final(self)@ == old(self)@.push(("border-bottom-style"@, border_style.keyword())),
    {
        self.set_by_name_impl("border-bottom-style", border_style.value());
    }
}

} // verus!
