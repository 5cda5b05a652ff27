//! What a CSS declaration does to a style. A rule's declarations and an
//! element's inline `style` attribute are read by property name into
//! effects; colours, keywords, URLs and grid placements are read here, and
//! lengths, numbers, track lists and transitions are handed on as text for
//! the renderer, which reads them as floating-point numbers.
use vstd::prelude::*;
use crate::css::style_engine::{
    align_items_of, border_style_of, color_of, display_of, flex_direction_of, font_weight_of, grid_placement_of,
    justify_content_of, parse_align_items, parse_border_style, parse_color, parse_display,
    parse_flex_direction, parse_font_weight, parse_grid_placement, parse_inline_display, parse_inline_font_weight,
    parse_justify_content, parse_position, parse_url, position_of, url_value, weight_number, ParsedColor,
};
use crate::css::stylesheet::first_index;
use crate::css::{AlignItems, BorderStyle, DisplayType, FlexDirection, GridPlacement, JustifyContent, PositionType};
use crate::text::{
    has_prefix, has_sub, lowercase, str_contains, str_eq, str_starts_with, split_ws, sub_string, to_lower,
    to_owned_string, trim, trimmed, ws_tokens,
};

verus! {

/// The properties whose value is handed on as text.
#[derive(Debug, Clone, Copy, PartialEq, Eq, Structural)]
pub enum TextProp {
    /// `font-size`, a length in pixels.
    FontSize,
    /// `font-family`, kept as written.
    FontFamily,
    /// `line-height`, a number.
    LineHeight,
    /// `margin`: all four edges, a length in pixels.
    Margin,
    MarginTop,
    MarginBottom,
    PaddingTop,
    PaddingRight,
    PaddingBottom,
    PaddingLeft,
    /// Sizes read as CSS values (a length with its unit, a percentage or a
    /// keyword).
    Width,
    Height,
    MaxWidth,
    MaxHeight,
    MinWidth,
    MinHeight,
    /// Sizes of an inline `style` attribute, read as pixels.
    WidthPx,
    HeightPx,
    /// All four corners, a length in pixels.
    BorderRadius,
    /// Kept as written.
    BoxShadow,
    /// A track list.
    GridTemplateColumns,
    GridTemplateRows,
    /// Gaps in pixels; `Gap` sets both.
    ColumnGap,
    RowGap,
    Gap,
    /// A `transition` list.
    Transition,
    /// All four border widths, a length in pixels.
    BorderWidth,
    /// One word of the `border` shorthand: a width, a colour or a style,
    /// whichever it reads as first.
    BorderPart,
}

/// What one declaration does to a style.
#[derive(Debug, Clone)]
pub enum StyleEffect {
    /// Record a custom property (`--name`), under its name as written.
    Custom { name: String, value: String },
    /// Record a value that refers to a custom property (`var(...)`).
    Raw { name: String, value: String },
    /// A value the renderer reads itself.
    Text(TextProp, String),
    /// Padding of the four edges; applied only if all four read as lengths.
    Padding { top: String, right: String, bottom: String, left: String },
    Color(ParsedColor),
    BackgroundColor(ParsedColor),
    BorderColor(ParsedColor),
    BackgroundImage(String),
    FontWeight(u16),
    AlignItems(AlignItems),
    JustifyContent(JustifyContent),
    FlexDirection(FlexDirection),
    Display(DisplayType),
    Position(PositionType),
    /// Set the placement (also to none).
    GridColumn(Option<GridPlacement>),
    GridRow(Option<GridPlacement>),
    /// Set the border style (also to none).
    BorderStyle(Option<BorderStyle>),
}

/// An effect by its text.
pub enum EffectView {
    Custom(Seq<char>, Seq<char>),
    Raw(Seq<char>, Seq<char>),
    Text(TextProp, Seq<char>),
    Padding(Seq<char>, Seq<char>, Seq<char>, Seq<char>),
    Color(ParsedColor),
    BackgroundColor(ParsedColor),
    BorderColor(ParsedColor),
    BackgroundImage(Seq<char>),
    FontWeight(u16),
    AlignItems(AlignItems),
    JustifyContent(JustifyContent),
    FlexDirection(FlexDirection),
    Display(DisplayType),
    Position(PositionType),
    GridColumn(Option<u16>),
    GridRow(Option<u16>),
    BorderStyle(Option<BorderStyle>),
}

/// A placement by its span.
pub open spec fn span_of(p: Option<GridPlacement>) -> Option<u16> {
    match p {
        Some(g) => Some(g.span),
        None => None,
    }
}

impl View for StyleEffect {
    type V = EffectView;

    open spec fn view(&self) -> EffectView {
        match self {
            StyleEffect::Custom { name, value } => EffectView::Custom(name@, value@),
            StyleEffect::Raw { name, value } => EffectView::Raw(name@, value@),
            StyleEffect::Text(p, v) => EffectView::Text(*p, v@),
            StyleEffect::Padding { top, right, bottom, left } => EffectView::Padding(
                top@,
                right@,
                bottom@,
                left@,
            ),
            StyleEffect::Color(c) => EffectView::Color(*c),
            StyleEffect::BackgroundColor(c) => EffectView::BackgroundColor(*c),
            StyleEffect::BorderColor(c) => EffectView::BorderColor(*c),
            StyleEffect::BackgroundImage(u) => EffectView::BackgroundImage(u@),
            StyleEffect::FontWeight(w) => EffectView::FontWeight(*w),
            StyleEffect::AlignItems(a) => EffectView::AlignItems(*a),
            StyleEffect::JustifyContent(j) => EffectView::JustifyContent(*j),
            StyleEffect::FlexDirection(f) => EffectView::FlexDirection(*f),
            StyleEffect::Display(d) => EffectView::Display(*d),
            StyleEffect::Position(p) => EffectView::Position(*p),
            StyleEffect::GridColumn(p) => EffectView::GridColumn(span_of(*p)),
            StyleEffect::GridRow(p) => EffectView::GridRow(span_of(*p)),
            StyleEffect::BorderStyle(s) => EffectView::BorderStyle(*s),
        }
    }
}

/// Effects by their text.
pub open spec fn effects_view(v: Seq<StyleEffect>) -> Seq<EffectView> {
    v.map_values(|e: StyleEffect| e@)
}

/// Whether the property (lowercased) takes a colour and the value is one
/// whose hex digits cannot be cut out (reading it would panic).
pub open spec fn bad_color(pl: Seq<char>, value: Seq<char>) -> bool {
    (pl == "color"@ || pl == "background-color"@ || pl == "background"@ || pl == "border-color"@)
        && color_of(value) is None
}

/// The effect of a colour value read into `f`: none when it is no colour.
pub open spec fn color_effect(value: Seq<char>, which: int) -> Seq<EffectView> {
    match color_of(value) {
        Some(Some(c)) => seq![
            if which == 0 {
                EffectView::Color(c)
            } else if which == 1 {
                EffectView::BackgroundColor(c)
            } else {
                EffectView::BorderColor(c)
            },
        ],
        _ => Seq::empty(),
    }
}

/// The `border` shorthand: one effect per whitespace-separated word.
pub open spec fn border_parts(value: Seq<char>) -> Seq<EffectView> {
    ws_tokens(value).map_values(|p: Seq<char>| EffectView::Text(TextProp::BorderPart, p))
}

/// The `padding` of a rule: one, two (vertical, horizontal) or four
/// (top, right, bottom, left) lengths; other counts do nothing.
pub open spec fn padding_effect(value: Seq<char>) -> Seq<EffectView> {
    let w = ws_tokens(value);
    if w.len() == 1 {
        seq![EffectView::Padding(w[0], w[0], w[0], w[0])]
    } else if w.len() == 2 {
        seq![EffectView::Padding(w[0], w[1], w[0], w[1])]
    } else if w.len() == 4 {
        seq![EffectView::Padding(w[0], w[1], w[2], w[3])]
    } else {
        Seq::empty()
    }
}

/// One effect handing the value on as text.
pub open spec fn text_effect(p: TextProp, value: Seq<char>) -> Seq<EffectView> {
    seq![EffectView::Text(p, value)]
}

/// The effect of a known property (lowercased `pl`) of a rule.
pub open spec fn rule_effect(pl: Seq<char>, value: Seq<char>) -> Option<Seq<EffectView>> {
    if pl == "color"@ {
        Some(color_effect(value, 0))
    } else if pl == "background-color"@ || pl == "background"@ {
        match color_of(value) {
            Some(Some(c)) => Some(seq![EffectView::BackgroundColor(c)]),
            _ => match url_value(value) {
                Some(u) => Some(seq![EffectView::BackgroundImage(u)]),
                None => Some(Seq::empty()),
            },
        }
    } else if pl == "font-size"@ {
        Some(text_effect(TextProp::FontSize, value))
    } else if pl == "font-weight"@ {
        Some(seq![EffectView::FontWeight(font_weight_of(value))])
    } else if pl == "font-family"@ {
        Some(text_effect(TextProp::FontFamily, value))
    } else if pl == "line-height"@ {
        Some(text_effect(TextProp::LineHeight, value))
    } else if pl == "margin"@ {
        Some(text_effect(TextProp::Margin, value))
    } else if pl == "margin-top"@ {
        Some(text_effect(TextProp::MarginTop, value))
    } else if pl == "margin-bottom"@ {
        Some(text_effect(TextProp::MarginBottom, value))
    } else if pl == "padding"@ {
        Some(padding_effect(value))
    } else if pl == "padding-top"@ {
        Some(text_effect(TextProp::PaddingTop, value))
    } else if pl == "padding-bottom"@ {
        Some(text_effect(TextProp::PaddingBottom, value))
    } else if pl == "padding-left"@ {
        Some(text_effect(TextProp::PaddingLeft, value))
    } else if pl == "padding-right"@ {
        Some(text_effect(TextProp::PaddingRight, value))
    } else if pl == "width"@ {
        Some(text_effect(TextProp::Width, value))
    } else if pl == "height"@ {
        Some(text_effect(TextProp::Height, value))
    } else if pl == "max-width"@ {
        Some(text_effect(TextProp::MaxWidth, value))
    } else if pl == "max-height"@ {
        Some(text_effect(TextProp::MaxHeight, value))
    } else if pl == "min-width"@ {
        Some(text_effect(TextProp::MinWidth, value))
    } else if pl == "min-height"@ {
        Some(text_effect(TextProp::MinHeight, value))
    } else {
        rule_effect_layout(pl, value)
    }
}

/// The effect of a layout, grid or border property (lowercased) of a rule.
pub open spec fn rule_effect_layout(pl: Seq<char>, value: Seq<char>) -> Option<Seq<EffectView>> {
    if pl == "align-items"@ {
        Some(
            match align_items_of(value) {
                Some(a) => seq![EffectView::AlignItems(a)],
                None => Seq::empty(),
            },
        )
    } else if pl == "justify-content"@ {
        Some(
            match justify_content_of(value) {
                Some(j) => seq![EffectView::JustifyContent(j)],
                None => Seq::empty(),
            },
        )
    } else if pl == "flex-direction"@ {
        Some(
            match flex_direction_of(value) {
                Some(f) => seq![EffectView::FlexDirection(f)],
                None => Seq::empty(),
            },
        )
    } else if pl == "display"@ {
        Some(
            match display_of(value) {
                Some(d) => seq![EffectView::Display(d)],
                None => Seq::empty(),
            },
        )
    } else if pl == "position"@ {
        Some(
            match position_of(value) {
                Some(p) => seq![EffectView::Position(p)],
                None => Seq::empty(),
            },
        )
    } else if pl == "border-radius"@ {
        Some(text_effect(TextProp::BorderRadius, value))
    } else if pl == "box-shadow"@ {
        Some(text_effect(TextProp::BoxShadow, value))
    } else if pl == "grid-template-columns"@ {
        Some(text_effect(TextProp::GridTemplateColumns, value))
    } else if pl == "grid-template-rows"@ {
        Some(text_effect(TextProp::GridTemplateRows, value))
    } else if pl == "column-gap"@ || pl == "grid-column-gap"@ {
        Some(text_effect(TextProp::ColumnGap, value))
    } else if pl == "row-gap"@ || pl == "grid-row-gap"@ {
        Some(text_effect(TextProp::RowGap, value))
    } else if pl == "gap"@ {
        Some(text_effect(TextProp::Gap, value))
    } else if pl == "grid-column"@ {
        Some(seq![EffectView::GridColumn(grid_placement_of(value))])
    } else if pl == "grid-row"@ {
        Some(seq![EffectView::GridRow(grid_placement_of(value))])
    } else if pl == "transition"@ {
        Some(text_effect(TextProp::Transition, value))
    } else if pl == "background-image"@ {
        Some(
            match url_value(value) {
                Some(u) => seq![EffectView::BackgroundImage(u)],
                None => Seq::empty(),
            },
        )
    } else if pl == "border-width"@ {
        Some(text_effect(TextProp::BorderWidth, value))
    } else if pl == "border-color"@ {
        Some(color_effect(value, 2))
    } else if pl == "border-style"@ {
        Some(seq![EffectView::BorderStyle(border_style_of(value))])
    } else if pl == "border"@ {
        Some(border_parts(value))
    } else {
        None
    }
}

/// The effects of the declaration `prop: value` of a rule. A custom
/// property (`--name`) is only recorded; a value using `var(` is also
/// recorded (under the lowercased name, and under the name as written when
/// the property is unknown); a known property then sets its field.
pub open spec fn rule_effects(prop: Seq<char>, value: Seq<char>) -> Seq<EffectView> {
    let pl = lowercase(prop);
    if has_prefix(pl, "--"@) {
        seq![EffectView::Custom(prop, value)]
    } else {
        let pre = if has_sub(value, "var("@) {
            seq![EffectView::Raw(pl, value)]
        } else {
            Seq::empty()
        };
        pre + match rule_effect(pl, value) {
            Some(e) => e,
            None => if has_prefix(prop, "--"@) {
                seq![EffectView::Custom(prop, value)]
            } else if has_sub(value, "var("@) {
                seq![EffectView::Raw(prop, value)]
            } else {
                Seq::empty()
            },
        }
    }
}

/// Whether reading the declaration of a rule would panic.
pub open spec fn rule_panics(prop: Seq<char>, value: Seq<char>) -> bool {
    let pl = lowercase(prop);
    !has_prefix(pl, "--"@) && bad_color(pl, value)
}

/// A single effect.
fn one(e: StyleEffect) -> (r: Vec<StyleEffect>)
    ensures
        effects_view(r@) == seq![e@],
{
    let mut v: Vec<StyleEffect> = Vec::new();
    v.push(e);
    assert(effects_view(v@) =~= seq![e@]);
    v
}

/// No effect.
fn none() -> (r: Vec<StyleEffect>)
    ensures
        effects_view(r@) == Seq::<EffectView>::empty(),
{
    let v: Vec<StyleEffect> = Vec::new();
    assert(effects_view(v@) =~= Seq::<EffectView>::empty());
    v
}

/// The value handed on as text.
fn text(p: TextProp, value: &str) -> (r: Vec<StyleEffect>)
    ensures
        effects_view(r@) == text_effect(p, value@),
{
    one(StyleEffect::Text(p, to_owned_string(value)))
}

/// A colour effect (see `color_effect`).
fn color(value: &str, which: u8) -> (r: Vec<StyleEffect>)
    requires
        color_of(value@) is Some,
    ensures
        effects_view(r@) == color_effect(value@, which as int),
{
    match parse_color(value) {
        Some(c) => if which == 0 {
            one(StyleEffect::Color(c))
        } else if which == 1 {
            one(StyleEffect::BackgroundColor(c))
        } else {
            one(StyleEffect::BorderColor(c))
        },
        None => none(),
    }
}

/// The words of the `border` shorthand (see `border_parts`).
fn border(value: &str) -> (r: Vec<StyleEffect>)
    ensures
        effects_view(r@) == border_parts(value@),
{
    let words = split_ws(value);
    let mut out: Vec<StyleEffect> = Vec::new();
    let mut i: usize = 0;
    while i < words.len()
        invariant
            i <= words@.len(),
            words@.len() == ws_tokens(value@).len(),
            forall|k: int| 0 <= k < words@.len() ==> (#[trigger] words@[k])@ == ws_tokens(value@)[k],
            effects_view(out@) == border_parts(value@).take(i as int),
        decreases words@.len() - i,
    {
        let ghost before = out@;
        out.push(StyleEffect::Text(TextProp::BorderPart, to_owned_string(words[i].as_str())));
        assert(effects_view(out@) =~= effects_view(before).push(
            EffectView::Text(TextProp::BorderPart, words@[i as int]@),
        ));
        assert(border_parts(value@).take(i + 1) =~= border_parts(value@).take(i as int).push(
            border_parts(value@)[i as int],
        ));
        i += 1;
    }
    assert(border_parts(value@).take(words@.len() as int) =~= border_parts(value@));
    out
}

/// The `padding` of a rule (see `padding_effect`).
fn padding(value: &str) -> (r: Vec<StyleEffect>)
    ensures
        effects_view(r@) == padding_effect(value@),
{
    let w = split_ws(value);
    let ghost t = ws_tokens(value@);
    if w.len() == 1 {
        assert(w@[0]@ == t[0]);
        one(StyleEffect::Padding {
            top: to_owned_string(w[0].as_str()),
            right: to_owned_string(w[0].as_str()),
            bottom: to_owned_string(w[0].as_str()),
            left: to_owned_string(w[0].as_str()),
        })
    } else if w.len() == 2 {
        assert(w@[0]@ == t[0]);
        assert(w@[1]@ == t[1]);
        one(StyleEffect::Padding {
            top: to_owned_string(w[0].as_str()),
            right: to_owned_string(w[1].as_str()),
            bottom: to_owned_string(w[0].as_str()),
            left: to_owned_string(w[1].as_str()),
        })
    } else if w.len() == 4 {
        assert(w@[0]@ == t[0]);
        assert(w@[1]@ == t[1]);
        assert(w@[2]@ == t[2]);
        assert(w@[3]@ == t[3]);
        one(StyleEffect::Padding {
            top: to_owned_string(w[0].as_str()),
            right: to_owned_string(w[1].as_str()),
            bottom: to_owned_string(w[2].as_str()),
            left: to_owned_string(w[3].as_str()),
        })
    } else {
        none()
    }
}

/// The effect of a known property of a rule (see `rule_effect`).
fn rule_effect_exec(pl: &str, value: &str) -> (r: Option<Vec<StyleEffect>>)
    requires
        !bad_color(pl@, value@),
    ensures
        match r {
            Some(v) => rule_effect(pl@, value@) == Some(effects_view(v@)),
            None => rule_effect(pl@, value@) is None,
        },
{
    if str_eq(pl, "color") {
        Some(color(value, 0))
    } else if str_eq(pl, "background-color") || str_eq(pl, "background") {
        match parse_color(value) {
            Some(c) => Some(one(StyleEffect::BackgroundColor(c))),
            None => match parse_url(value) {
                Some(u) => Some(one(StyleEffect::BackgroundImage(u))),
                None => Some(none()),
            },
        }
    } else if str_eq(pl, "font-size") {
        Some(text(TextProp::FontSize, value))
    } else if str_eq(pl, "font-weight") {
        Some(one(StyleEffect::FontWeight(parse_font_weight(value))))
    } else if str_eq(pl, "font-family") {
        Some(text(TextProp::FontFamily, value))
    } else if str_eq(pl, "line-height") {
        Some(text(TextProp::LineHeight, value))
    } else if str_eq(pl, "margin") {
        Some(text(TextProp::Margin, value))
    } else if str_eq(pl, "margin-top") {
        Some(text(TextProp::MarginTop, value))
    } else if str_eq(pl, "margin-bottom") {
        Some(text(TextProp::MarginBottom, value))
    } else if str_eq(pl, "padding") {
        Some(padding(value))
    } else if str_eq(pl, "padding-top") {
        Some(text(TextProp::PaddingTop, value))
    } else if str_eq(pl, "padding-bottom") {
        Some(text(TextProp::PaddingBottom, value))
    } else if str_eq(pl, "padding-left") {
        Some(text(TextProp::PaddingLeft, value))
    } else if str_eq(pl, "padding-right") {
        Some(text(TextProp::PaddingRight, value))
    } else if str_eq(pl, "width") {
        Some(text(TextProp::Width, value))
    } else if str_eq(pl, "height") {
        Some(text(TextProp::Height, value))
    } else if str_eq(pl, "max-width") {
        Some(text(TextProp::MaxWidth, value))
    } else if str_eq(pl, "max-height") {
        Some(text(TextProp::MaxHeight, value))
    } else if str_eq(pl, "min-width") {
        Some(text(TextProp::MinWidth, value))
    } else if str_eq(pl, "min-height") {
        Some(text(TextProp::MinHeight, value))
    } else {
        rule_effect_layout_exec(pl, value)
    }
}

/// The effect of a layout, grid or border property of a rule (see
/// `rule_effect_layout`).
fn rule_effect_layout_exec(pl: &str, value: &str) -> (r: Option<Vec<StyleEffect>>)
    requires
        !bad_color(pl@, value@),
    ensures
        match r {
            Some(v) => rule_effect_layout(pl@, value@) == Some(effects_view(v@)),
            None => rule_effect_layout(pl@, value@) is None,
        },
{
    if str_eq(pl, "align-items") {
        Some(
            match parse_align_items(value) {
                Some(a) => one(StyleEffect::AlignItems(a)),
                None => none(),
            },
        )
    } else if str_eq(pl, "justify-content") {
        Some(
            match parse_justify_content(value) {
                Some(j) => one(StyleEffect::JustifyContent(j)),
                None => none(),
            },
        )
    } else if str_eq(pl, "flex-direction") {
        Some(
            match parse_flex_direction(value) {
                Some(f) => one(StyleEffect::FlexDirection(f)),
                None => none(),
            },
        )
    } else if str_eq(pl, "display") {
        Some(
            match parse_display(value) {
                Some(d) => one(StyleEffect::Display(d)),
                None => none(),
            },
        )
    } else if str_eq(pl, "position") {
        Some(
            match parse_position(value) {
                Some(p) => one(StyleEffect::Position(p)),
                None => none(),
            },
        )
    } else if str_eq(pl, "border-radius") {
        Some(text(TextProp::BorderRadius, value))
    } else if str_eq(pl, "box-shadow") {
        Some(text(TextProp::BoxShadow, value))
    } else if str_eq(pl, "grid-template-columns") {
        Some(text(TextProp::GridTemplateColumns, value))
    } else if str_eq(pl, "grid-template-rows") {
        Some(text(TextProp::GridTemplateRows, value))
    } else if str_eq(pl, "column-gap") || str_eq(pl, "grid-column-gap") {
        Some(text(TextProp::ColumnGap, value))
    } else if str_eq(pl, "row-gap") || str_eq(pl, "grid-row-gap") {
        Some(text(TextProp::RowGap, value))
    } else if str_eq(pl, "gap") {
        Some(text(TextProp::Gap, value))
    } else if str_eq(pl, "grid-column") {
        Some(one(StyleEffect::GridColumn(parse_grid_placement(value))))
    } else if str_eq(pl, "grid-row") {
        Some(one(StyleEffect::GridRow(parse_grid_placement(value))))
    } else if str_eq(pl, "transition") {
        Some(text(TextProp::Transition, value))
    } else if str_eq(pl, "background-image") {
        Some(
            match parse_url(value) {
                Some(u) => one(StyleEffect::BackgroundImage(u)),
                None => none(),
            },
        )
    } else if str_eq(pl, "border-width") {
        Some(text(TextProp::BorderWidth, value))
    } else if str_eq(pl, "border-color") {
        Some(color(value, 2))
    } else if str_eq(pl, "border-style") {
        Some(one(StyleEffect::BorderStyle(parse_border_style(value))))
    } else if str_eq(pl, "border") {
        Some(border(value))
    } else {
        None
    }
}

/// Whether reading the declaration `prop: value` of a rule would cut a hex
/// colour inside a character (the declarations `declaration_effects` does
/// not accept).
pub fn declaration_panics(prop: &str, value: &str) -> (r: bool)
    ensures
        r == rule_panics(prop@, value@),
{
    let l = to_lower(prop);
    let pl = l.as_str();
    if str_starts_with(pl, "--") {
        return false;
    }
    let colorful = str_eq(pl, "color") || str_eq(pl, "background-color") || str_eq(pl, "background")
        || str_eq(pl, "border-color");
    colorful && crate::css::style_engine::color_parse_panics(value)
}

/// The effects of the declaration `prop: value` of a rule, in the order
/// they apply (see `rule_effects`).
pub fn declaration_effects(prop: &str, value: &str) -> (r: Vec<StyleEffect>)
    requires
        !rule_panics(prop@, value@),
    ensures
        effects_view(r@) == rule_effects(prop@, value@),
{
    let l = to_lower(prop);
    let pl = l.as_str();
    if str_starts_with(pl, "--") {
        return one(StyleEffect::Custom { name: to_owned_string(prop), value: to_owned_string(value) });
    }
    let mut out: Vec<StyleEffect> = Vec::new();
    if str_contains(value, "var(") {
        out.push(StyleEffect::Raw { name: to_owned_string(pl), value: to_owned_string(value) });
    }
    let ghost pre = effects_view(out@);
    let main = match rule_effect_exec(pl, value) {
        Some(v) => v,
        None => if str_starts_with(prop, "--") {
            one(StyleEffect::Custom { name: to_owned_string(prop), value: to_owned_string(value) })
        } else if str_contains(value, "var(") {
            one(StyleEffect::Raw { name: to_owned_string(prop), value: to_owned_string(value) })
        } else {
            none()
        },
    };
    let ghost tail = effects_view(main@);
    let mut main = main;
    out.append(&mut main);
    assert(effects_view(out@) =~= pre + tail);
    out
}

/// The `font-weight` of an inline `style` attribute (see
/// `parse_inline_font_weight`).
pub open spec fn inline_weight(v: Seq<char>) -> u16 {
    if v == "bold"@ || v == "700"@ {
        700
    } else if v == "normal"@ || v == "400"@ {
        400
    } else {
        weight_number(v)
    }
}

/// The `display` of an inline `style` attribute (see
/// `parse_inline_display`).
pub open spec fn inline_display(v: Seq<char>) -> Option<DisplayType> {
    if v == "inline-flex"@ {
        None
    } else {
        display_of(v)
    }
}

/// The effect of one declaration (property lowercased, both trimmed) of an
/// inline `style` attribute. Unlike a rule, it sets only what reads:
/// placements and border styles that do not read leave the style alone,
/// sizes are pixels, and `padding` is one length for all four edges.
pub open spec fn inline_effect(pl: Seq<char>, v: Seq<char>) -> Seq<EffectView> {
    if pl == "color"@ {
        color_effect(v, 0)
    } else if pl == "background-color"@ || pl == "background"@ {
        color_effect(v, 1)
    } else if pl == "font-size"@ {
        text_effect(TextProp::FontSize, v)
    } else if pl == "font-weight"@ {
        seq![EffectView::FontWeight(inline_weight(v))]
    } else if pl == "margin"@ {
        text_effect(TextProp::Margin, v)
    } else if pl == "margin-top"@ {
        text_effect(TextProp::MarginTop, v)
    } else if pl == "margin-bottom"@ {
        text_effect(TextProp::MarginBottom, v)
    } else if pl == "padding"@ {
        seq![EffectView::Padding(v, v, v, v)]
    } else if pl == "display"@ {
        match inline_display(v) {
            Some(d) => seq![EffectView::Display(d)],
            None => Seq::empty(),
        }
    } else if pl == "width"@ {
        text_effect(TextProp::WidthPx, v)
    } else if pl == "height"@ {
        text_effect(TextProp::HeightPx, v)
    } else {
        inline_effect_more(pl, v)
    }
}

/// The effect of a grid, image or border property of an inline `style`
/// attribute (see `inline_effect`).
pub open spec fn inline_effect_more(pl: Seq<char>, v: Seq<char>) -> Seq<EffectView> {
    if pl == "grid-template-columns"@ {
        text_effect(TextProp::GridTemplateColumns, v)
    } else if pl == "grid-template-rows"@ {
        text_effect(TextProp::GridTemplateRows, v)
    } else if pl == "column-gap"@ || pl == "grid-column-gap"@ {
        text_effect(TextProp::ColumnGap, v)
    } else if pl == "row-gap"@ || pl == "grid-row-gap"@ {
        text_effect(TextProp::RowGap, v)
    } else if pl == "gap"@ {
        text_effect(TextProp::Gap, v)
    } else if pl == "grid-column"@ {
        match grid_placement_of(v) {
            Some(n) => seq![EffectView::GridColumn(Some(n))],
            None => Seq::empty(),
        }
    } else if pl == "grid-row"@ {
        match grid_placement_of(v) {
            Some(n) => seq![EffectView::GridRow(Some(n))],
            None => Seq::empty(),
        }
    } else if pl == "background-image"@ {
        match url_value(v) {
            Some(u) => seq![EffectView::BackgroundImage(u)],
            None => Seq::empty(),
        }
    } else if pl == "border-width"@ {
        text_effect(TextProp::BorderWidth, v)
    } else if pl == "border-color"@ {
        color_effect(v, 2)
    } else if pl == "border-style"@ {
        match border_style_of(v) {
            Some(b) => seq![EffectView::BorderStyle(Some(b))],
            None => Seq::empty(),
        }
    } else if pl == "border"@ {
        border_parts(v)
    } else if pl == "transition"@ {
        text_effect(TextProp::Transition, v)
    } else {
        Seq::empty()
    }
}

/// The declaration one `;`-separated part of an inline `style` attribute
/// holds: the lowercased trimmed text before the first `:`, and the trimmed
/// rest; none for a blank part or one without `:`.
pub open spec fn inline_decl(part: Seq<char>) -> Option<(Seq<char>, Seq<char>)> {
    let d = trimmed(part);
    if d.len() == 0 {
        None
    } else {
        match first_index(d, ':') {
            Some(k) => Some(
                (lowercase(trimmed(d.subrange(0, k))), trimmed(d.subrange(k + 1, d.len() as int))),
            ),
            None => None,
        }
    }
}

/// The effects of one part of an inline `style` attribute.
pub open spec fn inline_part(part: Seq<char>) -> Seq<EffectView> {
    match inline_decl(part) {
        Some((pl, v)) => inline_effect(pl, v),
        None => Seq::empty(),
    }
}

/// Whether reading one part of an inline `style` attribute would panic.
pub open spec fn inline_part_panics(part: Seq<char>) -> bool {
    match inline_decl(part) {
        Some((pl, v)) => bad_color(pl, v),
        None => false,
    }
}

/// Reading an inline `style` attribute: the part being read, the effects
/// so far, and whether a part read so far panics.
pub struct InlineState {
    pub cur: Seq<char>,
    pub effects: Seq<EffectView>,
    pub panics: bool,
}

/// The state after reading `c`; each `;` ends a part.
pub open spec fn inline_run(c: Seq<char>) -> InlineState
    decreases c.len(),
{
    if c.len() == 0 {
        InlineState { cur: Seq::empty(), effects: Seq::empty(), panics: false }
    } else {
        let st = inline_run(c.drop_last());
        if c.last() == ';' {
            InlineState {
                cur: Seq::empty(),
                effects: st.effects + inline_part(st.cur),
                panics: st.panics || inline_part_panics(st.cur),
            }
        } else {
            InlineState { cur: st.cur.push(c.last()), effects: st.effects, panics: st.panics }
        }
    }
}

/// The effects of an inline `style` attribute, part by part in order.
pub open spec fn inline_effects_of(s: Seq<char>) -> Seq<EffectView> {
    inline_run(s).effects + inline_part(inline_run(s).cur)
}

/// Whether reading an inline `style` attribute would panic.
pub open spec fn inline_panics(s: Seq<char>) -> bool {
    inline_run(s).panics || inline_part_panics(inline_run(s).cur)
}

/// Once a part panics, reading on does not undo it.
proof fn lemma_panics_stay(s: Seq<char>, i: int)
    requires
        0 <= i <= s.len(),
        inline_run(s.take(i)).panics,
    ensures
        inline_run(s).panics,
    decreases s.len() - i,
{
    if i < s.len() {
        assert(s.take(i + 1).drop_last() =~= s.take(i));
        assert(inline_run(s.take(i + 1)).panics);
        lemma_panics_stay(s, i + 1);
    } else {
        assert(s.take(i) =~= s);
    }
}

/// The effect of one inline declaration (see `inline_effect`).
fn inline_effect_exec(pl: &str, v: &str) -> (r: Vec<StyleEffect>)
    requires
        !bad_color(pl@, v@),
    ensures
        effects_view(r@) == inline_effect(pl@, v@),
{
    if str_eq(pl, "color") {
        color(v, 0)
    } else if str_eq(pl, "background-color") || str_eq(pl, "background") {
        color(v, 1)
    } else if str_eq(pl, "font-size") {
        text(TextProp::FontSize, v)
    } else if str_eq(pl, "font-weight") {
        one(StyleEffect::FontWeight(parse_inline_font_weight(v)))
    } else if str_eq(pl, "margin") {
        text(TextProp::Margin, v)
    } else if str_eq(pl, "margin-top") {
        text(TextProp::MarginTop, v)
    } else if str_eq(pl, "margin-bottom") {
        text(TextProp::MarginBottom, v)
    } else if str_eq(pl, "padding") {
        one(StyleEffect::Padding {
            top: to_owned_string(v),
            right: to_owned_string(v),
            bottom: to_owned_string(v),
            left: to_owned_string(v),
        })
    } else if str_eq(pl, "display") {
        match parse_inline_display(v) {
            Some(d) => one(StyleEffect::Display(d)),
            None => none(),
        }
    } else if str_eq(pl, "width") {
        text(TextProp::WidthPx, v)
    } else if str_eq(pl, "height") {
        text(TextProp::HeightPx, v)
    } else {
        inline_effect_more_exec(pl, v)
    }
}

/// See `inline_effect_more`.
fn inline_effect_more_exec(pl: &str, v: &str) -> (r: Vec<StyleEffect>)
    requires
        !bad_color(pl@, v@),
    ensures
        effects_view(r@) == inline_effect_more(pl@, v@),
{
    if str_eq(pl, "grid-template-columns") {
        text(TextProp::GridTemplateColumns, v)
    } else if str_eq(pl, "grid-template-rows") {
        text(TextProp::GridTemplateRows, v)
    } else if str_eq(pl, "column-gap") || str_eq(pl, "grid-column-gap") {
        text(TextProp::ColumnGap, v)
    } else if str_eq(pl, "row-gap") || str_eq(pl, "grid-row-gap") {
        text(TextProp::RowGap, v)
    } else if str_eq(pl, "gap") {
        text(TextProp::Gap, v)
    } else if str_eq(pl, "grid-column") {
        match parse_grid_placement(v) {
            Some(p) => one(StyleEffect::GridColumn(Some(p))),
            None => none(),
        }
    } else if str_eq(pl, "grid-row") {
        match parse_grid_placement(v) {
            Some(p) => one(StyleEffect::GridRow(Some(p))),
            None => none(),
        }
    } else if str_eq(pl, "background-image") {
        match parse_url(v) {
            Some(u) => one(StyleEffect::BackgroundImage(u)),
            None => none(),
        }
    } else if str_eq(pl, "border-width") {
        text(TextProp::BorderWidth, v)
    } else if str_eq(pl, "border-color") {
        color(v, 2)
    } else if str_eq(pl, "border-style") {
        match parse_border_style(v) {
            Some(b) => one(StyleEffect::BorderStyle(Some(b))),
            None => none(),
        }
    } else if str_eq(pl, "border") {
        border(v)
    } else if str_eq(pl, "transition") {
        text(TextProp::Transition, v)
    } else {
        none()
    }
}

/// The declaration of one part (see `inline_decl`).
fn inline_decl_exec(part: &Vec<char>) -> (r: Option<(String, String)>)
    ensures
        match r {
            Some(d) => inline_decl(part@) == Some((d.0@, d.1@)),
            None => inline_decl(part@) is None,
        },
{
    let d = trim(crate::text::string_of(part.as_slice()).as_str());
    let dv = crate::text::chars_of(d.as_str());
    let n = dv.len();
    if n == 0 {
        return None;
    }
    match crate::css::stylesheet::find_colon(&dv) {
        None => None,
        Some(k) => {
            let p = to_lower(trim(sub_string(&dv, 0, k).as_str()).as_str());
            let v = trim(sub_string(&dv, k + 1, n).as_str());
            Some((p, v))
        },
    }
}

/// Append the effects of one part.
fn push_inline_part(out: &mut Vec<StyleEffect>, part: &Vec<char>)
    requires
        !inline_part_panics(part@),
    ensures
        effects_view(final(out)@) == effects_view(old(out)@) + inline_part(part@),
{
    let ghost before = effects_view(out@);
    match inline_decl_exec(part) {
        Some((p, v)) => {
            let mut e = inline_effect_exec(p.as_str(), v.as_str());
            let ghost add = effects_view(e@);
            out.append(&mut e);
            assert(effects_view(out@) =~= before + add);
        },
        None => {
            assert(effects_view(out@) =~= before + Seq::<EffectView>::empty());
        },
    }
}

/// Whether one part would panic.
fn inline_part_panics_exec(part: &Vec<char>) -> (r: bool)
    ensures
        r == inline_part_panics(part@),
{
    match inline_decl_exec(part) {
        Some((p, v)) => {
            let pl = p.as_str();
            (str_eq(pl, "color") || str_eq(pl, "background-color") || str_eq(pl, "background")
                || str_eq(pl, "border-color")) && crate::css::style_engine::color_parse_panics(v.as_str())
        },
        None => false,
    }
}

/// Whether reading an inline `style` attribute would cut a hex colour
/// inside a character (the attributes `inline_style_effects` does not
/// accept).
pub fn inline_style_panics(css_text: &str) -> (r: bool)
    ensures
        r == inline_panics(css_text@),
{
    let v = crate::text::chars_of(css_text);
    let mut cur: Vec<char> = Vec::new();
    let mut panics = false;
    let mut i: usize = 0;
    assert(v@.take(0) =~= Seq::<char>::empty());
    while i < v.len()
        invariant
            v@ == css_text@,
            i <= v@.len(),
            cur@ == inline_run(v@.take(i as int)).cur,
            panics == inline_run(v@.take(i as int)).panics,
        decreases v@.len() - i,
    {
        assert(v@.take(i + 1).drop_last() =~= v@.take(i as int));
        if v[i] == ';' {
            let p = inline_part_panics_exec(&cur);
            panics = panics || p;
            cur = Vec::new();
            assert(cur@ =~= Seq::<char>::empty());
        } else {
            cur.push(v[i]);
        }
        i += 1;
    }
    assert(v@.take(v@.len() as int) =~= v@);
    let last = inline_part_panics_exec(&cur);
    panics || last
}

/// The effects of an inline `style` attribute, in the order they apply
/// (see `inline_effects_of`).
pub fn inline_style_effects(css_text: &str) -> (r: Vec<StyleEffect>)
    requires
        !inline_panics(css_text@),
    ensures
        effects_view(r@) == inline_effects_of(css_text@),
{
    let v = crate::text::chars_of(css_text);
    let mut out: Vec<StyleEffect> = Vec::new();
    let mut cur: Vec<char> = Vec::new();
    let mut i: usize = 0;
    assert(v@.take(0) =~= Seq::<char>::empty());
    assert(effects_view(out@) =~= Seq::<EffectView>::empty());
    assert(v@.take(v@.len() as int) =~= v@);
    while i < v.len()
        invariant
            v@ == css_text@,
            i <= v@.len(),
            !inline_panics(v@),
            cur@ == inline_run(v@.take(i as int)).cur,
            effects_view(out@) == inline_run(v@.take(i as int)).effects,
            !inline_run(v@.take(i as int)).panics,
        decreases v@.len() - i,
    {
        assert(v@.take(i + 1).drop_last() =~= v@.take(i as int));
        if v[i] == ';' {
            proof {
                if inline_run(v@.take(i + 1)).panics {
                    lemma_panics_stay(v@, i + 1);
                }
            }
            push_inline_part(&mut out, &cur);
            cur = Vec::new();
            assert(cur@ =~= Seq::<char>::empty());
        } else {
            cur.push(v[i]);
            proof {
                if inline_run(v@.take(i + 1)).panics {
                    lemma_panics_stay(v@, i + 1);
                }
            }
        }
        i += 1;
    }
    push_inline_part(&mut out, &cur);
    out
}

/// The effects of a rule declaration, or `None` for the declarations whose
/// reading would panic (see `declaration_panics`).
pub fn try_declaration_effects(prop: &str, value: &str) -> (r: Option<Vec<StyleEffect>>)
    ensures
        r is None <==> rule_panics(prop@, value@),
        r matches Some(v) ==> effects_view(v@) == rule_effects(prop@, value@),
{
    if declaration_panics(prop, value) {
        None
    } else {
        Some(declaration_effects(prop, value))
    }
}

/// The effects of an inline `style` attribute, or `None` for the
/// attributes whose reading would panic (see `inline_style_panics`).
pub fn try_inline_style_effects(css_text: &str) -> (r: Option<Vec<StyleEffect>>)
    ensures
        r is None <==> inline_panics(css_text@),
        r matches Some(v) ==> effects_view(v@) == inline_effects_of(css_text@),
{
    if inline_style_panics(css_text) {
        None
    } else {
        Some(inline_style_effects(css_text))
    }
}

} // verus!
