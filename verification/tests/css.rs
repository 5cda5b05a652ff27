use kitsune_engine::css::style_engine::{parse_border_style, parse_grid_placement, parse_url as parse_style_url};
use kitsune_engine::css::values::{parse_easing, parse_url};
use kitsune_engine::css::{BorderStyle, EasingFunction, GridPlacement};

#[test]
fn easing_keywords() {
    assert_eq!(parse_easing(" ease-in "), Some(EasingFunction::EaseIn));
    assert_eq!(parse_easing("linear"), Some(EasingFunction::Linear));
    assert_eq!(parse_easing("ease-out"), Some(EasingFunction::EaseOut));
    assert_eq!(parse_easing("ease"), Some(EasingFunction::Ease));
    assert_eq!(parse_easing("EASE"), None);
    assert_eq!(EasingFunction::default(), EasingFunction::Ease);
}

#[test]
fn url_values() {
    assert_eq!(parse_url("url(\"a.png\")").as_deref(), Some("a.png"));
    assert_eq!(parse_url(" url( 'b.png' ) ").as_deref(), Some("b.png"));
    assert_eq!(parse_url("url(c.png)").as_deref(), Some("c.png"));
    assert_eq!(parse_url("url()").as_deref(), Some(""));
    assert_eq!(parse_url("c.png"), None);
    assert_eq!(parse_url("url(c.png"), None);
}

#[test]
fn style_url_values_strip_both_quote_kinds() {
    assert_eq!(parse_style_url("url(\"'x'\")").as_deref(), Some("x"));
    assert_eq!(parse_style_url("url(\")").as_deref(), Some("\""));
    assert_eq!(parse_style_url("background: url(a)"), None);
}

#[test]
fn grid_placement_span() {
    assert_eq!(parse_grid_placement("span 2"), Some(GridPlacement { span: 2 }));
    assert_eq!(parse_grid_placement(" span  3 "), Some(GridPlacement { span: 3 }));
    assert_eq!(parse_grid_placement("span 70000"), None);
    assert_eq!(parse_grid_placement("2"), None);
    assert_eq!(GridPlacement::default().span, 1);
}

#[test]
fn border_style_keywords() {
    assert_eq!(parse_border_style(" Solid "), Some(BorderStyle::Solid));
    assert_eq!(parse_border_style("none"), Some(BorderStyle::NoBorder));
    assert_eq!(parse_border_style("groove"), None);
    assert_eq!(BorderStyle::default(), BorderStyle::NoBorder);
}

use kitsune_engine::css::style_engine::{parse_color, parse_hex_color, ParsedColor};

#[test]
fn test_parse_hex_color() {
    let c = parse_hex_color("#ff0000").unwrap();
    assert_eq!(c.r, 255);
    assert_eq!(c.g, 0);
    assert_eq!(c.b, 0);
}

#[test]
fn color_values() {
    let c = |r, g, b| Some(ParsedColor { r, g, b, transparent: false });
    assert_eq!(parse_color(" #abc "), c(0xaa, 0xbb, 0xcc));
    assert_eq!(parse_color("##fff"), c(255, 255, 255));
    assert_eq!(parse_color("#+f+f+f"), c(15, 15, 15));
    assert_eq!(parse_color("#+ff"), None);
    assert_eq!(parse_color("#12"), None);
    assert_eq!(parse_color("#ééé"), None);
    assert_eq!(parse_color("RED"), c(255, 0, 0));
    assert_eq!(parse_color("grey"), c(128, 128, 128));
    assert_eq!(parse_color("Transparent"), Some(ParsedColor { r: 0, g: 0, b: 0, transparent: true }));
    assert_eq!(parse_color("teal"), None);
}

use kitsune_engine::css::stylesheet::{css_blocks, css_declarations, strip_comments};

#[test]
fn stylesheet_text_is_cut_into_rules() {
    assert_eq!(strip_comments("a/* x */b/* open"), "ab");
    assert_eq!(strip_comments("/**/c"), "c");
    let rules = css_blocks("h1 { color: red; }\n@media print { p { x: y } }\n.a, .b{margin:0}}");
    assert_eq!(
        rules,
        vec![
            ("h1".to_string(), " color: red; ".to_string()),
            (".a, .b".to_string(), "margin:0".to_string()),
        ]
    );
    assert_eq!(css_blocks("p { x: y"), vec![]);
    assert_eq!(
        css_declarations(" color: red; ; font-size : 12px;bad; x: ; a:b:c"),
        vec![
            ("color".to_string(), "red".to_string()),
            ("font-size".to_string(), "12px".to_string()),
            ("a".to_string(), "b:c".to_string()),
        ]
    );
}

use kitsune_engine::css::style_engine::{grid_template_tokens, repeat_parts};

#[test]
fn grid_templates_tokenize() {
    assert_eq!(
        grid_template_tokens("  repeat(3, 1fr) 200px\tauto "),
        vec!["repeat(3, 1fr)".to_string(), "200px".to_string(), "auto".to_string()]
    );
    assert_eq!(grid_template_tokens("a) ( b"), vec!["a)".to_string(), "( b".to_string()]);
    assert_eq!(repeat_parts("repeat( 3 , 1fr )"), Some((3, "1fr".to_string())));
    assert_eq!(repeat_parts("repeat(x, 1fr)"), None);
    assert_eq!(repeat_parts("repeat(3 1fr)"), None);
    assert_eq!(repeat_parts("repeat(2, minmax(1px, 2fr))"), Some((2, "minmax(1px, 2fr)".to_string())));
}

use kitsune_engine::css::style_engine::{
    parse_align_items, parse_display, parse_flex_direction, parse_font_weight, parse_inline_display,
    parse_inline_font_weight, parse_justify_content, parse_position,
};
use kitsune_engine::css::{AlignItems, DisplayType, FlexDirection, JustifyContent, PositionType};

#[test]
fn layout_keywords() {
    assert_eq!(parse_display("inline-flex"), Some(DisplayType::InlineFlex));
    assert_eq!(parse_inline_display("inline-flex"), None);
    assert_eq!(parse_inline_display("none"), Some(DisplayType::NoDisplay));
    assert_eq!(parse_display(" block"), None);
    assert_eq!(parse_position("sticky"), Some(PositionType::Sticky));
    assert_eq!(parse_align_items(" end "), Some(AlignItems::FlexEnd));
    assert_eq!(parse_justify_content("space-evenly"), Some(JustifyContent::SpaceEvenly));
    assert_eq!(parse_flex_direction("column-reverse"), Some(FlexDirection::ColumnReverse));
    assert_eq!(parse_font_weight("BOLD"), 700);
    assert_eq!(parse_font_weight("Medium"), 500);
    assert_eq!(parse_font_weight("300"), 300);
    assert_eq!(parse_font_weight("heavy"), 400);
    assert_eq!(parse_inline_font_weight("BOLD"), 400);
    assert_eq!(parse_inline_font_weight("600"), 600);
}

use kitsune_engine::css::style_engine::color_parse_panics;
use kitsune_engine::css::stylesheet::brace_depth_fits;

#[test]
fn inputs_the_parsers_refuse_are_recognised() {
    assert!(color_parse_panics(" #aébcd"));
    assert!(!color_parse_panics("#ééé"));
    assert!(!color_parse_panics("#abc"));
    assert!(!color_parse_panics("red"));
    assert!(brace_depth_fits("a { b { c } } }}}"));
    assert!(brace_depth_fits(""));
}

use kitsune_engine::css::values::{parse_value_color, value_color_panics};

#[test]
fn value_colours() {
    let c = |r, g, b| Some(ParsedColor { r, g, b, transparent: false });
    assert_eq!(parse_value_color("#fff"), c(255, 255, 255));
    assert_eq!(parse_value_color("#abc"), c(0xaa, 0xbb, 0xcc));
    assert_eq!(parse_value_color("#ff0000"), c(255, 0, 0));
    assert_eq!(parse_value_color("black"), c(0, 0, 0));
    assert_eq!(parse_value_color("transparent"), Some(ParsedColor { r: 0, g: 0, b: 0, transparent: true }));
    assert_eq!(parse_value_color("Black"), None);
    assert_eq!(parse_value_color("red"), None);
    assert_eq!(parse_value_color("#abcd"), None);
    assert_eq!(parse_value_color("#+f+"), None);
    assert!(value_color_panics("#aébcd"));
    assert!(!value_color_panics("#abc"));
}

#[test]
fn test_parse_color() {
    let c = parse_value_color("#ff0000").unwrap();
    assert_eq!(c.r, 255);
    assert_eq!(c.g, 0);
    assert_eq!(c.b, 0);
}

use kitsune_engine::css::style_engine::renders_nothing;

#[test]
fn head_and_script_elements_are_not_rendered() {
    assert!(renders_nothing("SCRIPT"));
    assert!(renders_nothing("head"));
    assert!(renders_nothing("NoScript"));
    assert!(!renders_nothing("div"));
    assert!(!renders_nothing("body"));
}
