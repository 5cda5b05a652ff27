use kitsune_engine::css::declarations::{
    declaration_effects, declaration_panics, inline_style_effects, inline_style_panics, try_declaration_effects,
    try_inline_style_effects, StyleEffect, TextProp,
};
use kitsune_engine::css::style_engine::ParsedColor;
use kitsune_engine::css::{AlignItems, BorderStyle, DisplayType};

fn red() -> ParsedColor {
    ParsedColor { r: 255, g: 0, b: 0, transparent: false }
}

fn texts(effects: &[StyleEffect]) -> Vec<(TextProp, String)> {
    effects
        .iter()
        .filter_map(|e| match e {
            StyleEffect::Text(p, v) => Some((*p, v.clone())),
            _ => None,
        })
        .collect()
}

#[test]
fn inline_style_parsing_reads_colour_size_and_weight() {
    let effects = inline_style_effects("color: red; font-size: 24px; font-weight: bold");
    assert_eq!(effects.len(), 3);
    assert!(matches!(effects[0], StyleEffect::Color(c) if c == red()));
    assert_eq!(texts(&effects), vec![(TextProp::FontSize, "24px".to_string())]);
    assert!(matches!(effects[2], StyleEffect::FontWeight(700)));
}

#[test]
fn inline_style_skips_blank_and_colonless_parts() {
    let effects = inline_style_effects(" ; nothing ; DISPLAY : inline-flex; Display: grid;;width:10px");
    assert_eq!(effects.len(), 2);
    assert!(matches!(effects[0], StyleEffect::Display(DisplayType::Grid)));
    assert_eq!(texts(&effects), vec![(TextProp::WidthPx, "10px".to_string())]);
    let effects = inline_style_effects("font-weight:");
    assert!(matches!(effects[0], StyleEffect::FontWeight(400)));
    assert!(inline_style_effects("").is_empty());
}

#[test]
fn inline_style_only_sets_what_reads() {
    let effects = inline_style_effects("grid-column: 3; border-style: wavy; padding: 4px; border: 1px solid red");
    assert_eq!(effects.len(), 4);
    match &effects[0] {
        StyleEffect::Padding { top, right, bottom, left } => {
            assert_eq!((top.as_str(), right.as_str(), bottom.as_str(), left.as_str()), ("4px", "4px", "4px", "4px"));
        }
        _ => panic!("padding expected"),
    }
    assert_eq!(
        texts(&effects),
        vec![
            (TextProp::BorderPart, "1px".to_string()),
            (TextProp::BorderPart, "solid".to_string()),
            (TextProp::BorderPart, "red".to_string()),
        ]
    );
}

#[test]
fn rule_declarations_by_property() {
    let e = declaration_effects("Color", "#f00");
    assert_eq!(e.len(), 1);
    assert!(matches!(e[0], StyleEffect::Color(c) if c == red()));
    let e = declaration_effects("background", "url('bg.png')");
    assert!(matches!(&e[0], StyleEffect::BackgroundImage(u) if u == "bg.png"));
    let e = declaration_effects("font-weight", "Medium");
    assert!(matches!(e[0], StyleEffect::FontWeight(500)));
    let e = declaration_effects("align-items", " center ");
    assert!(matches!(e[0], StyleEffect::AlignItems(AlignItems::Center)));
    let e = declaration_effects("display", " block");
    assert!(e.is_empty());
    let e = declaration_effects("grid-row", "3");
    assert!(matches!(e[0], StyleEffect::GridRow(None)));
    let e = declaration_effects("border-style", "DOTTED");
    assert!(matches!(e[0], StyleEffect::BorderStyle(Some(BorderStyle::Dotted))));
    let e = declaration_effects("padding", "1px 2px");
    match &e[0] {
        StyleEffect::Padding { top, right, bottom, left } => {
            assert_eq!((top.as_str(), right.as_str(), bottom.as_str(), left.as_str()), ("1px", "2px", "1px", "2px"));
        }
        _ => panic!("padding expected"),
    }
    assert!(declaration_effects("padding", "1px 2px 3px").is_empty());
    assert_eq!(texts(&declaration_effects("max-width", "50%")), vec![(TextProp::MaxWidth, "50%".to_string())]);
}

#[test]
fn rule_declarations_record_custom_properties_and_var() {
    let e = declaration_effects("--Main-Color", "blue");
    assert_eq!(e.len(), 1);
    assert!(matches!(&e[0], StyleEffect::Custom { name, value } if name == "--Main-Color" && value == "blue"));
    let e = declaration_effects("Width", "var(--w)");
    assert_eq!(e.len(), 2);
    assert!(matches!(&e[0], StyleEffect::Raw { name, .. } if name == "width"));
    assert_eq!(texts(&e), vec![(TextProp::Width, "var(--w)".to_string())]);
    let e = declaration_effects("X-Thing", "var(--w)");
    assert_eq!(e.len(), 2);
    assert!(matches!(&e[0], StyleEffect::Raw { name, .. } if name == "x-thing"));
    assert!(matches!(&e[1], StyleEffect::Raw { name, .. } if name == "X-Thing"));
    assert!(declaration_effects("unknown", "1px").is_empty());
}

#[test]
fn declarations_that_would_panic_are_recognised() {
    assert!(declaration_panics("color", "#aébcd"));
    assert!(!declaration_panics("--color", "#aébcd"));
    assert!(!declaration_panics("font-family", "#aébcd"));
    assert!(try_declaration_effects("border-color", "#aébcd").is_none());
    assert!(try_declaration_effects("border-color", "#abc").is_some());
    assert!(inline_style_panics("margin: 0; background: #aébcd"));
    assert!(!inline_style_panics("margin: 0; background: #abc"));
    assert!(try_inline_style_effects("color: #aébcd").is_none());
    assert_eq!(try_inline_style_effects("color: #abc").map(|e| e.len()), Some(1));
}
