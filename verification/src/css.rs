//! CSS value types and the parsers of single property values that do not
//! involve lengths in floating point.
use vstd::prelude::*;

pub mod values;
pub mod style_engine;
pub mod stylesheet;
pub mod declarations;
pub mod cascade;

verus! {

/// Grid placement of a child element (`grid-column` / `grid-row`).
#[derive(Debug, Clone, PartialEq, Eq, Structural)]
pub struct GridPlacement {
    /// `span N`: how many tracks the item spans.
    pub span: u16,
}

impl Default for GridPlacement {
    fn default() -> (r: Self)
        ensures
            r.span == 1,
    {
        GridPlacement { span: 1 }
    }
}

/// CSS length units.
#[derive(Debug, Clone, Copy, PartialEq, Eq, Structural)]
pub enum CssUnit {
    Px,
    Em,
    Rem,
    Vh,
    Vw,
    Percent,
}

/// Properties that can be transitioned.
#[derive(Debug, Clone, Copy, PartialEq, Eq, Hash, Structural)]
pub enum TransitionProperty {
    Opacity,
    Transform,
    Color,
    BackgroundColor,
}

/// Easing functions for transitions.
#[derive(Debug, Clone, Copy, PartialEq, Eq, Structural)]
pub enum EasingFunction {
    Linear,
    Ease,
    EaseIn,
    EaseOut,
}

impl Default for EasingFunction {
    fn default() -> (r: Self)
        ensures
            r == EasingFunction::Ease,
    {
        EasingFunction::Ease
    }
}

/// The `display` property; `NoDisplay` is `display: none`.
#[derive(Debug, Clone, Copy, PartialEq, Eq, Structural)]
pub enum DisplayType {
    Block,
    Inline,
    InlineBlock,
    Flex,
    InlineFlex,
    Grid,
    NoDisplay,
}

/// The `position` property.
#[derive(Debug, Clone, Copy, PartialEq, Eq, Structural)]
pub enum PositionType {
    Static,
    Relative,
    Absolute,
    Fixed,
    Sticky,
}

/// The `overflow` property.
#[derive(Debug, Clone, Copy, PartialEq, Eq, Structural)]
pub enum Overflow {
    Visible,
    Hidden,
    Scroll,
    Auto,
}

/// The `visibility` property.
#[derive(Debug, Clone, Copy, PartialEq, Eq, Structural)]
pub enum Visibility {
    Visible,
    Hidden,
    Collapse,
}

/// The `border-style` property; `NoBorder` is `border-style: none`.
#[derive(Debug, Clone, Copy, PartialEq, Eq, Structural)]
pub enum BorderStyle {
    NoBorder,
    Solid,
    Dashed,
    Dotted,
    Double,
}

impl Default for BorderStyle {
    fn default() -> (r: Self)
        ensures
            r == BorderStyle::NoBorder,
    {
        BorderStyle::NoBorder
    }
}

/// The `flex-direction` property.
#[derive(Debug, Clone, Copy, PartialEq, Eq, Structural)]
pub enum FlexDirection {
    Row,
    RowReverse,
    Column,
    ColumnReverse,
}

/// The `align-items` property.
#[derive(Debug, Clone, Copy, PartialEq, Eq, Structural)]
pub enum AlignItems {
    Stretch,
    FlexStart,
    FlexEnd,
    Center,
    Baseline,
}

/// The `justify-content` property.
#[derive(Debug, Clone, Copy, PartialEq, Eq, Structural)]
pub enum JustifyContent {
    FlexStart,
    FlexEnd,
    Center,
    SpaceBetween,
    SpaceAround,
    SpaceEvenly,
}

} // verus!
