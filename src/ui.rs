//! The widget kinds and the bundles that application code builds them from.
use vstd::prelude::*;
use vstd::string::StrSliceExecFns;
use crate::color::NColor;
use crate::geometry::{NLocalPosition, NPosition, NSize};

verus! {

/// The largest text that a label can hold: its width must fit in a cell count.
pub const MAX_TEXT: usize = 65535;

/// Marks a widget that reacts to pointer clicks.
#[derive(Debug, Clone, Copy, PartialEq, Eq, Structural)]
pub struct Clickable;

/// Marks a widget that stacks its children vertically.
#[derive(Debug, Clone, Copy, PartialEq, Eq, Structural)]
pub struct VBox;

/// A widget's text.
#[derive(Debug, Clone)]
pub struct Label {
    pub text: String,
}

impl Label {
    pub fn new(text: String) -> (r: Label)
        ensures
            r.text@ == text@,
    {
        Label { text }
    }
}

/// The number of cells that `text` covers: its count of characters (not of
/// bytes, which is what `String::len` would give for non-ASCII text).
pub fn text_width(text: &String) -> (r: u16)
    requires
        text@.len() <= MAX_TEXT,
    ensures
        r as int == text@.len(),
{
    let n = text.as_str().unicode_len();
    n as u16
}

/// The padding that a container keeps on every side.
#[derive(Debug, Clone, Copy, PartialEq, Eq, Structural)]
pub struct Padding(pub u16);

/// The rows that a container leaves between two children.
#[derive(Debug, Clone, Copy, PartialEq, Eq, Structural)]
pub struct Spacing(pub u16);

impl From<String> for Label {
    /// A label showing `text`.
    fn from(text: String) -> Label {
        Label { text }
    }
}

impl vstd::std_specs::convert::FromSpecImpl<String> for Label {
    open spec fn obeys_from_spec() -> bool {
        true
    }

    open spec fn from_spec(text: String) -> Label {
        Label { text }
    }
}

impl From<u16> for Padding {
    /// `n` cells of padding.
    fn from(n: u16) -> Padding {
        Padding(n)
    }
}

impl vstd::std_specs::convert::FromSpecImpl<u16> for Padding {
    open spec fn obeys_from_spec() -> bool {
        true
    }

    open spec fn from_spec(n: u16) -> Padding {
        Padding(n)
    }
}

impl From<Padding> for u16 {
    /// The padding's cell count.
    fn from(p: Padding) -> u16 {
        p.0
    }
}

impl vstd::std_specs::convert::FromSpecImpl<Padding> for u16 {
    open spec fn obeys_from_spec() -> bool {
        true
    }

    open spec fn from_spec(p: Padding) -> u16 {
        p.0
    }
}

impl From<u16> for Spacing {
    /// `n` rows of spacing.
    fn from(n: u16) -> Spacing {
        Spacing(n)
    }
}

impl vstd::std_specs::convert::FromSpecImpl<u16> for Spacing {
    open spec fn obeys_from_spec() -> bool {
        true
    }

    open spec fn from_spec(n: u16) -> Spacing {
        Spacing(n)
    }
}

impl From<Spacing> for u16 {
    /// The spacing's row count.
    fn from(s: Spacing) -> u16 {
        s.0
    }
}

impl vstd::std_specs::convert::FromSpecImpl<Spacing> for u16 {
    open spec fn obeys_from_spec() -> bool {
        true
    }

    open spec fn from_spec(s: Spacing) -> u16 {
        s.0
    }
}

/// Every attribute that a widget can carry. The geometric ones are always
/// present, and default to the origin and the empty extent.
#[derive(Debug, Clone)]
pub struct Widget {
    pub label: Option<Label>,
    pub position: NPosition,
    pub local_position: NLocalPosition,
    pub size: NSize,
    pub color: Option<NColor>,
    pub clickable: bool,
    pub vbox: bool,
    pub padding: u16,
    pub spacing: u16,
}

impl Widget {
    /// A label's text fits a width.
    pub open spec fn text_fits(&self) -> bool {
        self.label matches Some(l) ==> l.text@.len() <= MAX_TEXT
    }
}

/// A text widget.
#[derive(Debug, Clone)]
pub struct LabelBundle {
    pub label: Label,
    pub position: NPosition,
    pub local_position: NLocalPosition,
    pub color: NColor,
    pub size: NSize,
}

impl Default for LabelBundle {
    /// A label with no text, at the origin, with the unset color.
    fn default() -> (r: LabelBundle)
        ensures
            r.label.text@.len() == 0,
            r.position == (NPosition { x: 0, y: 0 }),
            r.local_position == (NLocalPosition { x: 0, y: 0 }),
            r.color.color == 0,
            r.size == (NSize { x: 0, y: 0 }),
    {
        LabelBundle {
            label: Label { text: String::new() },
            position: NPosition { x: 0, y: 0 },
            local_position: NLocalPosition { x: 0, y: 0 },
            color: NColor { color: 0 },
            size: NSize { x: 0, y: 0 },
        }
    }
}

impl LabelBundle {
    /// A label showing `text` at `position`.
    pub fn new(text: String, position: NPosition) -> (r: LabelBundle)
        requires
            text@.len() <= MAX_TEXT,
        ensures
            r.label.text@ == text@,
            r.position == position,
            r.local_position == (NLocalPosition { x: 0, y: 0 }),
            r.color.color == 0,
            r.size.x == text@.len() && r.size.y == 1,
    {
        LabelBundle::default().with_text(text).with_position(position)
    }

    /// A label showing `text`, to be placed by its container.
    pub fn new_text(text: String) -> (r: LabelBundle)
        requires
            text@.len() <= MAX_TEXT,
        ensures
            r.label.text@ == text@,
            r.position == (NPosition { x: 0, y: 0 }),
            r.local_position == (NLocalPosition { x: 0, y: 0 }),
            r.color.color == 0,
            r.size.x == text@.len() && r.size.y == 1,
    {
        LabelBundle::default().with_text(text)
    }

    /// Replaces the text, and sizes the label to one row of its width.
    pub fn with_text(self, text: String) -> (r: LabelBundle)
        requires
            text@.len() <= MAX_TEXT,
        ensures
            r.label.text@ == text@,
            r.position == self.position,
            r.local_position == self.local_position,
            r.color == self.color,
            r.size.x == text@.len() && r.size.y == 1,
    {
        let w = text_width(&text);
        LabelBundle { label: Label::new(text), size: NSize { x: w, y: 1 }, ..self }
    }

    pub fn with_position(self, position: NPosition) -> (r: LabelBundle)
        ensures
            r.label == self.label,
            r.position == position,
            r.local_position == self.local_position,
            r.color == self.color,
            r.size == self.size,
    {
        LabelBundle { position, ..self }
    }

    pub fn with_color(self, color: NColor) -> (r: LabelBundle)
        ensures
            r.label == self.label,
            r.position == self.position,
            r.local_position == self.local_position,
            r.color == color,
            r.size == self.size,
    {
        LabelBundle { color, ..self }
    }

    /// The widget that this bundle describes.
    pub fn into_widget(self) -> (r: Widget)
        ensures
            r == label_widget(self, false),
    {
        Widget {
            label: Some(self.label),
            position: self.position,
            local_position: self.local_position,
            size: self.size,
            color: Some(self.color),
            clickable: false,
            vbox: false,
            padding: 0,
            spacing: 0,
        }
    }
}

/// The widget of a label bundle, clickable or not.
pub open spec fn label_widget(b: LabelBundle, clickable: bool) -> Widget {
    Widget {
        label: Some(b.label),
        position: b.position,
        local_position: b.local_position,
        size: b.size,
        color: Some(b.color),
        clickable,
        vbox: false,
        padding: 0,
        spacing: 0,
    }
}

/// A label that reacts to clicks.
#[derive(Debug, Clone)]
pub struct ButtonBundle {
    pub label: LabelBundle,
    pub clickable: Clickable,
}

impl ButtonBundle {
    pub fn new(text: String, position: NPosition) -> (r: ButtonBundle)
        requires
            text@.len() <= MAX_TEXT,
        ensures
            r.label.label.text@ == text@,
            r.label.position == position,
            r.label.local_position == (NLocalPosition { x: 0, y: 0 }),
            r.label.color.color == 0,
            r.label.size.x == text@.len() && r.label.size.y == 1,
    {
        ButtonBundle { label: LabelBundle::new(text, position), clickable: Clickable }
    }

    pub fn new_text(text: String) -> (r: ButtonBundle)
        requires
            text@.len() <= MAX_TEXT,
        ensures
            r.label.label.text@ == text@,
            r.label.position == (NPosition { x: 0, y: 0 }),
            r.label.local_position == (NLocalPosition { x: 0, y: 0 }),
            r.label.color.color == 0,
            r.label.size.x == text@.len() && r.label.size.y == 1,
    {
        ButtonBundle { label: LabelBundle::new_text(text), clickable: Clickable }
    }

    pub fn new_with(label: LabelBundle) -> (r: ButtonBundle)
        ensures
            r.label == label,
    {
        ButtonBundle { label, clickable: Clickable }
    }

    pub fn with_color(self, color: NColor) -> (r: ButtonBundle)
        ensures
            r.label.label == self.label.label,
            r.label.position == self.label.position,
            r.label.local_position == self.label.local_position,
            r.label.size == self.label.size,
            r.label.color == color,
    {
        ButtonBundle { label: self.label.with_color(color), clickable: Clickable }
    }

    /// The widget that this bundle describes.
    pub fn into_widget(self) -> (r: Widget)
        ensures
            r == label_widget(self.label, true),
    {
        let mut w = self.label.into_widget();
        w.clickable = true;
        w
    }
}

/// A container that stacks its children top to bottom.
#[derive(Debug, Clone, Copy)]
pub struct VBoxBundle {
    pub vbox: VBox,
    pub size: NSize,
    pub spacing: Spacing,
    pub padding: Padding,
    pub position: NPosition,
    pub local_position: NLocalPosition,
}

impl Default for VBoxBundle {
    /// A container at the origin with no padding, no spacing and no extent.
    fn default() -> (r: VBoxBundle)
        ensures
            r.size == (NSize { x: 0, y: 0 }),
            r.spacing == Spacing(0),
            r.padding == Padding(0),
            r.position == (NPosition { x: 0, y: 0 }),
            r.local_position == (NLocalPosition { x: 0, y: 0 }),
    {
        VBoxBundle {
            vbox: VBox,
            size: NSize { x: 0, y: 0 },
            spacing: Spacing(0),
            padding: Padding(0),
            position: NPosition { x: 0, y: 0 },
            local_position: NLocalPosition { x: 0, y: 0 },
        }
    }
}

impl VBoxBundle {
    /// A container at `position`.
    pub fn new(position: NPosition) -> (r: VBoxBundle)
        ensures
            r.size == (NSize { x: 0, y: 0 }),
            r.spacing == Spacing(0),
            r.padding == Padding(0),
            r.position == position,
            r.local_position == (NLocalPosition { x: 0, y: 0 }),
    {
        VBoxBundle::default().with_position(position)
    }

    pub fn with_position(self, position: NPosition) -> (r: VBoxBundle)
        ensures
            r == (VBoxBundle { position, ..self }),
    {
        VBoxBundle { position, ..self }
    }

    pub fn with_padding(self, padding: Padding) -> (r: VBoxBundle)
        ensures
            r == (VBoxBundle { padding, ..self }),
    {
        VBoxBundle { padding, ..self }
    }

    pub fn with_spacing(self, spacing: Spacing) -> (r: VBoxBundle)
        ensures
            r == (VBoxBundle { spacing, ..self }),
    {
        VBoxBundle { spacing, ..self }
    }

    pub fn with_local_position(self, local_position: NLocalPosition) -> (r: VBoxBundle)
        ensures
            r == (VBoxBundle { local_position, ..self }),
    {
        VBoxBundle { local_position, ..self }
    }

    /// The widget that this bundle describes.
    pub fn into_widget(self) -> (r: Widget)
        ensures
            r == vbox_widget(self),
    {
        Widget {
            label: None,
            position: self.position,
            local_position: self.local_position,
            size: self.size,
            color: None,
            clickable: false,
            vbox: true,
            padding: self.padding.0,
            spacing: self.spacing.0,
        }
    }
}

/// The widget of a container bundle.
pub open spec fn vbox_widget(b: VBoxBundle) -> Widget {
    Widget {
        label: None,
        position: b.position,
        local_position: b.local_position,
        size: b.size,
        color: None,
        clickable: false,
        vbox: true,
        padding: b.padding.0,
        spacing: b.spacing.0,
    }
}

} // verus!
