//! One frame of the terminal UI: input handling, label measuring, layout and
//! the list of draw commands handed to the painter.
//!
//! A frame runs in a fixed order: the surface is cleared, one input event is
//! read and applied ([`apply_input`]), then [`WidgetStore::update_frame`]
//! measures the labels whose text changed, resolves the layout and lists what
//! to paint, and the surface is presented. Reading input and painting belong to
//! the terminal driver.
use vstd::prelude::*;
use crate::color::is_bold_spec;
use crate::geometry::{check_bounds, contains, NSize, WindowSize};
use crate::layout::{resolvable, resolved, LayoutError};
use crate::store::{live, node, store_wf, NodeView, WidgetId, WidgetStore};
use crate::ui::{text_width, Widget};

verus! {

/// Raised against a widget when the pointer clicks on it.
#[derive(Debug, Clone, Copy, PartialEq, Eq, Structural)]
pub struct ClickEvent {
    pub target: WidgetId,
}

/// An input event, as the terminal driver reports it.
#[derive(Debug, Clone, Copy, PartialEq, Eq, Structural)]
pub enum InputEvent {
    /// The surface changed size; the driver has queried the new dimensions.
    Resize { width: u16, height: u16 },
    /// The pointer clicked at column `x`, row `y`.
    PointerClick { x: i32, y: i32 },
    /// A click was reported, but its position could not be read.
    PointerLost,
    /// Any other input, passed on untouched.
    Other,
}

/// Live widget `i` reacts to a click at `(x, y)`.
pub open spec fn hit(s: Seq<Option<NodeView>>, i: int, x: int, y: int) -> bool {
    live(s, i) && node(s, i).widget.clickable && contains(
        node(s, i).widget.position,
        node(s, i).widget.size,
        x,
        y,
    )
}

/// The arena after each label whose text changed is sized to its width and
/// one row.
pub open spec fn measured(s: Seq<Option<NodeView>>) -> Seq<Option<NodeView>> {
    Seq::new(
        s.len(),
        |i: int|
            match s[i] {
                Some(n) => if n.changed && n.widget.label is Some {
                    Some(
                        NodeView {
                            widget: Widget {
                                size: NSize {
                                    x: n.widget.label->Some_0.text@.len() as u16,
                                    y: 1,
                                },
                                ..n.widget
                            },
                            changed: false,
                            ..n
                        },
                    )
                } else {
                    Some(n)
                },
                None => None,
            },
    )
}

/// What the painter writes for one widget: its text at its position, in its
/// color, with or without emphasis.
#[derive(Debug, Clone)]
pub struct DrawCommand {
    pub x: u16,
    pub y: u16,
    pub text: String,
    pub color: u8,
    pub bold: bool,
}

/// Live widget `i` has text and a color, so it is painted.
pub open spec fn drawable(s: Seq<Option<NodeView>>, i: int) -> bool {
    live(s, i) && node(s, i).widget.label is Some && node(s, i).widget.color is Some
}

pub open spec fn draw_command(s: Seq<Option<NodeView>>, i: int) -> DrawCommand {
    let w = node(s, i).widget;
    DrawCommand {
        x: w.position.x,
        y: w.position.y,
        text: w.label->Some_0.text,
        color: w.color->Some_0.color,
        bold: is_bold_spec(w.color->Some_0.color),
    }
}

/// The draw commands of the first `m` widgets, in arena order.
pub open spec fn draws(s: Seq<Option<NodeView>>, m: int) -> Seq<DrawCommand>
    decreases m,
{
    if m <= 0 {
        Seq::empty()
    } else if drawable(s, m - 1) {
        draws(s, m - 1).push(draw_command(s, m - 1))
    } else {
        draws(s, m - 1)
    }
}

/// Applies one input event: a resize records the new dimensions, a click is
/// routed to the widget under the pointer, which is returned. Other events
/// change nothing.
pub fn apply_input(window: &mut WindowSize, widgets: &WidgetStore, event: InputEvent) -> (r:
    Option<WidgetId>)
    ensures
        event matches InputEvent::Resize { width, height } ==> *final(window) == (WindowSize {
            width,
            height,
        }) && r is None,
        !(event is Resize) ==> *final(window) == *old(window),
        event matches InputEvent::PointerClick { x, y } ==> (match r {
            Some(i) => hit(widgets@, i as int, x as int, y as int) && forall|j: int|
                0 <= j < i ==> !hit(widgets@, j, x as int, y as int),
            None => forall|j: int| !hit(widgets@, j, x as int, y as int),
        }),
        (event is PointerLost || event is Other) ==> r is None,
{
    match event {
        InputEvent::Resize { width, height } => {
            *window = WindowSize { width, height };
            None
        },
        InputEvent::PointerClick { x, y } => widgets.dispatch_click(x, y),
        _ => None,
    }
}

impl WidgetStore {
    /// The first widget, in arena order, that reacts to a click at `(x, y)`.
    /// Overlapping clickable widgets are not ordered by depth: the one created
    /// first wins.
    pub fn dispatch_click(&self, x: i32, y: i32) -> (r: Option<WidgetId>)
        ensures
            match r {
                Some(i) => hit(self@, i as int, x as int, y as int) && forall|j: int|
                    0 <= j < i ==> !hit(self@, j, x as int, y as int),
                None => forall|j: int| !hit(self@, j, x as int, y as int),
            },
    {
        let n = self.len();
        let mut i: usize = 0;
        while i < n
            invariant
                n == self@.len(),
                i <= n,
                forall|j: int| 0 <= j < i ==> !hit(self@, j, x as int, y as int),
            decreases n - i,
        {
            if let Some(w) = self.get(i) {
                if w.clickable && check_bounds((x, y), &w.position, &w.size) {
                    return Some(i);
                }
            }
            i = i + 1;
        }
        assert forall|j: int| !hit(self@, j, x as int, y as int) by {
            if 0 <= j < i {
            }
        }
        None
    }

    /// Sizes each label whose text changed to its width and one row, and
    /// clears the mark.
    pub fn update_label_size(&mut self)
        requires
            old(self).wf(),
        ensures
            final(self).wf(),
            final(self)@ == measured(old(self)@),
    {
        let ghost s = self@;
        let n = self.len();
        let mut i: usize = 0;
        while i < n
            invariant
                self.wf(),
                store_wf(s),
                s == old(self)@,
                n == s.len(),
                i <= n,
                self@.len() == n,
                forall|j: int| 0 <= j < i ==> #[trigger] self@[j] == measured(s)[j],
                forall|j: int| i <= j < n ==> #[trigger] self@[j] == s[j],
            decreases n - i,
        {
            let mut width: Option<u16> = None;
            if let Some(w) = self.get(i) {
                if let Some(l) = &w.label {
                    if self.is_changed(i) {
                        proof {
                            assert(crate::store::node_wf(s, i as int));
                        }
                        width = Some(text_width(&l.text));
                    }
                }
            }
            if let Some(x) = width {
                self.put_size(i, NSize { x, y: 1 });
                self.put_changed(i, false);
            }
            proof {
                assert(self@[i as int] == measured(s)[i as int]);
            }
            i = i + 1;
        }
        assert(self@ =~= measured(s));
    }

    /// What to paint: a command for each widget with text and a color, in
    /// arena order.
    pub fn draw_list(&self) -> (r: Vec<DrawCommand>)
        ensures
            r@ == draws(self@, self@.len() as int),
    {
        let n = self.len();
        let mut r: Vec<DrawCommand> = Vec::new();
        let mut i: usize = 0;
        while i < n
            invariant
                n == self@.len(),
                i <= n,
                r@ == draws(self@, i as int),
            decreases n - i,
        {
            if let Some(w) = self.get(i) {
                if let Some(l) = &w.label {
                    if let Some(c) = w.color {
                        r.push(
                            DrawCommand {
                                x: w.position.x,
                                y: w.position.y,
                                text: l.text.clone(),
                                color: c.color,
                                bold: c.is_bold(),
                            },
                        );
                    }
                }
            }
            i = i + 1;
        }
        r
    }

    /// The part of a frame that follows input: measures the changed labels,
    /// resolves the layout and lists what to paint. A layout error is fatal
    /// to the frame, and nothing is painted.
    pub fn update_frame(&mut self) -> (r: Result<Vec<DrawCommand>, LayoutError>)
        requires
            old(self).wf(),
        ensures
            final(self).wf(),
            r is Ok <==> resolvable(measured(old(self)@)),
            r matches Ok(d) ==> final(self)@ == resolved(measured(old(self)@)) && d@ == draws(
                final(self)@,
                final(self)@.len() as int,
            ),
            crate::layout::has_orphan(measured(old(self)@)) <==> r matches Err(
                LayoutError::MissingParent(_),
            ),
    {
        self.update_label_size();
        match self.resolve_layout() {
            Ok(()) => Ok(self.draw_list()),
            Err(e) => Err(e),
        }
    }
}

} // verus!
