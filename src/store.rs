//! The widget arena: every widget's attributes, and the parent/child edges
//! between widgets.
//!
//! Identities are indices into the arena and are never reused, so a removed
//! widget's identity stays dead. A child is always created after its parent,
//! hence a parent's identity is below its children's, and the parent relation
//! has no cycles. Removing a widget does not remove its children: they keep
//! naming the dead parent, and layout reports them.
use vstd::prelude::*;
use crate::color::NColor;
use crate::geometry::{NLocalPosition, NPosition, NSize};
use crate::ui::{Padding, Spacing, Widget, MAX_TEXT};

verus! {

/// A widget's identity.
pub type WidgetId = usize;

/// What the arena holds for one widget, as contracts see it.
pub struct NodeView {
    pub widget: Widget,
    pub parent: Option<WidgetId>,
    pub children: Seq<WidgetId>,
    /// The text changed since its width was last taken.
    pub changed: bool,
}

struct Node {
    widget: Widget,
    parent: Option<WidgetId>,
    children: Vec<WidgetId>,
    changed: bool,
}

impl Node {
    spec fn view(&self) -> NodeView {
        NodeView {
            widget: self.widget,
            parent: self.parent,
            children: self.children@,
            changed: self.changed,
        }
    }
}

pub open spec fn live(s: Seq<Option<NodeView>>, i: int) -> bool {
    0 <= i < s.len() && s[i] is Some
}

/// The node of live widget `i`.
pub open spec fn node(s: Seq<Option<NodeView>>, i: int) -> NodeView {
    s[i]->Some_0
}

/// The local conditions on live widget `i`.
pub open spec fn node_wf(s: Seq<Option<NodeView>>, i: int) -> bool {
    let n = node(s, i);
    &&& n.widget.text_fits()
    &&& n.parent matches Some(p) ==> p < i
    &&& n.parent matches Some(p) ==> (live(s, p as int) ==> node(s, p as int).widget.vbox
        && node(s, p as int).children.contains(i as WidgetId))
    &&& n.children.no_duplicates()
    &&& forall|k: int|
        0 <= k < n.children.len() ==> live(s, #[trigger] n.children[k] as int) && node(
            s,
            n.children[k] as int,
        ).parent == Some(i as WidgetId)
}

/// The arena's invariant.
pub open spec fn store_wf(s: Seq<Option<NodeView>>) -> bool {
    &&& s.len() <= usize::MAX
    &&& forall|i: int| 0 <= i < s.len() && #[trigger] s[i] is Some ==> node_wf(s, i)
}

/// The arena after live widget `id` is removed: its slot is empty and its
/// parent, if alive, no longer lists it.
pub open spec fn despawned(s: Seq<Option<NodeView>>, id: int) -> Seq<Option<NodeView>> {
    let t = s.update(id, None);
    match node(s, id).parent {
        Some(p) => if live(s, p as int) {
            let pn = node(s, p as int);
            t.update(
                p as int,
                Some(NodeView { children: pn.children.remove(pn.children.index_of(id as WidgetId)), ..pn }),
            )
        } else {
            t
        },
        None => t,
    }
}

/// The arena after live widget `i` gets `w` as its attributes.
pub open spec fn with_widget(s: Seq<Option<NodeView>>, i: int, w: Widget) -> Seq<Option<NodeView>> {
    s.update(i, Some(NodeView { widget: w, ..node(s, i) }))
}

/// The widgets of an application, with their parent/child edges.
pub struct WidgetStore {
    nodes: Vec<Option<Node>>,
}

impl View for WidgetStore {
    type V = Seq<Option<NodeView>>;

    closed spec fn view(&self) -> Seq<Option<NodeView>> {
        Seq::new(
            self.nodes@.len(),
            |i: int|
                match self.nodes@[i] {
                    Some(n) => Some(n.view()),
                    None => None,
                },
        )
    }
}

impl WidgetStore {
    pub open spec fn wf(&self) -> bool {
        store_wf(self@)
    }

    /// An empty arena.
    pub fn new() -> (r: WidgetStore)
        ensures
            r.wf(),
            r@.len() == 0,
    {
        let r = WidgetStore { nodes: Vec::new() };
        assert(r@ =~= Seq::empty());
        r
    }

    /// The number of identities handed out so far, dead ones included.
    pub fn len(&self) -> (r: usize)
        ensures
            r == self@.len(),
    {
        self.nodes.len()
    }

    /// Whether `id` names a live widget.
    pub fn contains(&self, id: WidgetId) -> (r: bool)
        ensures
            r == live(self@, id as int),
    {
        id < self.nodes.len() && self.nodes[id].is_some()
    }

    /// The attributes of widget `id`, if it is alive.
    pub fn get(&self, id: WidgetId) -> (r: Option<&Widget>)
        ensures
            live(self@, id as int) ==> r == Some(&node(self@, id as int).widget),
            !live(self@, id as int) ==> r is None,
    {
        if id < self.nodes.len() {
            match &self.nodes[id] {
                Some(n) => Some(&n.widget),
                None => None,
            }
        } else {
            None
        }
    }

    /// The parent that widget `id` names, if it is alive and has one. The
    /// parent itself may be dead.
    pub fn parent_of(&self, id: WidgetId) -> (r: Option<WidgetId>)
        ensures
            live(self@, id as int) ==> r == node(self@, id as int).parent,
            !live(self@, id as int) ==> r is None,
    {
        if id < self.nodes.len() {
            match &self.nodes[id] {
                Some(n) => n.parent,
                None => None,
            }
        } else {
            None
        }
    }

    /// Whether live widget `id`'s text changed since it was last measured.
    pub fn is_changed(&self, id: WidgetId) -> (r: bool)
        ensures
            live(self@, id as int) ==> r == node(self@, id as int).changed,
            !live(self@, id as int) ==> !r,
    {
        if id < self.nodes.len() {
            match &self.nodes[id] {
                Some(n) => n.changed,
                None => false,
            }
        } else {
            false
        }
    }

    /// The children of widget `id` in the order they were added; none for a
    /// dead widget.
    pub fn children_of(&self, id: WidgetId) -> (r: Vec<WidgetId>)
        ensures
            live(self@, id as int) ==> r@ == node(self@, id as int).children,
            !live(self@, id as int) ==> r@.len() == 0,
    {
        if id < self.nodes.len() {
            match &self.nodes[id] {
                Some(n) => copy_ids(&n.children),
                None => Vec::new(),
            }
        } else {
            Vec::new()
        }
    }

    /// Adds a widget with no parent.
    pub fn spawn(&mut self, widget: Widget) -> (id: WidgetId)
        requires
            old(self).wf(),
            widget.text_fits(),
            old(self)@.len() < usize::MAX,
        ensures
            final(self).wf(),
            id == old(self)@.len(),
            final(self)@ == old(self)@.push(
                Some(NodeView { widget, parent: None, children: Seq::empty(), changed: true }),
            ),
    {
        let ghost s = self@;
        let id = self.nodes.len();
        self.nodes.push(Some(Node { widget, parent: None, children: Vec::new(), changed: true }));
        let ghost t = s.push(
            Some(NodeView { widget, parent: None, children: Seq::empty(), changed: true }),
        );
        assert(self@ =~= t);
        assert forall|i: int| 0 <= i < t.len() && #[trigger] t[i] is Some implies node_wf(t, i) by {
            if i < s.len() {
                assert(node_wf(s, i));
                let n = node(s, i);
                assert forall|k: int| 0 <= k < n.children.len() implies live(
                    t,
                    #[trigger] n.children[k] as int,
                ) && node(t, n.children[k] as int).parent == Some(i as WidgetId) by {
                    assert(live(s, n.children[k] as int));
                }
            }
        }
        id
    }

    /// Adds a widget as the last child of container `parent`. Nothing is added
    /// where `parent` is dead or is no container.
    pub fn spawn_child(&mut self, parent: WidgetId, widget: Widget) -> (r: Option<WidgetId>)
        requires
            old(self).wf(),
            widget.text_fits(),
            old(self)@.len() < usize::MAX,
        ensures
            final(self).wf(),
            r is Some <==> (live(old(self)@, parent as int) && node(
                old(self)@,
                parent as int,
            ).widget.vbox),
            r is None ==> final(self)@ == old(self)@,
            r is Some ==> ({
                let s = old(self)@;
                let pn = node(s, parent as int);
                &&& r == Some(s.len() as WidgetId)
                &&& final(self)@ == s.update(
                    parent as int,
                    Some(NodeView { children: pn.children.push(s.len() as WidgetId), ..pn }),
                ).push(
                    Some(
                        NodeView {
                            widget,
                            parent: Some(parent),
                            children: Seq::empty(),
                            changed: true,
                        },
                    ),
                )
            }),
    {
        if !self.contains(parent) {
            return None;
        }
        let is_box = match &self.nodes[parent] {
            Some(n) => n.widget.vbox,
            None => false,
        };
        if !is_box {
            return None;
        }
        let ghost s = self@;
        let id = self.nodes.len();
        let mut slot: Option<Node> = None;
        std::mem::swap(&mut self.nodes[parent], &mut slot);
        let mut pn = match slot {
            Some(n) => n,
            None => { return None; },
        };
        let ghost old_children = pn.children@;
        pn.children.push(id);
        self.nodes[parent] = Some(pn);
        self.nodes.push(
            Some(Node { widget, parent: Some(parent), children: Vec::new(), changed: true }),
        );
        let ghost opn = node(s, parent as int);
        let ghost t = s.update(
            parent as int,
            Some(NodeView { children: opn.children.push(id), ..opn }),
        ).push(Some(NodeView { widget, parent: Some(parent), children: Seq::empty(), changed: true }));
        assert(self@ =~= t);
        assert(node_wf(s, parent as int));
        assert forall|i: int| 0 <= i < t.len() && #[trigger] t[i] is Some implies node_wf(t, i) by {
            if i < s.len() {
                assert(node_wf(s, i));
                let n = node(s, i);
                let m = node(t, i);
                assert forall|k: int| 0 <= k < m.children.len() implies live(
                    t,
                    #[trigger] m.children[k] as int,
                ) && node(t, m.children[k] as int).parent == Some(i as WidgetId) by {
                    if i == parent && k == n.children.len() {
                    } else {
                        assert(m.children[k] == n.children[k]);
                        assert(live(s, n.children[k] as int));
                    }
                }
                if i == parent {
                    assert forall|a: int, b: int|
                        0 <= a < b < m.children.len() implies m.children[a] != m.children[b] by {
                        if b == n.children.len() {
                            assert(live(s, n.children[a] as int));
                        }
                    }
                }
                if let Some(p) = n.parent {
                    if live(s, p as int) {
                        let pc = node(s, p as int).children;
                        let j = choose|j: int| 0 <= j < pc.len() && pc[j] == i as WidgetId;
                        assert(node(t, p as int).children[j] == i as WidgetId);
                    }
                }
            } else {
                assert(node(t, parent as int).children[old_children.len() as int] == i as WidgetId);
            }
        }
        Some(id)
    }

    /// Removes widget `id`, and the edge from its parent. Its children stay,
    /// naming a parent that no longer exists. Nothing happens where `id` is
    /// dead.
    pub fn despawn(&mut self, id: WidgetId) -> (r: bool)
        requires
            old(self).wf(),
        ensures
            final(self).wf(),
            r == live(old(self)@, id as int),
            r ==> final(self)@ == despawned(old(self)@, id as int),
            !r ==> final(self)@ == old(self)@,
    {
        if !self.contains(id) {
            return false;
        }
        let ghost s = self@;
        let count = self.nodes.len();
        proof {
            assert(node_wf(s, id as int));
            assert(s.len() == count);
        }
        let mut slot: Option<Node> = None;
        std::mem::swap(&mut self.nodes[id], &mut slot);
        let parent = match &slot {
            Some(n) => n.parent,
            None => None,
        };
        let ghost t = s.update(id as int, None);
        assert(self@ =~= t);
        if let Some(p) = parent {
            if self.contains(p) {
                let mut pslot: Option<Node> = None;
                std::mem::swap(&mut self.nodes[p], &mut pslot);
                if let Some(mut pn) = pslot {
                    let ghost pc = pn.children@;
                    proof {
                        assert(node_wf(s, p as int));
                        assert(pc == node(s, p as int).children);
                    }
                    let mut k: usize = 0;
                    while k < pn.children.len() && pn.children[k] != id
                        invariant
                            pn.children@ == pc,
                            pc.contains(id),
                            k <= pc.len(),
                            forall|j: int| 0 <= j < k ==> pc[j] != id,
                        decreases pc.len() - k,
                    {
                        k = k + 1;
                    }
                    proof {
                        if k == pc.len() {
                            let j = choose|j: int| 0 <= j < pc.len() && pc[j] == id;
                            assert(pc[j] == id);
                        }
                        let j = pc.index_of(id);
                        assert(0 <= j < pc.len() && pc[j] == id);
                        assert(j == k as int);
                    }
                    pn.children.remove(k);
                    self.nodes[p] = Some(pn);
                }
            }
        }
        let ghost u = despawned(s, id as int);
        assert(self@ =~= u);
        let ghost pj: int = match node(s, id as int).parent {
            Some(p) => node(s, p as int).children.index_of(id),
            None => 0,
        };
        assert forall|i: int| 0 <= i < u.len() && #[trigger] u[i] is Some implies node_wf(u, i) by {
            assert(node_wf(s, i));
            let n = node(s, i);
            let m = node(u, i);
            let at_parent = Some(i as WidgetId) == node(s, id as int).parent;
            if at_parent {
                assert(live(s, i));
                assert(node(s, id as int).parent->Some_0 as int == i);
                assert(n.children.contains(id));
                assert(0 <= pj < n.children.len() && n.children[pj] == id);
                n.children.remove_ensures(pj);
                assert(m.children == n.children.remove(pj));
            } else {
                assert(m.children == n.children);
            }
            assert forall|k: int| 0 <= k < m.children.len() implies live(
                u,
                #[trigger] m.children[k] as int,
            ) && node(u, m.children[k] as int).parent == Some(i as WidgetId) by {
                let k2 = if at_parent && k >= pj { k + 1 } else { k };
                assert(m.children[k] == n.children[k2]);
                assert(live(s, n.children[k2] as int));
                if at_parent {
                    assert(k2 != pj);
                    assert(n.children[k2] != n.children[pj]);
                } else {
                    assert(n.children[k2] != id);
                }
            }
            if at_parent {
                assert forall|a: int, b: int|
                    0 <= a < b < m.children.len() implies m.children[a] != m.children[b] by {
                    let a2 = if a < pj { a } else { a + 1 };
                    let b2 = if b < pj { b } else { b + 1 };
                    assert(m.children[a] == n.children[a2]);
                    assert(m.children[b] == n.children[b2]);
                }
            }
            if let Some(q) = n.parent {
                if live(u, q as int) {
                    let qc = node(s, q as int).children;
                    let j = choose|j: int| 0 <= j < qc.len() && qc[j] == i as WidgetId;
                    if Some(q) == node(s, id as int).parent {
                        assert(j != pj);
                        let j2 = if j < pj { j } else { j - 1 };
                        assert(node(u, q as int).children[j2] == i as WidgetId);
                    } else {
                        assert(node(u, q as int).children[j] == i as WidgetId);
                    }
                }
            }
        }
        true
    }

    /// Gives live widget `id` the text `text`, attaching one where it had
    /// none, and marks it for measuring. Nothing happens where `id` is dead.
    pub fn set_text(&mut self, id: WidgetId, text: String) -> (r: bool)
        requires
            old(self).wf(),
            text@.len() <= MAX_TEXT,
        ensures
            final(self).wf(),
            r == live(old(self)@, id as int),
            !r ==> final(self)@ == old(self)@,
            r ==> final(self)@ == old(self)@.update(
                id as int,
                Some(
                    NodeView {
                        widget: Widget {
                            label: Some(crate::ui::Label { text }),
                            ..node(old(self)@, id as int).widget
                        },
                        changed: true,
                        ..node(old(self)@, id as int)
                    },
                ),
            ),
    {
        if !self.contains(id) {
            return false;
        }
        let ghost s = self@;
        let mut n = self.take_node(id);
        let ghost t = s.update(
            id as int,
            Some(
                NodeView {
                    widget: Widget {
                        label: Some(crate::ui::Label { text }),
                        ..node(s, id as int).widget
                    },
                    changed: true,
                    ..node(s, id as int)
                },
            ),
        );
        n.widget.label = Some(crate::ui::Label { text });
        n.changed = true;
        self.nodes[id] = Some(n);
        assert(self@ =~= t);
        proof {
            assert forall|i: int| 0 <= i < t.len() && #[trigger] t[i] is Some implies crate::store::node_wf(t, i) by {
                assert(node_wf(s, i));
                let m = node(s, i);
                assert forall|k: int| 0 <= k < m.children.len() implies live(
                    t,
                    #[trigger] m.children[k] as int,
                ) && node(t, m.children[k] as int).parent == Some(i as WidgetId) by {
                    assert(live(s, m.children[k] as int));
                }
                if let Some(p) = m.parent {
                    if live(t, p as int) {
                        assert(node(t, p as int).children == node(s, p as int).children);
                    }
                }
            }
        }
        true
    }

    /// Moves live widget `id` to `position`. Only a widget without a parent
    /// is placed by hand: for any other, nothing happens.
    pub fn set_position(&mut self, id: WidgetId, position: NPosition) -> (r: bool)
        requires
            old(self).wf(),
        ensures
            final(self).wf(),
            r == (live(old(self)@, id as int) && node(old(self)@, id as int).parent is None),
            !r ==> final(self)@ == old(self)@,
            r ==> final(self)@ == with_widget(
                old(self)@,
                id as int,
                Widget { position: position, ..node(old(self)@, id as int).widget },
            ),
    {
        if !self.contains(id) {
            return false;
        }
        if self.parent_of(id).is_some() {
            return false;
        }
        let ghost s = self@;
        let mut n = self.take_node(id);
        n.widget.position = position;
        self.nodes[id] = Some(n);
        let ghost t = with_widget(s, id as int, Widget { position: position, ..node(s, id as int).widget });
        assert(self@ =~= t);
        proof {
            lemma_same_shape(s, t);
        }
        true
    }

    /// Gives live widget `id` the offset `local_position` within its parent's
    /// slot; nothing happens where `id` is dead.
    pub fn set_local_position(&mut self, id: WidgetId, local_position: NLocalPosition) -> (r: bool)
        requires
            old(self).wf(),
        ensures
            final(self).wf(),
            r == (live(old(self)@, id as int)),
            !r ==> final(self)@ == old(self)@,
            r ==> final(self)@ == with_widget(
                old(self)@,
                id as int,
                Widget { local_position: local_position, ..node(old(self)@, id as int).widget },
            ),
    {
        if !self.contains(id) {
            return false;
        }
        let ghost s = self@;
        let mut n = self.take_node(id);
        n.widget.local_position = local_position;
        self.nodes[id] = Some(n);
        let ghost t = with_widget(s, id as int, Widget { local_position: local_position, ..node(s, id as int).widget });
        assert(self@ =~= t);
        proof {
            lemma_same_shape(s, t);
        }
        true
    }

    /// Gives live widget `id` the color `color`; nothing happens where `id` is
    /// dead.
    pub fn set_color(&mut self, id: WidgetId, color: NColor) -> (r: bool)
        requires
            old(self).wf(),
        ensures
            final(self).wf(),
            r == (live(old(self)@, id as int)),
            !r ==> final(self)@ == old(self)@,
            r ==> final(self)@ == with_widget(
                old(self)@,
                id as int,
                Widget { color: Some(color), ..node(old(self)@, id as int).widget },
            ),
    {
        if !self.contains(id) {
            return false;
        }
        let ghost s = self@;
        let mut n = self.take_node(id);
        n.widget.color = Some(color);
        self.nodes[id] = Some(n);
        let ghost t = with_widget(s, id as int, Widget { color: Some(color), ..node(s, id as int).widget });
        assert(self@ =~= t);
        proof {
            lemma_same_shape(s, t);
        }
        true
    }

    /// Gives live widget `id` the padding `padding`; nothing happens where `id`
    /// is dead.
    pub fn set_padding(&mut self, id: WidgetId, padding: Padding) -> (r: bool)
        requires
            old(self).wf(),
        ensures
            final(self).wf(),
            r == (live(old(self)@, id as int)),
            !r ==> final(self)@ == old(self)@,
            r ==> final(self)@ == with_widget(
                old(self)@,
                id as int,
                Widget { padding: padding.0, ..node(old(self)@, id as int).widget },
            ),
    {
        if !self.contains(id) {
            return false;
        }
        let ghost s = self@;
        let mut n = self.take_node(id);
        n.widget.padding = padding.0;
        self.nodes[id] = Some(n);
        let ghost t = with_widget(s, id as int, Widget { padding: padding.0, ..node(s, id as int).widget });
        assert(self@ =~= t);
        proof {
            lemma_same_shape(s, t);
        }
        true
    }

    /// Gives live widget `id` the spacing `spacing`; nothing happens where `id`
    /// is dead.
    pub fn set_spacing(&mut self, id: WidgetId, spacing: Spacing) -> (r: bool)
        requires
            old(self).wf(),
        ensures
            final(self).wf(),
            r == (live(old(self)@, id as int)),
            !r ==> final(self)@ == old(self)@,
            r ==> final(self)@ == with_widget(
                old(self)@,
                id as int,
                Widget { spacing: spacing.0, ..node(old(self)@, id as int).widget },
            ),
    {
        if !self.contains(id) {
            return false;
        }
        let ghost s = self@;
        let mut n = self.take_node(id);
        n.widget.spacing = spacing.0;
        self.nodes[id] = Some(n);
        let ghost t = with_widget(s, id as int, Widget { spacing: spacing.0, ..node(s, id as int).widget });
        assert(self@ =~= t);
        proof {
            lemma_same_shape(s, t);
        }
        true
    }

    /// Makes live widget `id` react to clicks or not; nothing happens where
    /// `id` is dead.
    pub fn set_clickable(&mut self, id: WidgetId, clickable: bool) -> (r: bool)
        requires
            old(self).wf(),
        ensures
            final(self).wf(),
            r == (live(old(self)@, id as int)),
            !r ==> final(self)@ == old(self)@,
            r ==> final(self)@ == with_widget(
                old(self)@,
                id as int,
                Widget { clickable: clickable, ..node(old(self)@, id as int).widget },
            ),
    {
        if !self.contains(id) {
            return false;
        }
        let ghost s = self@;
        let mut n = self.take_node(id);
        n.widget.clickable = clickable;
        self.nodes[id] = Some(n);
        let ghost t = with_widget(s, id as int, Widget { clickable: clickable, ..node(s, id as int).widget });
        assert(self@ =~= t);
        proof {
            lemma_same_shape(s, t);
        }
        true
    }

    /// Removes live widget `id`'s text, so it is no longer measured or painted;
    /// nothing happens where `id` is dead.
    pub fn remove_text(&mut self, id: WidgetId) -> (r: bool)
        requires
            old(self).wf(),
        ensures
            final(self).wf(),
            r == live(old(self)@, id as int),
            !r ==> final(self)@ == old(self)@,
            r ==> final(self)@ == with_widget(
                old(self)@,
                id as int,
                Widget { label: None, ..node(old(self)@, id as int).widget },
            ),
    {
        if !self.contains(id) {
            return false;
        }
        let ghost s = self@;
        let mut n = self.take_node(id);
        n.widget.label = None;
        self.nodes[id] = Some(n);
        let ghost t = with_widget(s, id as int, Widget { label: None, ..node(s, id as int).widget });
        assert(self@ =~= t);
        proof {
            lemma_same_shape(s, t);
        }
        true
    }

    /// Removes live widget `id`'s color, so it is no longer painted; nothing
    /// happens where `id` is dead.
    pub fn remove_color(&mut self, id: WidgetId) -> (r: bool)
        requires
            old(self).wf(),
        ensures
            final(self).wf(),
            r == live(old(self)@, id as int),
            !r ==> final(self)@ == old(self)@,
            r ==> final(self)@ == with_widget(
                old(self)@,
                id as int,
                Widget { color: None, ..node(old(self)@, id as int).widget },
            ),
    {
        if !self.contains(id) {
            return false;
        }
        let ghost s = self@;
        let mut n = self.take_node(id);
        n.widget.color = None;
        self.nodes[id] = Some(n);
        let ghost t = with_widget(s, id as int, Widget { color: None, ..node(s, id as int).widget });
        assert(self@ =~= t);
        proof {
            lemma_same_shape(s, t);
        }
        true
    }

    /// Takes live widget `i`'s node out of its slot.
    fn take_node(&mut self, i: WidgetId) -> (r: Node)
        requires
            live(old(self)@, i as int),
        ensures
            final(self).nodes@ == old(self).nodes@.update(i as int, None),
            r.view() == node(old(self)@, i as int),
    {
        let mut slot: Option<Node> = None;
        std::mem::swap(&mut self.nodes[i], &mut slot);
        match slot {
            Some(n) => n,
            None => vstd::pervasive::unreached(),
        }
    }

    /// Gives live widget `i` the absolute position `p`.
    pub(crate) fn put_position(&mut self, i: WidgetId, p: NPosition)
        requires
            old(self).wf(),
            live(old(self)@, i as int),
        ensures
            final(self).wf(),
            final(self)@ == with_widget(
                old(self)@,
                i as int,
                Widget { position: p, ..node(old(self)@, i as int).widget },
            ),
    {
        let ghost s = self@;
        let mut n = self.take_node(i);
        n.widget.position = p;
        self.nodes[i] = Some(n);
        let ghost t = with_widget(s, i as int, Widget { position: p, ..node(s, i as int).widget });
        assert(self@ =~= t);
        proof {
            lemma_same_shape(s, t);
        }
    }

    /// Gives live widget `i` the extent `z`.
    pub(crate) fn put_size(&mut self, i: WidgetId, z: NSize)
        requires
            old(self).wf(),
            live(old(self)@, i as int),
        ensures
            final(self).wf(),
            final(self)@ == with_widget(
                old(self)@,
                i as int,
                Widget { size: z, ..node(old(self)@, i as int).widget },
            ),
    {
        let ghost s = self@;
        let mut n = self.take_node(i);
        n.widget.size = z;
        self.nodes[i] = Some(n);
        let ghost t = with_widget(s, i as int, Widget { size: z, ..node(s, i as int).widget });
        assert(self@ =~= t);
        proof {
            lemma_same_shape(s, t);
        }
    }

    /// Sets or clears live widget `i`'s mark of changed text.
    pub(crate) fn put_changed(&mut self, i: WidgetId, changed: bool)
        requires
            old(self).wf(),
            live(old(self)@, i as int),
        ensures
            final(self).wf(),
            final(self)@ == old(self)@.update(
                i as int,
                Some(NodeView { changed, ..node(old(self)@, i as int) }),
            ),
    {
        let ghost s = self@;
        let mut n = self.take_node(i);
        n.changed = changed;
        self.nodes[i] = Some(n);
        let ghost t = s.update(i as int, Some(NodeView { changed, ..node(s, i as int) }));
        assert(self@ =~= t);
        proof {
            lemma_same_shape(s, t);
        }
    }
}

/// Two arenas with the same live widgets, edges and texts are both
/// well-formed or neither is.
proof fn lemma_same_shape(s: Seq<Option<NodeView>>, t: Seq<Option<NodeView>>)
    requires
        store_wf(s),
        s.len() == t.len(),
        forall|i: int| 0 <= i < s.len() ==> (#[trigger] t[i] is Some <==> s[i] is Some),
        forall|i: int|
            live(s, i) ==> (#[trigger] node(t, i)).parent == node(s, i).parent && node(t, i).children
                == node(s, i).children && (node(t, i).widget.label == node(s, i).widget.label
                || node(t, i).widget.label is None) && node(t, i).widget.vbox == node(
                s,
                i,
            ).widget.vbox,
    ensures
        store_wf(t),
{
    assert forall|i: int| 0 <= i < t.len() && #[trigger] t[i] is Some implies node_wf(t, i) by {
        assert(s[i] is Some);
        assert(node_wf(s, i));
        let n = node(s, i);
        assert(node(t, i).children == n.children);
        assert forall|k: int| 0 <= k < n.children.len() implies live(
            t,
            #[trigger] n.children[k] as int,
        ) && node(t, n.children[k] as int).parent == Some(i as WidgetId) by {
            assert(live(s, n.children[k] as int));
            assert(node(t, n.children[k] as int).parent == node(s, n.children[k] as int).parent);
        }
        if let Some(p) = n.parent {
            if live(t, p as int) {
                assert(node(t, p as int).children == node(s, p as int).children);
            }
        }
    }
}

/// A copy of a list of identities.
fn copy_ids(v: &Vec<WidgetId>) -> (r: Vec<WidgetId>)
    ensures
        r@ == v@,
{
    let mut r: Vec<WidgetId> = Vec::new();
    let mut k: usize = 0;
    while k < v.len()
        invariant
            k <= v@.len(),
            r@ == v@.take(k as int),
        decreases v@.len() - k,
    {
        r.push(v[k]);
        k = k + 1;
        assert(r@ =~= v@.take(k as int));
    }
    assert(v@.take(v@.len() as int) =~= v@);
    r
}

} // verus!
