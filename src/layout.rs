//! Layout: containers stack their children top to bottom and grow to bound
//! them.
//!
//! A resolution runs three steps. First each container places its direct
//! children, reading the container positions as they were when the step
//! began; a container nested in another thus places its children at its
//! previous position, and a tree settles one level per resolution. A
//! container that cannot place all its children within the grid places none
//! of them. Then every parent edge is checked: a widget whose parent was
//! removed makes the arena inconsistent, and the resolution stops there. Last
//! each container grows to bound its children, reading the extents as they
//! were when that step began, and never stays below its padding.
//!
//! Coordinates are cell counts: a resolution whose arithmetic leaves the
//! range of `u16` is refused.
use vstd::prelude::*;
use crate::geometry::{NPosition, NSize};
use crate::store::{live, node, store_wf, NodeView, WidgetId, WidgetStore};
use crate::ui::Widget;

verus! {

/// Why a layout cannot be resolved.
#[derive(Debug, Clone, Copy, PartialEq, Eq, Structural)]
pub enum LayoutError {
    /// The widget names a parent that no longer exists.
    MissingParent(WidgetId),
    /// A position or an extent does not fit in a cell coordinate.
    Overflow,
}

/// Live widget `i` names a parent that no longer exists.
pub open spec fn orphan(s: Seq<Option<NodeView>>, i: int) -> bool {
    live(s, i) && (node(s, i).parent matches Some(p) && !live(s, p as int))
}

pub open spec fn has_orphan(s: Seq<Option<NodeView>>) -> bool {
    exists|i: int| orphan(s, i)
}

pub open spec fn is_container(s: Seq<Option<NodeView>>, c: int) -> bool {
    live(s, c) && node(s, c).widget.vbox
}

/// The `k`-th child of widget `c`.
pub open spec fn child(s: Seq<Option<NodeView>>, c: int, k: int) -> Widget {
    node(s, node(s, c).children[k] as int).widget
}

/// The row, counted from container `c`'s top, at which its `k`-th child's
/// slot begins: the padding, then the height and the spacing of each earlier
/// child.
pub open spec fn cursor(s: Seq<Option<NodeView>>, c: int, k: int) -> int
    decreases k,
{
    if k <= 0 {
        node(s, c).widget.padding as int
    } else {
        cursor(s, c, k - 1) + child(s, c, k - 1).size.y + node(s, c).widget.spacing
    }
}

/// The column at which container `c` places its `k`-th child.
pub open spec fn placed_x(s: Seq<Option<NodeView>>, c: int, k: int) -> int {
    node(s, c).widget.position.x + node(s, c).widget.padding + child(s, c, k).local_position.x
}

/// The row at which container `c` places its `k`-th child.
pub open spec fn placed_y(s: Seq<Option<NodeView>>, c: int, k: int) -> int {
    node(s, c).widget.position.y + cursor(s, c, k) + child(s, c, k).local_position.y
}

/// Every placement that container `c` makes is a cell coordinate.
pub open spec fn container_fits(s: Seq<Option<NodeView>>, c: int) -> bool {
    forall|k: int|
        #![trigger placed_x(s, c, k)]
        #![trigger placed_y(s, c, k)]
        0 <= k < node(s, c).children.len() ==> placed_x(s, c, k) <= u16::MAX && placed_y(s, c, k)
            <= u16::MAX
}

/// Every placement of every container is a cell coordinate.
pub open spec fn positions_fit(s: Seq<Option<NodeView>>) -> bool {
    forall|c: int| #[trigger] is_container(s, c) ==> container_fits(s, c)
}

/// Where live widget `i` stands once its parent has placed it. A widget
/// whose parent is dead, or whose parent cannot place all its children
/// within the grid, stays where it is.
pub open spec fn placed_position(s: Seq<Option<NodeView>>, i: int) -> NPosition {
    let n = node(s, i);
    match n.parent {
        Some(p) => if live(s, p as int) && container_fits(s, p as int) {
            let k = node(s, p as int).children.index_of(i as WidgetId);
            NPosition { x: placed_x(s, p as int, k) as u16, y: placed_y(s, p as int, k) as u16 }
        } else {
            n.widget.position
        },
        None => n.widget.position,
    }
}

/// The arena after every container has placed its children.
pub open spec fn positioned(s: Seq<Option<NodeView>>) -> Seq<Option<NodeView>> {
    Seq::new(
        s.len(),
        |i: int|
            match s[i] {
                Some(n) => Some(
                    NodeView {
                        widget: Widget { position: placed_position(s, i), ..n.widget },
                        ..n
                    },
                ),
                None => None,
            },
    )
}

/// How far down from container `c`'s top its `k`-th child's row lies, in
/// either direction, plus the padding.
pub open spec fn child_depth(s: Seq<Option<NodeView>>, c: int, k: int) -> int {
    let d = child(s, c, k).position.y - node(s, c).widget.position.y;
    (if d < 0 {
        -d
    } else {
        d
    }) + node(s, c).widget.padding
}

/// The width of container `c` once its first `k` children are bounded.
pub open spec fn grown_width(s: Seq<Option<NodeView>>, c: int, k: int) -> int
    decreases k,
{
    if k <= 0 {
        if node(s, c).widget.size.x < node(s, c).widget.padding {
            node(s, c).widget.padding as int
        } else {
            node(s, c).widget.size.x as int
        }
    } else {
        let w = child(s, c, k - 1).size.x + node(s, c).widget.padding;
        let g = grown_width(s, c, k - 1);
        if g < w {
            w
        } else {
            g
        }
    }
}

/// The height of container `c` once its first `k` children are bounded.
pub open spec fn grown_height(s: Seq<Option<NodeView>>, c: int, k: int) -> int
    decreases k,
{
    if k <= 0 {
        if node(s, c).widget.size.y < node(s, c).widget.padding {
            node(s, c).widget.padding as int
        } else {
            node(s, c).widget.size.y as int
        }
    } else {
        let h = child_depth(s, c, k - 1);
        let g = grown_height(s, c, k - 1);
        if g < h {
            h
        } else {
            g
        }
    }
}

/// The extents that container `c`'s `k`-th child asks for are cell counts.
pub open spec fn child_fits(s: Seq<Option<NodeView>>, c: int, k: int) -> bool {
    child(s, c, k).size.x + node(s, c).widget.padding <= u16::MAX && child_depth(s, c, k)
        <= u16::MAX
}

/// Every extent that bounding asks for is a cell count.
pub open spec fn sizes_fit(s: Seq<Option<NodeView>>) -> bool {
    forall|c: int, k: int|
        is_container(s, c) && 0 <= k < node(s, c).children.len() ==> #[trigger] child_fits(s, c, k)
}

/// The extent of live widget `i` once the containers have grown.
pub open spec fn grown_size(s: Seq<Option<NodeView>>, i: int) -> NSize {
    let n = node(s, i);
    if n.widget.vbox {
        NSize {
            x: grown_width(s, i, n.children.len() as int) as u16,
            y: grown_height(s, i, n.children.len() as int) as u16,
        }
    } else {
        n.widget.size
    }
}

/// The arena after every container has grown to bound its children.
pub open spec fn sized(s: Seq<Option<NodeView>>) -> Seq<Option<NodeView>> {
    Seq::new(
        s.len(),
        |i: int|
            match s[i] {
                Some(n) => Some(
                    NodeView { widget: Widget { size: grown_size(s, i), ..n.widget }, ..n },
                ),
                None => None,
            },
    )
}

/// The arena after a resolution.
pub open spec fn resolved(s: Seq<Option<NodeView>>) -> Seq<Option<NodeView>> {
    sized(positioned(s))
}

/// Whether a resolution of `s` succeeds.
pub open spec fn resolvable(s: Seq<Option<NodeView>>) -> bool {
    !has_orphan(s) && positions_fit(s) && sizes_fit(positioned(s))
}

/// Whether live widget `i` has been placed once containers below `c` have
/// placed all their children and container `c` its first `k`.
spec fn placed_before(s: Seq<Option<NodeView>>, i: int, c: int, k: int) -> bool {
    match node(s, i).parent {
        Some(p) => live(s, p as int) && container_fits(s, p as int) && (p < c || (p == c && node(
            s,
            p as int,
        ).children.index_of(i as WidgetId) < k)),
        None => false,
    }
}

/// The arena part way through the placing step.
spec fn position_stage(s: Seq<Option<NodeView>>, c: int, k: int) -> Seq<Option<NodeView>> {
    Seq::new(
        s.len(),
        |i: int|
            match s[i] {
                Some(n) => Some(
                    NodeView {
                        widget: Widget {
                            position: if placed_before(s, i, c, k) {
                                placed_position(s, i)
                            } else {
                                n.widget.position
                            },
                            ..n.widget
                        },
                        ..n
                    },
                ),
                None => None,
            },
    )
}

/// The arena part way through the growing step.
spec fn size_stage(s: Seq<Option<NodeView>>, c: int) -> Seq<Option<NodeView>> {
    Seq::new(
        s.len(),
        |i: int|
            match s[i] {
                Some(n) => Some(
                    NodeView {
                        widget: Widget {
                            size: if i < c {
                                grown_size(s, i)
                            } else {
                                n.widget.size
                            },
                            ..n.widget
                        },
                        ..n
                    },
                ),
                None => None,
            },
    )
}

/// In a list without repeats, an entry is found at its own index.
proof fn lemma_index_of_unique(v: Seq<WidgetId>, k: int)
    requires
        v.no_duplicates(),
        0 <= k < v.len(),
    ensures
        v.index_of(v[k]) == k,
{
    assert(v.contains(v[k]));
    let j = v.index_of(v[k]);
    assert(0 <= j < v.len() && v[j] == v[k]);
}

/// Placing the `k`-th child of container `c` moves the placing step on by one.
proof fn lemma_position_step(s: Seq<Option<NodeView>>, c: int, k: int)
    requires
        store_wf(s),
        is_container(s, c),
        container_fits(s, c),
        0 <= k < node(s, c).children.len(),
    ensures
        ({
            let t = position_stage(s, c, k);
            let ch = node(s, c).children[k] as int;
            &&& live(t, ch)
            &&& crate::store::with_widget(
                t,
                ch,
                Widget { position: placed_position(s, ch), ..node(t, ch).widget },
            ) == position_stage(s, c, k + 1)
            &&& placed_position(s, ch) == (NPosition {
                x: placed_x(s, c, k) as u16,
                y: placed_y(s, c, k) as u16,
            })
        }),
{
    let t = position_stage(s, c, k);
    let u = position_stage(s, c, k + 1);
    let kids = node(s, c).children;
    let ch = kids[k] as int;
    assert(crate::store::node_wf(s, c));
    assert(live(s, ch) && node(s, ch).parent == Some(c as WidgetId));
    lemma_index_of_unique(kids, k);
    let w = crate::store::with_widget(
        t,
        ch,
        Widget { position: placed_position(s, ch), ..node(t, ch).widget },
    );
    assert forall|i: int| 0 <= i < s.len() implies #[trigger] w[i] == u[i] by {
        if i != ch && s[i] is Some {
            assert(crate::store::node_wf(s, i));
            if let Some(p) = node(s, i).parent {
                if p == c && live(s, p as int) {
                    assert(kids.contains(i as WidgetId));
                    let j = kids.index_of(i as WidgetId);
                    assert(kids[j] == i as WidgetId);
                    assert(j != k);
                }
            }
        }
    }
    assert(w =~= u);
}

/// Once container `c` has placed all its children, the step moves on to the
/// next container.
proof fn lemma_position_next(s: Seq<Option<NodeView>>, c: int)
    requires
        store_wf(s),
        0 <= c < s.len(),
    ensures
        position_stage(s, c + 1, 0) == position_stage(
            s,
            c,
            if is_container(s, c) && container_fits(s, c) {
                node(s, c).children.len() as int
            } else {
                0
            },
        ),
{
    let k = if is_container(s, c) && container_fits(s, c) {
        node(s, c).children.len() as int
    } else {
        0
    };
    let t = position_stage(s, c, k);
    let u = position_stage(s, c + 1, 0);
    assert forall|i: int| 0 <= i < s.len() implies #[trigger] t[i] == u[i] by {
        if s[i] is Some {
            assert(crate::store::node_wf(s, i));
            if let Some(p) = node(s, i).parent {
                if p == c && live(s, p as int) {
                    let kids = node(s, c).children;
                    assert(kids.contains(i as WidgetId));
                    let j = kids.index_of(i as WidgetId);
                    assert(0 <= j < kids.len());
                }
            }
        }
    }
    assert(t =~= u);
}

impl WidgetStore {
    /// A live widget that names a dead parent, if there is one.
    pub fn find_orphan(&self) -> (r: Option<WidgetId>)
        requires
            self.wf(),
        ensures
            r is None <==> !has_orphan(self@),
            r matches Some(i) ==> orphan(self@, i as int),
    {
        let n = self.len();
        let mut i: usize = 0;
        while i < n
            invariant
                n == self@.len(),
                i <= n,
                forall|j: int| 0 <= j < i ==> !#[trigger] orphan(self@, j),
            decreases n - i,
        {
            if let Some(p) = self.parent_of(i) {
                if self.contains(i) && !self.contains(p) {
                    assert(orphan(self@, i as int));
                    return Some(i);
                }
            }
            i = i + 1;
        }
        assert forall|j: int| !#[trigger] orphan(self@, j) by {
            if 0 <= j < i {
            }
        }
        None
    }

    /// Lets every container place its children: see the module's description.
    /// A container that cannot place all its children within the grid places
    /// none of them, and the result is then `false`; the others still place
    /// theirs.
    fn place_children(&mut self) -> (r: bool)
        requires
            old(self).wf(),
        ensures
            final(self).wf(),
            r == positions_fit(old(self)@),
            final(self)@ == positioned(old(self)@),
    {
        let ghost s = self@;
        let n = self.len();
        let mut origins: Vec<NPosition> = Vec::new();
        let mut i: usize = 0;
        while i < n
            invariant
                self@ == s,
                s == old(self)@,
                n == s.len(),
                i <= n,
                origins@.len() == i,
                forall|j: int| 0 <= j < i && live(s, j) ==> #[trigger] origins@[j] == node(
                    s,
                    j,
                ).widget.position,
            decreases n - i,
        {
            match self.get(i) {
                Some(w) => origins.push(w.position),
                None => origins.push(NPosition { x: 0, y: 0 }),
            }
            i = i + 1;
        }
        proof {
            assert(position_stage(s, 0, 0) =~= s);
        }
        let mut ok = true;
        let mut c: usize = 0;
        while c < n
            invariant
                self.wf(),
                store_wf(s),
                s == old(self)@,
                n == s.len(),
                c <= n,
                origins@.len() == n,
                forall|j: int| 0 <= j < n && live(s, j) ==> #[trigger] origins@[j] == node(
                    s,
                    j,
                ).widget.position,
                self@ == position_stage(s, c as int, 0),
                ok <==> forall|c2: int|
                    0 <= c2 < c && #[trigger] is_container(s, c2) ==> container_fits(s, c2),
            decreases n - c,
        {
            let mut frame: Option<(u16, u16)> = None;
            if let Some(w) = self.get(c) {
                if w.vbox {
                    frame = Some((w.padding, w.spacing));
                }
            }
            proof {
                lemma_position_next(s, c as int);
            }
            if let Some((pad, gap)) = frame {
                let kids = self.children_of(c);
                let origin = origins[c];
                // First check that every placement fits.
                let mut fits = true;
                let mut h: u32 = pad as u32;
                let mut k: usize = 0;
                while fits && k < kids.len()
                    invariant
                        self.wf(),
                        store_wf(s),
                        n == s.len(),
                        c < n,
                        is_container(s, c as int),
                        kids@ == node(s, c as int).children,
                        origin == node(s, c as int).widget.position,
                        pad == node(s, c as int).widget.padding,
                        gap == node(s, c as int).widget.spacing,
                        self@ == position_stage(s, c as int, 0),
                        k <= kids@.len(),
                        h as int == cursor(s, c as int, k as int),
                        h <= 3 * 65535,
                        forall|k2: int|
                            #![trigger placed_x(s, c as int, k2)]
                            #![trigger placed_y(s, c as int, k2)]
                            0 <= k2 < k ==> placed_x(s, c as int, k2) <= u16::MAX && placed_y(
                                s,
                                c as int,
                                k2,
                            ) <= u16::MAX,
                        !fits ==> !container_fits(s, c as int),
                    decreases kids@.len() - k + (if fits {
                        1int
                    } else {
                        0int
                    }),
                {
                    let ch = kids[k];
                    proof {
                        assert(crate::store::node_wf(s, c as int));
                        assert(live(s, ch as int));
                    }
                    let (lx, ly, tall) = match self.get(ch) {
                        Some(cw) => (cw.local_position.x, cw.local_position.y, cw.size.y),
                        None => (0, 0, 0),
                    };
                    let x: u32 = origin.x as u32 + pad as u32 + lx as u32;
                    let y: u32 = origin.y as u32 + h + ly as u32;
                    proof {
                        assert(x as int == placed_x(s, c as int, k as int));
                        assert(y as int == placed_y(s, c as int, k as int));
                    }
                    if x > 65535 || y > 65535 {
                        fits = false;
                    } else {
                        h = h + tall as u32 + gap as u32;
                        k = k + 1;
                    }
                }
                if fits {
                    // Then place.
                    let mut h: u32 = pad as u32;
                    let mut k: usize = 0;
                    while k < kids.len()
                        invariant
                            self.wf(),
                            store_wf(s),
                            n == s.len(),
                            c < n,
                            is_container(s, c as int),
                            container_fits(s, c as int),
                            kids@ == node(s, c as int).children,
                            origin == node(s, c as int).widget.position,
                            pad == node(s, c as int).widget.padding,
                            gap == node(s, c as int).widget.spacing,
                            k <= kids@.len(),
                            h as int == cursor(s, c as int, k as int),
                            h <= 3 * 65535,
                            self@ == position_stage(s, c as int, k as int),
                        decreases kids@.len() - k,
                    {
                        let ch = kids[k];
                        proof {
                            assert(crate::store::node_wf(s, c as int));
                            lemma_position_step(s, c as int, k as int);
                            assert(placed_x(s, c as int, k as int) <= u16::MAX);
                            assert(placed_y(s, c as int, k as int) <= u16::MAX);
                        }
                        let (lx, ly, tall) = match self.get(ch) {
                            Some(cw) => (cw.local_position.x, cw.local_position.y, cw.size.y),
                            None => (0, 0, 0),
                        };
                        let x: u32 = origin.x as u32 + pad as u32 + lx as u32;
                        let y: u32 = origin.y as u32 + h + ly as u32;
                        proof {
                            assert(x as int == placed_x(s, c as int, k as int));
                            assert(y as int == placed_y(s, c as int, k as int));
                        }
                        self.put_position(ch, NPosition { x: x as u16, y: y as u16 });
                        h = h + tall as u32 + gap as u32;
                        k = k + 1;
                    }
                } else {
                    ok = false;
                }
            }
            c = c + 1;
        }
        proof {
            let t = position_stage(s, n as int, 0);
            assert forall|i: int| 0 <= i < s.len() implies #[trigger] t[i] == positioned(s)[i] by {
                if s[i] is Some {
                    assert(crate::store::node_wf(s, i));
                }
            }
            assert(t =~= positioned(s));
            assert(ok == positions_fit(s)) by {
                assert forall|c2: int| #[trigger] is_container(s, c2) implies (0 <= c2 < n) by {}
            }
        }
        ok
    }

    /// Lets every container grow to bound its children: see the module's
    /// description. Nothing is promised of the extents when one does not fit.
    fn grow_containers(&mut self) -> (r: bool)
        requires
            old(self).wf(),
        ensures
            final(self).wf(),
            r == sizes_fit(old(self)@),
            r ==> final(self)@ == sized(old(self)@),
            final(self)@.len() == old(self)@.len(),
            forall|i: int|
                live(old(self)@, i) ==> live(final(self)@, i) && #[trigger] node(
                    final(self)@,
                    i,
                ).widget.position == node(old(self)@, i).widget.position,
    {
        let ghost s = self@;
        let n = self.len();
        let mut extents: Vec<NSize> = Vec::new();
        let mut i: usize = 0;
        while i < n
            invariant
                self@ == s,
                s == old(self)@,
                n == s.len(),
                i <= n,
                extents@.len() == i,
                forall|j: int| 0 <= j < i && live(s, j) ==> #[trigger] extents@[j] == node(
                    s,
                    j,
                ).widget.size,
            decreases n - i,
        {
            match self.get(i) {
                Some(w) => extents.push(w.size),
                None => extents.push(NSize { x: 0, y: 0 }),
            }
            i = i + 1;
        }
        proof {
            assert(size_stage(s, 0) =~= s);
        }
        let mut c: usize = 0;
        while c < n
            invariant
                self.wf(),
                store_wf(s),
                s == old(self)@,
                n == s.len(),
                c <= n,
                extents@.len() == n,
                forall|j: int| 0 <= j < n && live(s, j) ==> #[trigger] extents@[j] == node(
                    s,
                    j,
                ).widget.size,
                self@ == size_stage(s, c as int),
                forall|c2: int, k2: int|
                    0 <= c2 < c && is_container(s, c2) && 0 <= k2 < node(s, c2).children.len()
                        ==> #[trigger] child_fits(s, c2, k2),
            decreases n - c,
        {
            let mut frame: Option<(u16, u16)> = None;
            if let Some(w) = self.get(c) {
                if w.vbox {
                    frame = Some((w.padding, w.position.y));
                }
            }
            if let Some((pad, top)) = frame {
                let kids = self.children_of(c);
                let start = extents[c];
                let mut wide: u32 = if start.x < pad {
                    pad as u32
                } else {
                    start.x as u32
                };
                let mut tall: u32 = if start.y < pad {
                    pad as u32
                } else {
                    start.y as u32
                };
                let mut k: usize = 0;
                proof {
                    assert(crate::store::node_wf(s, c as int));
                }
                while k < kids.len()
                    invariant
                        self.wf(),
                        store_wf(s),
                        s == old(self)@,
                        n == s.len(),
                        c < n,
                        is_container(s, c as int),
                        crate::store::node_wf(s, c as int),
                        kids@ == node(s, c as int).children,
                        extents@.len() == n,
                        forall|j: int| 0 <= j < n && live(s, j) ==> #[trigger] extents@[j] == node(
                            s,
                            j,
                        ).widget.size,
                        pad == node(s, c as int).widget.padding,
                        top == node(s, c as int).widget.position.y,
                        k <= kids@.len(),
                        wide as int == grown_width(s, c as int, k as int),
                        tall as int == grown_height(s, c as int, k as int),
                        wide <= 65535,
                        tall <= 65535,
                        self@ == size_stage(s, c as int),
                        forall|k2: int| 0 <= k2 < k ==> #[trigger] child_fits(s, c as int, k2),
                        forall|c2: int, k2: int|
                            0 <= c2 < c && is_container(s, c2) && 0 <= k2 < node(
                                s,
                                c2,
                            ).children.len() ==> #[trigger] child_fits(s, c2, k2),
                    decreases kids@.len() - k,
                {
                    let ch = kids[k];
                    proof {
                        assert(live(s, ch as int));
                    }
                    let row = match self.get(ch) {
                        Some(cw) => cw.position.y,
                        None => 0,
                    };
                    let cs = extents[ch];
                    let w: u32 = cs.x as u32 + pad as u32;
                    let d: u32 = if row >= top {
                        (row - top) as u32
                    } else {
                        (top - row) as u32
                    } + pad as u32;
                    proof {
                        assert(w as int == child(s, c as int, k as int).size.x + pad);
                        assert(d as int == child_depth(s, c as int, k as int));
                    }
                    if w > 65535 || d > 65535 {
                        proof {
                            assert(is_container(s, c as int));
                            assert(0 <= k < node(s, c as int).children.len());
                            assert(!child_fits(s, c as int, k as int));
                            assert(!sizes_fit(s));
                        }
                        return false;
                    }
                    assert(child_fits(s, c as int, k as int));
                    if wide < w {
                        wide = w;
                    }
                    if tall < d {
                        tall = d;
                    }
                    k = k + 1;
                }
                self.put_size(c, NSize { x: wide as u16, y: tall as u16 });
                proof {
                    let t = size_stage(s, c as int + 1);
                    assert(self@ =~= t);
                }
            } else {
                proof {
                    let t = size_stage(s, c as int + 1);
                    assert(self@ =~= t);
                }
            }
            c = c + 1;
        }
        proof {
            assert(self@ =~= sized(s));
        }
        true
    }

    /// Resolves the layout of every widget: lets each container place its
    /// children, checks the parent edges, then lets each container grow to
    /// bound its children.
    ///
    /// The placing always happens. A widget whose parent was removed is then
    /// reported, and no container grows. Where a coordinate or an extent
    /// leaves the range of `u16` the resolution is refused, and the extents
    /// are left part way.
    pub fn resolve_layout(&mut self) -> (r: Result<(), LayoutError>)
        requires
            old(self).wf(),
        ensures
            final(self).wf(),
            r is Ok <==> resolvable(old(self)@),
            r is Ok ==> final(self)@ == resolved(old(self)@),
            r is Ok ==> forall|c: int|
                #[trigger] is_container(final(self)@, c) ==> node(final(self)@, c).widget.size.x
                    >= node(final(self)@, c).widget.padding && node(
                    final(self)@,
                    c,
                ).widget.size.y >= node(final(self)@, c).widget.padding,
            final(self)@.len() == old(self)@.len(),
            forall|i: int|
                live(old(self)@, i) ==> live(final(self)@, i) && #[trigger] node(
                    final(self)@,
                    i,
                ).widget.position == node(positioned(old(self)@), i).widget.position,
            has_orphan(old(self)@) <==> r matches Err(LayoutError::MissingParent(_)),
            r matches Err(LayoutError::MissingParent(i)) ==> orphan(old(self)@, i as int)
                && final(self)@ == positioned(old(self)@),
    {
        let ghost s = self@;
        let placed = self.place_children();
        proof {
            lemma_positioned_orphans(s);
        }
        if let Some(i) = self.find_orphan() {
            return Err(LayoutError::MissingParent(i));
        }
        if !placed {
            return Err(LayoutError::Overflow);
        }
        let ghost u = self@;
        if !self.grow_containers() {
            return Err(LayoutError::Overflow);
        }
        proof {
            assert forall|c: int| #[trigger] is_container(self@, c) implies node(
                self@,
                c,
            ).widget.size.x >= node(self@, c).widget.padding && node(self@, c).widget.size.y
                >= node(self@, c).widget.padding by {
                assert(u[c] is Some);
                lemma_container_floor(s, c);
            }
        }
        Ok(())
    }
}

} // verus!

verus! {

/// A child's slot never begins above the container's padding.
proof fn lemma_cursor_from_padding(s: Seq<Option<NodeView>>, c: int, k: int)
    requires
        k >= 0,
    ensures
        cursor(s, c, k) >= node(s, c).widget.padding,
    decreases k,
{
    if k > 0 {
        lemma_cursor_from_padding(s, c, k - 1);
    }
}

/// Placing keeps every widget's liveness and parent, hence the orphans.
proof fn lemma_positioned_orphans(s: Seq<Option<NodeView>>)
    ensures
        forall|i: int| #[trigger] orphan(positioned(s), i) == orphan(s, i),
        has_orphan(positioned(s)) == has_orphan(s),
{
    let u = positioned(s);
    assert forall|i: int| #[trigger] orphan(u, i) == orphan(s, i) by {
        if 0 <= i < s.len() && s[i] is Some {
            if let Some(p) = node(s, i).parent {
                if 0 <= p < s.len() {
                    assert(u[p as int] is Some <==> s[p as int] is Some);
                }
            }
        }
    }
    if has_orphan(s) {
        let i = choose|i: int| orphan(s, i);
        assert(orphan(u, i));
    }
    if has_orphan(u) {
        let i = choose|i: int| orphan(u, i);
        assert(orphan(s, i));
    }
}

/// After a resolution every container is at least as wide and as high as
/// its padding.
pub proof fn lemma_container_floor(s: Seq<Option<NodeView>>, c: int)
    requires
        store_wf(s),
        resolvable(s),
        is_container(s, c),
    ensures
        node(resolved(s), c).widget.size.x >= node(s, c).widget.padding,
        node(resolved(s), c).widget.size.y >= node(s, c).widget.padding,
        node(resolved(s), c).widget.padding == node(s, c).widget.padding,
{
    let u = positioned(s);
    assert(u[c] is Some);
    assert(is_container(u, c));
    let len = node(u, c).children.len() as int;
    assert forall|j: int| 0 <= j < len implies #[trigger] child_fits(u, c, j) by {}
    lemma_grown_fits(u, c, len);
    lemma_grown_bounds(u, c, len);
}

/// The position that container `c` gives to its `k`-th child.
proof fn lemma_positioned_child(s: Seq<Option<NodeView>>, c: int, k: int)
    requires
        store_wf(s),
        is_container(s, c),
        container_fits(s, c),
        0 <= k < node(s, c).children.len(),
    ensures
        node(positioned(s), node(s, c).children[k] as int).widget.position == (NPosition {
            x: placed_x(s, c, k) as u16,
            y: placed_y(s, c, k) as u16,
        }),
        placed_x(s, c, k) <= u16::MAX,
        placed_y(s, c, k) <= u16::MAX,
{
    let kids = node(s, c).children;
    assert(crate::store::node_wf(s, c));
    assert(live(s, kids[k] as int));
    lemma_index_of_unique(kids, k);
    assert(positioned(s)[kids[k] as int] is Some);
}

/// Stacking: once container `c` has placed its children (which it does
/// whenever all its placements fit in the grid, whatever the other
/// containers do), each child stands at least the padding right of and below
/// the position that the container had when the placing began. Where the
/// next child's local row offset is no smaller than this child's, the next
/// child stands at least this child's height plus the spacing further down,
/// and strictly further down when that sum is positive.
pub proof fn lemma_children_stacked(s: Seq<Option<NodeView>>, c: int, k: int)
    requires
        store_wf(s),
        is_container(s, c),
        container_fits(s, c),
        0 <= k < node(s, c).children.len(),
    ensures
        ({
            let r = positioned(s);
            let kids = node(s, c).children;
            let w = node(s, c).widget;
            let at = node(r, kids[k] as int).widget.position;
            &&& at.x >= w.position.x + w.padding
            &&& at.y >= w.position.y + w.padding
            &&& (k + 1 < kids.len() && child(s, c, k).local_position.y <= child(
                s,
                c,
                k + 1,
            ).local_position.y) ==> node(r, kids[k + 1] as int).widget.position.y >= at.y + child(
                s,
                c,
                k,
            ).size.y + w.spacing
            &&& (k + 1 < kids.len() && child(s, c, k).local_position.y <= child(
                s,
                c,
                k + 1,
            ).local_position.y && child(s, c, k).size.y + w.spacing >= 1) ==> node(
                r,
                kids[k + 1] as int,
            ).widget.position.y > at.y
        }),
{
    lemma_positioned_child(s, c, k);
    lemma_cursor_from_padding(s, c, k);
    if k + 1 < node(s, c).children.len() {
        lemma_positioned_child(s, c, k + 1);
    }
}

/// Container `c` lays out the same in `s` and `t`: same padding, spacing and
/// children, and the children have the same heights.
proof fn lemma_cursor_same(s: Seq<Option<NodeView>>, t: Seq<Option<NodeView>>, c: int, k: int)
    requires
        node(t, c).widget.padding == node(s, c).widget.padding,
        node(t, c).widget.spacing == node(s, c).widget.spacing,
        node(t, c).children == node(s, c).children,
        forall|j: int| 0 <= j < k ==> #[trigger] child(t, c, j).size.y == child(s, c, j).size.y,
    ensures
        cursor(t, c, k) == cursor(s, c, k),
    decreases k,
{
    if k > 0 {
        lemma_cursor_same(s, t, c, k - 1);
    }
}

/// A container's grown width bounds what its first `m` children ask for.
proof fn lemma_grown_bounds(u: Seq<Option<NodeView>>, c: int, m: int)
    requires
        m >= 0,
    ensures
        forall|j: int|
            0 <= j < m ==> grown_width(u, c, m) >= #[trigger] child(u, c, j).size.x + node(
                u,
                c,
            ).widget.padding,
        forall|j: int| 0 <= j < m ==> grown_height(u, c, m) >= #[trigger] child_depth(u, c, j),
        grown_width(u, c, m) >= node(u, c).widget.size.x,
        grown_height(u, c, m) >= node(u, c).widget.size.y,
        grown_width(u, c, m) >= node(u, c).widget.padding,
        grown_height(u, c, m) >= node(u, c).widget.padding,
    decreases m,
{
    if m > 0 {
        lemma_grown_bounds(u, c, m - 1);
    }
}

/// Growing again from a grown extent, against the same children, changes
/// nothing.
proof fn lemma_grown_settled(
    u: Seq<Option<NodeView>>,
    t: Seq<Option<NodeView>>,
    c: int,
    k: int,
)
    requires
        0 <= k <= node(u, c).children.len(),
        node(t, c).widget.size.x == grown_width(u, c, node(u, c).children.len() as int),
        node(t, c).widget.size.y == grown_height(u, c, node(u, c).children.len() as int),
        node(t, c).widget.padding == node(u, c).widget.padding,
        forall|j: int|
            0 <= j < node(u, c).children.len() ==> #[trigger] child(t, c, j).size.x == child(
                u,
                c,
                j,
            ).size.x,
        forall|j: int|
            0 <= j < node(u, c).children.len() ==> #[trigger] child_depth(t, c, j) == child_depth(
                u,
                c,
                j,
            ),
    ensures
        grown_width(t, c, k) == grown_width(u, c, node(u, c).children.len() as int),
        grown_height(t, c, k) == grown_height(u, c, node(u, c).children.len() as int),
    decreases k,
{
    lemma_grown_bounds(u, c, node(u, c).children.len() as int);
    if k > 0 {
        lemma_grown_settled(u, t, c, k - 1);
        assert(child_depth(t, c, k - 1) == child_depth(u, c, k - 1));
    }
}

/// A container grows to no more than cell counts when its children ask for
/// no more.
proof fn lemma_grown_fits(u: Seq<Option<NodeView>>, c: int, m: int)
    requires
        m >= 0,
        forall|j: int| 0 <= j < m ==> #[trigger] child_fits(u, c, j),
    ensures
        grown_width(u, c, m) <= u16::MAX,
        grown_height(u, c, m) <= u16::MAX,
    decreases m,
{
    if m > 0 {
        lemma_grown_fits(u, c, m - 1);
        assert(child_fits(u, c, m - 1));
    }
}

/// Every container nested in another keeps its position and its extent
/// through a resolution of `s`: the layout has settled down to the
/// outermost containers.
pub open spec fn settled(s: Seq<Option<NodeView>>) -> bool {
    forall|i: int|
        #![trigger is_container(s, i)]
        is_container(s, i) && node(s, i).parent is Some ==> node(resolved(s), i).widget.position
            == node(s, i).widget.position && node(resolved(s), i).widget.size == node(
            s,
            i,
        ).widget.size
}

/// Idempotence: where every nested container has settled, resolving a
/// resolved layout succeeds and changes no position and no extent. (A
/// container nested in another that still moves places its children at its
/// old position first, and at its new one on the next resolution.)
pub proof fn lemma_resolve_idempotent(s: Seq<Option<NodeView>>)
    requires
        store_wf(s),
        resolvable(s),
        settled(s),
    ensures
        resolvable(resolved(s)),
        resolved(resolved(s)) == resolved(s),
{
    let u = positioned(s);
    let t = resolved(s);
    assert(t.len() == s.len());
    // The children of containers keep their extents.
    assert forall|c: int, j: int|
        is_container(s, c) && 0 <= j < node(s, c).children.len() implies #[trigger] child(
            t,
            c,
            j,
        ).size == child(s, c, j).size && child(u, c, j).size == child(s, c, j).size && live(
            s,
            node(s, c).children[j] as int,
        ) by {
        assert(crate::store::node_wf(s, c));
        let ch = node(s, c).children[j] as int;
        assert(live(s, ch));
        assert(u[ch] is Some);
        if is_container(s, ch) {
            assert(node(s, ch).parent is Some);
        }
    }
    // Containers keep their positions.
    assert forall|c: int| is_container(s, c) implies #[trigger] node(t, c).widget.position == node(
        s,
        c,
    ).widget.position by {
        assert(u[c] is Some);
    }
    // The same placements, in `s` and in `t`.
    assert forall|c: int, k: int|
        is_container(s, c) && 0 <= k < node(s, c).children.len() implies placed_x(t, c, k)
        == placed_x(s, c, k) && placed_y(t, c, k) == placed_y(s, c, k) by {
        assert forall|j: int| 0 <= j < k implies #[trigger] child(t, c, j).size.y == child(
            s,
            c,
            j,
        ).size.y by {
            assert(child(t, c, j).size == child(s, c, j).size);
        }
        lemma_cursor_same(s, t, c, k);
        let ch = node(s, c).children[k] as int;
        assert(u[ch] is Some);
        assert(u[c] is Some);
    }
    // No orphans in `t`.
    assert forall|i: int| !#[trigger] orphan(t, i) by {
        if live(t, i) {
            assert(!orphan(s, i));
            assert(u[i] is Some);
        }
    }
    assert(positions_fit(t)) by {
        assert forall|c: int, k: int|
            #![trigger placed_x(t, c, k)]
            #![trigger placed_y(t, c, k)]
            is_container(t, c) && 0 <= k < node(t, c).children.len() implies placed_x(t, c, k)
            <= u16::MAX && placed_y(t, c, k) <= u16::MAX by {
            assert(u[c] is Some);
            assert(is_container(s, c));
            assert(placed_x(s, c, k) <= u16::MAX && placed_y(s, c, k) <= u16::MAX);
        }
    }
    // Placing again changes nothing.
    assert forall|i: int| 0 <= i < t.len() implies #[trigger] positioned(t)[i] == t[i] by {
        if t[i] is Some {
            assert(u[i] is Some);
            assert(crate::store::node_wf(s, i));
            if let Some(p) = node(s, i).parent {
                if live(s, p as int) {
                    let kids = node(s, p as int).children;
                    assert(kids.contains(i as WidgetId));
                    let k = kids.index_of(i as WidgetId);
                    assert(0 <= k < kids.len() && kids[k] == i as WidgetId);
                    assert(is_container(s, p as int));
                    assert(u[p as int] is Some);
                    assert(placed_x(t, p as int, k) == placed_x(s, p as int, k));
                }
            }
        }
    }
    assert(positioned(t) =~= t);
    // Each container asks for the same extents again.
    assert forall|c: int, j: int|
        is_container(s, c) && 0 <= j < node(s, c).children.len() implies #[trigger] child(
            t,
            c,
            j,
        ).size.x == child(u, c, j).size.x && child_depth(t, c, j) == child_depth(u, c, j) by {
        assert(child(t, c, j).size == child(s, c, j).size);
        let ch = node(s, c).children[j] as int;
        assert(u[ch] is Some);
        assert(u[c] is Some);
    }
    assert(sizes_fit(t)) by {
        assert forall|c: int, k: int|
            is_container(t, c) && 0 <= k < node(t, c).children.len() implies #[trigger] child_fits(
                t,
                c,
                k,
            ) by {
            assert(u[c] is Some);
            assert(is_container(u, c));
            assert(child_fits(u, c, k));
            assert(child(t, c, k).size.x == child(u, c, k).size.x);
        }
    }
    // Growing again changes nothing.
    assert forall|i: int| 0 <= i < t.len() implies #[trigger] sized(t)[i] == t[i] by {
        if t[i] is Some {
            assert(u[i] is Some);
            if node(t, i).widget.vbox {
                assert(is_container(s, i));
                let len = node(u, i).children.len() as int;
                assert forall|j: int| 0 <= j < len implies #[trigger] child(t, i, j).size.x
                    == child(u, i, j).size.x by {
                    assert(child(t, i, j).size.x == child(u, i, j).size.x);
                }
                assert forall|j: int| 0 <= j < len implies #[trigger] child_depth(t, i, j)
                    == child_depth(u, i, j) by {
                    assert(child(t, i, j).size.x == child(u, i, j).size.x);
                }
                assert(is_container(u, i));
                assert forall|j: int| 0 <= j < len implies #[trigger] child_fits(u, i, j) by {}
                lemma_grown_fits(u, i, len);
                lemma_grown_settled(u, t, i, len);
            }
        }
    }
    assert(sized(t) =~= t);
}

/// Where no container is nested in another, the layout has settled.
pub proof fn lemma_flat_settled(s: Seq<Option<NodeView>>)
    requires
        forall|i: int| #[trigger] is_container(s, i) ==> node(s, i).parent is None,
    ensures
        settled(s),
{
}

} // verus!
