//! The element tree. Every visual node is one variant of `Node`:
//! the leaves from `basic`, the containers (`Layers`, `List`, `Scroll`,
//! `Pad`), the `Animation` wrapper, and the `Socket` wrapper with its
//! handler registry. The capability set (setup, frame negotiation, message
//! dispatch, render build) is implemented once over the closed set of
//! variants.

use vstd::prelude::*;
use crate::geometry::{Dim, Frame, Vec2};
use crate::arith::{sat_add, sat_add_i64, COORD_LIMIT};
use crate::ring::Ring;
use crate::basic::{size_wf, unlimited, Button, Empty, Plane, Text};
use crate::shared::{Color, Graphic};
use crate::animation::{PositionAnimation, SizeAnimation, DUR_LIMIT};
use crate::action::{ActionMsg, ActionMsgData, MsgKind, spec_kind_of, kind_of};

verus! {

#[derive(Debug, PartialEq, Eq, Structural, Copy, Clone)]
pub enum ListAlignment {
    Horizontal,
    Vertical,
}

#[derive(Debug, PartialEq, Eq, Structural, Copy, Clone)]
pub enum ScrollAlignment {
    Horizontal,
    Vertical,
}

/// How a list slot sizes itself: by weight relative to its siblings (in
/// thousandths), or by an absolute pixel count.
#[derive(Debug, PartialEq, Eq, Structural, Copy, Clone)]
pub enum ListElementSize {
    Weight(i64),
    Absolute(i64),
}

/// A pad's target size: the given extent, or the frame's extent minus it.
#[derive(Debug, PartialEq, Eq, Structural, Copy, Clone)]
pub enum PadElementSize {
    Positive(Dim, Dim),
    Negative(Dim, Dim),
}

/// Where a pad anchors its child inside its frame.
#[derive(Debug, PartialEq, Eq, Structural, Copy, Clone)]
pub enum PadAlignment {
    Center,
    TopLeft,
    Top,
    TopRight,
    Right,
    BottomRight,
    Bottom,
    BottomLeft,
    Left,
    XY(Dim, Dim),
}

/// What a socket handler may do to the element it wraps.
#[derive(Debug, PartialEq, Eq, Structural, Copy, Clone)]
pub enum SocketAction {
    /// Start the wrapped animation (a no-op on other elements).
    StartAnimation,
    /// Do nothing; useful to consume a message without further effect.
    Ignore,
}

/// One entry of a socket's handler registry: on a message of this kind
/// from this sender, perform the action; `consume` stops the message from
/// reaching the wrapped element and the elements after the socket.
#[derive(Debug, Clone)]
pub struct HandlerRule {
    pub sender_id: String,
    pub kind: MsgKind,
    pub action: SocketAction,
    pub consume: bool,
}

/// A z-stack: all children share the container's frame; later children
/// draw on top.
#[derive(Debug)]
pub struct Layers {
    pub id: Option<u64>,
    pub parent: Option<u64>,
    pub layers: Vec<Node>,
    pub is_setup: bool,
    pub frame: Frame,
}

/// A packed row or column: one ring slot per child distributes the frame.
#[derive(Debug)]
pub struct List {
    pub id: Option<u64>,
    pub parent: Option<u64>,
    pub elements: Vec<Node>,
    pub ring: Ring,
    pub alignment: ListAlignment,
    pub is_setup: bool,
    pub frame: Frame,
    pub global_center: Vec2,
    pub min_size: Vec2,
    pub max_size: Vec2,
}

/// A scrolling strip: children keep their minimum extent along the axis
/// and are shifted by the scroll position; a draggable scrollbar button
/// commits drag deltas into the position.
#[derive(Debug)]
pub struct Scroll {
    pub id: String,
    pub widget_id: Option<u64>,
    pub parent: Option<u64>,
    pub elements: Vec<Node>,
    pub alignment: ScrollAlignment,
    pub scroll_bar: Button,
    pub scroll_bar_width: i64,
    pub scroll_pos: i64,
    pub scroll_pending: i64,
    pub drag_active: bool,
    pub is_setup: bool,
    pub frame: Frame,
    pub global_center: Vec2,
    pub min_size: Vec2,
    pub max_size: Vec2,
}

/// A box that places one child inside its frame at a target size and
/// anchor. The last explicitly set size and anchor are kept as the
/// original, so that animation overrides never drift.
#[derive(Debug)]
pub struct Pad {
    pub widget_id: Option<u64>,
    pub parent: Option<u64>,
    pub element: Box<Node>,
    pub pad_size: PadElementSize,
    pub alignment: PadAlignment,
    pub is_setup: bool,
    pub frame: Frame,
    pub global_center: Vec2,
    pub min_size: Vec2,
    pub max_size: Vec2,
    pub original_pad_size: PadElementSize,
    pub original_alignment: PadAlignment,
}

/// The time-driven wrapper: while running, it overrides the wrapped
/// element's geometry from its easing functions once per update tick, and
/// restores the exact baseline when the duration has elapsed.
#[derive(Debug)]
pub struct Animation {
    pub widget_id: Option<u64>,
    pub parent: Option<u64>,
    pub floating: bool,
    pub element: Box<Node>,
    pub size_animation: Option<SizeAnimation>,
    pub position_animation: Option<PositionAnimation>,
    pub min_size: Vec2,
    pub max_size: Vec2,
    pub duration: u64,
    pub start_time: u64,
    pub running: bool,
}

/// A decorator that runs its handler registry before the wrapped element
/// sees a message, and decides whether the message is forwarded at all.
#[derive(Debug)]
pub struct Socket {
    pub widget_id: Option<u64>,
    pub parent: Option<u64>,
    pub min_size: Vec2,
    pub max_size: Vec2,
    pub is_setup: bool,
    pub element: Box<Node>,
    pub rules: Vec<HandlerRule>,
}

/// A node of the element tree.
#[derive(Debug)]
pub enum Node {
    Empty(Empty),
    Plane(Plane),
    Text(Text),
    Button(Button),
    Layers(Layers),
    List(List),
    Scroll(Scroll),
    Pad(Pad),
    Animation(Animation),
    Socket(Socket),
}

/// Well-formedness of every size, frame and constraint in a subtree.
pub open spec fn node_wf(n: Node) -> bool
    decreases n, 1int,
{
    match n {
        Node::Empty(e) => e.frame.wf() && size_wf(e.min_size) && size_wf(e.max_size),
        Node::Plane(p) => p.frame.wf() && size_wf(p.min_size) && size_wf(p.max_size) && -COORD_LIMIT
            <= p.global_center.x <= COORD_LIMIT && -COORD_LIMIT <= p.global_center.y <= COORD_LIMIT,
        Node::Text(t) => t.frame.wf() && size_wf(t.min_size) && size_wf(t.max_size) && -COORD_LIMIT
            <= t.global_center.x <= COORD_LIMIT && -COORD_LIMIT <= t.global_center.y <= COORD_LIMIT,
        Node::Button(b) => b.frame.wf() && size_wf(b.min_size) && size_wf(b.max_size) && b.plane.frame.wf()
            && b.plane_hover.frame.wf() && b.plane_click.frame.wf() && (b.label is Some
            ==> b.label->0.frame.wf()) && center_wf(b.global_center) && center_wf(
            b.plane.global_center,
        ) && center_wf(b.plane_hover.global_center) && center_wf(b.plane_click.global_center) && (
        b.label is Some ==> center_wf(b.label->0.global_center)),
        Node::Layers(l) => l.frame.wf() && seq_wf(l.layers@),
        Node::List(l) => l.frame.wf() && size_wf(l.min_size) && size_wf(l.max_size) && l.ring.wf()
            && center_wf(l.global_center) && l.elements@.len() <= crate::ring::SLOTS_LIMIT
            && seq_wf(l.elements@),
        Node::Scroll(s) => s.frame.wf() && size_wf(s.min_size) && size_wf(s.max_size) && center_wf(
            s.global_center,
        ) && 0 <= s.scroll_bar_width <= COORD_LIMIT && -COORD_LIMIT <= s.scroll_pos <= COORD_LIMIT
            && -COORD_LIMIT <= s.scroll_pending <= COORD_LIMIT && s.scroll_bar.frame.wf()
            && s.scroll_bar.plane.frame.wf() && s.scroll_bar.plane_hover.frame.wf()
            && s.scroll_bar.plane_click.frame.wf() && (s.scroll_bar.label is Some
            ==> s.scroll_bar.label->0.frame.wf()) && center_wf(s.scroll_bar.global_center)
            && center_wf(s.scroll_bar.plane.global_center) && center_wf(
            s.scroll_bar.plane_hover.global_center,
        ) && center_wf(s.scroll_bar.plane_click.global_center) && (s.scroll_bar.label is Some
            ==> center_wf(s.scroll_bar.label->0.global_center)) && s.elements@.len()
            <= crate::ring::SLOTS_LIMIT && seq_wf(s.elements@),
        Node::Pad(p) => p.frame.wf() && size_wf(p.min_size) && size_wf(p.max_size) && center_wf(
            p.global_center,
        ) && pad_size_wf(p.pad_size) && pad_alignment_wf(p.alignment) && pad_size_wf(
            p.original_pad_size,
        ) && pad_alignment_wf(p.original_alignment) && node_wf(*p.element),
        Node::Animation(a) => size_wf(a.min_size) && size_wf(a.max_size) && a.duration <= DUR_LIMIT
            && (a.size_animation is Some ==> a.size_animation->0.wf()) && (a.position_animation
            is Some ==> a.position_animation->0.wf()) && node_wf(*a.element),
        Node::Socket(s) => size_wf(s.min_size) && size_wf(s.max_size) && node_wf(*s.element),
    }
}

/// Well-formedness of a sequence of children.
pub open spec fn seq_wf(s: Seq<Node>) -> bool
    decreases s, 0int,
{
    forall|i: int| 0 <= i < s.len() ==> node_wf(#[trigger] s[i])
}

pub open spec fn center_wf(c: Vec2) -> bool {
    -COORD_LIMIT <= c.x <= COORD_LIMIT && -COORD_LIMIT <= c.y <= COORD_LIMIT
}

pub open spec fn pad_size_wf(p: PadElementSize) -> bool {
    match p {
        PadElementSize::Positive(x, y) => x.wf() && y.wf(),
        PadElementSize::Negative(x, y) => x.wf() && y.wf(),
    }
}

pub open spec fn pad_alignment_wf(a: PadAlignment) -> bool {
    match a {
        PadAlignment::XY(x, y) => x.wf() && y.wf(),
        _ => true,
    }
}

/// The frame a node reports: wrappers report their wrapped element's.
pub open spec fn spec_frame_of(n: Node) -> Frame
    decreases n,
{
    match n {
        Node::Empty(e) => e.frame,
        Node::Plane(p) => p.frame,
        Node::Text(t) => t.frame,
        Node::Button(b) => b.frame,
        Node::Layers(l) => l.frame,
        Node::List(l) => l.frame,
        Node::Scroll(s) => s.frame,
        Node::Pad(p) => p.frame,
        Node::Animation(a) => spec_frame_of(*a.element),
        Node::Socket(s) => spec_frame_of(*s.element),
    }
}

/// Whether a node and all of its owned children are bound to the backend.
pub open spec fn spec_is_setup(n: Node) -> bool
    decreases n, 1int,
{
    match n {
        Node::Empty(e) => e.is_setup,
        Node::Plane(p) => p.is_setup,
        Node::Text(t) => t.is_setup,
        Node::Button(b) => b.spec_is_setup(),
        Node::Layers(l) => l.is_setup && seq_is_setup(l.layers@),
        Node::List(l) => l.is_setup && seq_is_setup(l.elements@),
        Node::Scroll(s) => s.is_setup && s.scroll_bar.spec_is_setup() && seq_is_setup(s.elements@),
        Node::Pad(p) => p.is_setup && spec_is_setup(*p.element),
        Node::Animation(a) => spec_is_setup(*a.element),
        Node::Socket(s) => s.is_setup && spec_is_setup(*s.element),
    }
}

pub open spec fn seq_is_setup(s: Seq<Node>) -> bool
    decreases s, 0int,
{
    forall|i: int| 0 <= i < s.len() ==> spec_is_setup(#[trigger] s[i])
}

impl Node {
    /// The node's rectangle in pixel space.
    pub fn get_frame(&self) -> (r: Frame)
        ensures
            r == spec_frame_of(*self),
        decreases *self,
    {
        match self {
            Node::Empty(e) => e.frame,
            Node::Plane(p) => p.frame,
            Node::Text(t) => t.frame,
            Node::Button(b) => b.frame,
            Node::Layers(l) => l.frame,
            Node::List(l) => l.frame,
            Node::Scroll(s) => s.frame,
            Node::Pad(p) => p.frame,
            Node::Animation(a) => a.element.get_frame(),
            Node::Socket(s) => s.element.get_frame(),
        }
    }

    /// True iff this node and all of its owned children are bound.
    pub fn is_setup(&self) -> (r: bool)
        ensures
            r == spec_is_setup(*self),
        decreases *self, 2int,
    {
        match self {
            Node::Empty(e) => e.is_setup,
            Node::Plane(p) => p.is_setup,
            Node::Text(t) => t.is_setup,
            Node::Button(b) => b.is_setup(),
            Node::Layers(l) => l.is_setup && seq_all_setup(&l.layers),
            Node::List(l) => l.is_setup && seq_all_setup(&l.elements),
            Node::Scroll(s) => {
                let bar = s.scroll_bar.is_setup();
                s.is_setup && bar && seq_all_setup(&s.elements)
            },
            Node::Pad(p) => p.is_setup && p.element.is_setup(),
            Node::Animation(a) => a.element.is_setup(),
            Node::Socket(s) => s.is_setup && s.element.is_setup(),
        }
    }
}

/// True iff every node in the sequence is fully bound.
fn seq_all_setup(s: &Vec<Node>) -> (r: bool)
    ensures
        r == seq_is_setup(s@),
    decreases s@, 1int,
{
    let n = s.len();
    let mut k: usize = 0;
    let mut all: bool = true;
    while k < n
        invariant
            n == s@.len(),
            k <= n,
            all == (forall|i: int| 0 <= i < k ==> spec_is_setup(#[trigger] s@[i])),
        decreases n - k,
    {
        proof {
            assert(decreases_to!(s@ => s@[k as int]));
        }
        let one = s[k].is_setup();
        all = all && one;
        k = k + 1;
    }
    all
}

/// Componentwise maximum of the children's minimum sizes (a z-stack needs
/// the largest child to fit).
pub open spec fn spec_stack_min(s: Seq<Node>, k: int) -> (int, int)
    decreases s, s.len() - k + 1,
{
    if k < 0 || k >= s.len() {
        (0int, 0int)
    } else {
        let rest = spec_stack_min(s, k + 1);
        let m = spec_min_size(s[k]);
        (if m.0 > rest.0 {
            m.0
        } else {
            rest.0
        }, if m.1 > rest.1 {
            m.1
        } else {
            rest.1
        })
    }
}

/// Componentwise minimum of the children's maximum sizes.
pub open spec fn spec_stack_max(s: Seq<Node>, k: int) -> (int, int)
    decreases s, s.len() - k + 1,
{
    if k < 0 || k >= s.len() {
        (i64::MAX as int, i64::MAX as int)
    } else {
        let rest = spec_stack_max(s, k + 1);
        let m = spec_max_size(s[k]);
        (if m.0 < rest.0 {
            m.0
        } else {
            rest.0
        }, if m.1 < rest.1 {
            m.1
        } else {
            rest.1
        })
    }
}

/// Minimum sizes aggregated along a packing axis: the sum (saturating)
/// along the axis, the maximum across it.
pub open spec fn spec_axis_min(s: Seq<Node>, horizontal: bool, k: int) -> (int, int)
    decreases s, s.len() - k + 1,
{
    if k < 0 || k >= s.len() {
        (0int, 0int)
    } else {
        let rest = spec_axis_min(s, horizontal, k + 1);
        let m = spec_min_size(s[k]);
        if horizontal {
            (sat_add(m.0, rest.0), if m.1 > rest.1 {
                m.1
            } else {
                rest.1
            })
        } else {
            (if m.0 > rest.0 {
                m.0
            } else {
                rest.0
            }, sat_add(m.1, rest.1))
        }
    }
}

/// Maximum sizes aggregated along a packing axis: the saturating sum along
/// the axis (one unbounded child makes the whole axis unbounded), the
/// minimum across it.
pub open spec fn spec_axis_max(s: Seq<Node>, horizontal: bool, k: int) -> (int, int)
    decreases s, s.len() - k + 1,
{
    if k < 0 || k >= s.len() {
        if horizontal {
            (0int, i64::MAX as int)
        } else {
            (i64::MAX as int, 0int)
        }
    } else {
        let rest = spec_axis_max(s, horizontal, k + 1);
        let m = spec_max_size(s[k]);
        if horizontal {
            (sat_add(m.0, rest.0), if m.1 < rest.1 {
                m.1
            } else {
                rest.1
            })
        } else {
            (if m.0 < rest.0 {
                m.0
            } else {
                rest.0
            }, sat_add(m.1, rest.1))
        }
    }
}

/// The minimum size a node negotiates for.
pub open spec fn spec_min_size(n: Node) -> (int, int)
    decreases n, 2int,
{
    match n {
        Node::Empty(e) => (e.min_size.x as int, e.min_size.y as int),
        Node::Plane(p) => (p.min_size.x as int, p.min_size.y as int),
        Node::Text(t) => (t.min_size.x as int, t.min_size.y as int),
        Node::Button(b) => (b.min_size.x as int, b.min_size.y as int),
        Node::Layers(l) => spec_stack_min(l.layers@, 0),
        Node::List(l) => {
            let agg = spec_axis_min(l.elements@, l.alignment == ListAlignment::Horizontal, 0);
            (if agg.0 > l.min_size.x {
                agg.0
            } else {
                l.min_size.x as int
            }, if agg.1 > l.min_size.y {
                agg.1
            } else {
                l.min_size.y as int
            })
        },
        Node::Scroll(s) => {
            let agg = spec_axis_min(s.elements@, s.alignment == ScrollAlignment::Horizontal, 0);
            (if agg.0 < s.min_size.x {
                agg.0
            } else {
                s.min_size.x as int
            }, if agg.1 < s.min_size.y {
                agg.1
            } else {
                s.min_size.y as int
            })
        },
        Node::Pad(p) => {
            let m = spec_min_size(*p.element);
            (if m.0 > p.min_size.x {
                m.0
            } else {
                p.min_size.x as int
            }, if m.1 > p.min_size.y {
                m.1
            } else {
                p.min_size.y as int
            })
        },
        Node::Animation(a) => spec_min_size(*a.element),
        Node::Socket(s) => spec_min_size(*s.element),
    }
}

/// The maximum size a node accepts.
pub open spec fn spec_max_size(n: Node) -> (int, int)
    decreases n, 2int,
{
    match n {
        Node::Empty(e) => (e.max_size.x as int, e.max_size.y as int),
        Node::Plane(p) => (p.max_size.x as int, p.max_size.y as int),
        Node::Text(t) => (t.max_size.x as int, t.max_size.y as int),
        Node::Button(b) => (b.max_size.x as int, b.max_size.y as int),
        Node::Layers(l) => spec_stack_max(l.layers@, 0),
        Node::List(l) => {
            let agg = spec_axis_max(l.elements@, l.alignment == ListAlignment::Horizontal, 0);
            (if agg.0 < l.max_size.x {
                agg.0
            } else {
                l.max_size.x as int
            }, if agg.1 < l.max_size.y {
                agg.1
            } else {
                l.max_size.y as int
            })
        },
        Node::Scroll(s) => {
            let agg = spec_axis_max(s.elements@, s.alignment == ScrollAlignment::Horizontal, 0);
            if s.alignment == ScrollAlignment::Horizontal {
                (s.max_size.x as int, if agg.1 < s.max_size.y {
                    agg.1
                } else {
                    s.max_size.y as int
                })
            } else {
                (if agg.0 < s.max_size.x {
                    agg.0
                } else {
                    s.max_size.x as int
                }, s.max_size.y as int)
            }
        },
        Node::Pad(p) => {
            let m = spec_max_size(*p.element);
            (if m.0 > p.max_size.x {
                m.0
            } else {
                p.max_size.x as int
            }, if m.1 > p.max_size.y {
                m.1
            } else {
                p.max_size.y as int
            })
        },
        Node::Animation(a) => spec_max_size(*a.element),
        Node::Socket(s) => spec_max_size(*s.element),
    }
}

impl Node {
    /// The size this node needs at least, aggregated over its children:
    /// sums along a packing axis, maxima across, saturating at the
    /// unbounded sentinel.
    pub fn get_min_size(&self) -> (r: Vec2)
        ensures
            r.x == spec_min_size(*self).0,
            r.y == spec_min_size(*self).1,
        decreases *self, 3int,
    {
        match self {
            Node::Empty(e) => e.min_size,
            Node::Plane(p) => p.min_size,
            Node::Text(t) => t.min_size,
            Node::Button(b) => b.min_size,
            Node::Layers(l) => seq_stack_min(&l.layers),
            Node::List(l) => {
                let agg = seq_axis_min(
                    &l.elements,
                    matches!(l.alignment, ListAlignment::Horizontal),
                );
                Vec2 {
                    x: if agg.x > l.min_size.x {
                        agg.x
                    } else {
                        l.min_size.x
                    },
                    y: if agg.y > l.min_size.y {
                        agg.y
                    } else {
                        l.min_size.y
                    },
                }
            },
            Node::Scroll(s) => {
                let agg = seq_axis_min(
                    &s.elements,
                    matches!(s.alignment, ScrollAlignment::Horizontal),
                );
                Vec2 {
                    x: if agg.x < s.min_size.x {
                        agg.x
                    } else {
                        s.min_size.x
                    },
                    y: if agg.y < s.min_size.y {
                        agg.y
                    } else {
                        s.min_size.y
                    },
                }
            },
            Node::Pad(p) => {
                let m = p.element.get_min_size();
                Vec2 {
                    x: if m.x > p.min_size.x {
                        m.x
                    } else {
                        p.min_size.x
                    },
                    y: if m.y > p.min_size.y {
                        m.y
                    } else {
                        p.min_size.y
                    },
                }
            },
            Node::Animation(a) => a.element.get_min_size(),
            Node::Socket(s) => s.element.get_min_size(),
        }
    }

    /// The size this node accepts at most.
    pub fn get_max_size(&self) -> (r: Vec2)
        ensures
            r.x == spec_max_size(*self).0,
            r.y == spec_max_size(*self).1,
        decreases *self, 3int,
    {
        match self {
            Node::Empty(e) => e.max_size,
            Node::Plane(p) => p.max_size,
            Node::Text(t) => t.max_size,
            Node::Button(b) => b.max_size,
            Node::Layers(l) => seq_stack_max(&l.layers),
            Node::List(l) => {
                let agg = seq_axis_max(
                    &l.elements,
                    matches!(l.alignment, ListAlignment::Horizontal),
                );
                Vec2 {
                    x: if agg.x < l.max_size.x {
                        agg.x
                    } else {
                        l.max_size.x
                    },
                    y: if agg.y < l.max_size.y {
                        agg.y
                    } else {
                        l.max_size.y
                    },
                }
            },
            Node::Scroll(s) => {
                let agg = seq_axis_max(
                    &s.elements,
                    matches!(s.alignment, ScrollAlignment::Horizontal),
                );
                match s.alignment {
                    ScrollAlignment::Horizontal => Vec2 {
                        x: s.max_size.x,
                        y: if agg.y < s.max_size.y {
                            agg.y
                        } else {
                            s.max_size.y
                        },
                    },
                    ScrollAlignment::Vertical => Vec2 {
                        x: if agg.x < s.max_size.x {
                            agg.x
                        } else {
                            s.max_size.x
                        },
                        y: s.max_size.y,
                    },
                }
            },
            Node::Pad(p) => {
                let m = p.element.get_max_size();
                Vec2 {
                    x: if m.x > p.max_size.x {
                        m.x
                    } else {
                        p.max_size.x
                    },
                    y: if m.y > p.max_size.y {
                        m.y
                    } else {
                        p.max_size.y
                    },
                }
            },
            Node::Animation(a) => a.element.get_max_size(),
            Node::Socket(s) => s.element.get_max_size(),
        }
    }
}

/// Componentwise maximum of the children's minimum sizes.
fn seq_stack_min(s: &Vec<Node>) -> (r: Vec2)
    ensures
        r.x == spec_stack_min(s@, 0).0,
        r.y == spec_stack_min(s@, 0).1,
    decreases s@, 2int,
{
    let n = s.len();
    let mut k: usize = n;
    let mut acc = Vec2 { x: 0, y: 0 };
    while k > 0
        invariant
            n == s@.len(),
            k <= n,
            acc.x == spec_stack_min(s@, k as int).0,
            acc.y == spec_stack_min(s@, k as int).1,
        decreases k,
    {
        k = k - 1;
        proof {
            assert(decreases_to!(s@ => s@[k as int]));
        }
        let m = s[k].get_min_size();
        acc = Vec2 {
            x: if m.x > acc.x {
                m.x
            } else {
                acc.x
            },
            y: if m.y > acc.y {
                m.y
            } else {
                acc.y
            },
        };
    }
    acc
}

/// Componentwise minimum of the children's maximum sizes.
fn seq_stack_max(s: &Vec<Node>) -> (r: Vec2)
    ensures
        r.x == spec_stack_max(s@, 0).0,
        r.y == spec_stack_max(s@, 0).1,
    decreases s@, 2int,
{
    let n = s.len();
    let mut k: usize = n;
    let mut acc = Vec2 { x: i64::MAX, y: i64::MAX };
    while k > 0
        invariant
            n == s@.len(),
            k <= n,
            acc.x == spec_stack_max(s@, k as int).0,
            acc.y == spec_stack_max(s@, k as int).1,
        decreases k,
    {
        k = k - 1;
        proof {
            assert(decreases_to!(s@ => s@[k as int]));
        }
        let m = s[k].get_max_size();
        acc = Vec2 {
            x: if m.x < acc.x {
                m.x
            } else {
                acc.x
            },
            y: if m.y < acc.y {
                m.y
            } else {
                acc.y
            },
        };
    }
    acc
}

/// Aggregate minimum sizes along a packing axis.
fn seq_axis_min(s: &Vec<Node>, horizontal: bool) -> (r: Vec2)
    ensures
        r.x == spec_axis_min(s@, horizontal, 0).0,
        r.y == spec_axis_min(s@, horizontal, 0).1,
    decreases s@, 2int,
{
    let n = s.len();
    let mut k: usize = n;
    let mut acc = Vec2 { x: 0, y: 0 };
    while k > 0
        invariant
            n == s@.len(),
            k <= n,
            acc.x == spec_axis_min(s@, horizontal, k as int).0,
            acc.y == spec_axis_min(s@, horizontal, k as int).1,
        decreases k,
    {
        k = k - 1;
        proof {
            assert(decreases_to!(s@ => s@[k as int]));
        }
        let m = s[k].get_min_size();
        acc = if horizontal {
            Vec2 {
                x: sat_add_i64(m.x, acc.x),
                y: if m.y > acc.y {
                    m.y
                } else {
                    acc.y
                },
            }
        } else {
            Vec2 {
                x: if m.x > acc.x {
                    m.x
                } else {
                    acc.x
                },
                y: sat_add_i64(m.y, acc.y),
            }
        };
    }
    acc
}

/// Aggregate maximum sizes along a packing axis.
fn seq_axis_max(s: &Vec<Node>, horizontal: bool) -> (r: Vec2)
    ensures
        r.x == spec_axis_max(s@, horizontal, 0).0,
        r.y == spec_axis_max(s@, horizontal, 0).1,
    decreases s@, 2int,
{
    let n = s.len();
    let mut k: usize = n;
    let mut acc = if horizontal {
        Vec2 { x: 0, y: i64::MAX }
    } else {
        Vec2 { x: i64::MAX, y: 0 }
    };
    while k > 0
        invariant
            n == s@.len(),
            k <= n,
            acc.x == spec_axis_max(s@, horizontal, k as int).0,
            acc.y == spec_axis_max(s@, horizontal, k as int).1,
        decreases k,
    {
        k = k - 1;
        proof {
            assert(decreases_to!(s@ => s@[k as int]));
        }
        let m = s[k].get_max_size();
        acc = if horizontal {
            Vec2 {
                x: sat_add_i64(m.x, acc.x),
                y: if m.y < acc.y {
                    m.y
                } else {
                    acc.y
                },
            }
        } else {
            Vec2 {
                x: if m.x < acc.x {
                    m.x
                } else {
                    acc.x
                },
                y: sat_add_i64(m.y, acc.y),
            }
        };
    }
    acc
}

/// A coordinate clamped into the layout range.
pub open spec fn spec_cap(a: int) -> int {
    if a < -COORD_LIMIT {
        -COORD_LIMIT as int
    } else if a > COORD_LIMIT {
        COORD_LIMIT as int
    } else {
        a
    }
}

/// Clamp a coordinate into the layout range.
pub fn cap_i64(a: i64) -> (r: i64)
    ensures
        r == spec_cap(a as int),
{
    if a < -COORD_LIMIT {
        -COORD_LIMIT
    } else if a > COORD_LIMIT {
        COORD_LIMIT
    } else {
        a
    }
}

/// A nonnegative extent clamped into the layout range (a negotiation
/// bound of `i64::MAX` is treated as the range limit).
pub open spec fn spec_cap_extent(a: int) -> int {
    if a < 0 {
        0
    } else if a > COORD_LIMIT {
        COORD_LIMIT as int
    } else {
        a
    }
}

/// Clamp an extent into the layout range.
pub fn cap_extent(a: i64) -> (r: i64)
    ensures
        r == spec_cap_extent(a as int),
        0 <= r <= COORD_LIMIT,
{
    if a < 0 {
        0
    } else if a > COORD_LIMIT {
        COORD_LIMIT
    } else {
        a
    }
}

/// The pad's raw target extent, against a frame of extent `w` by `h`
/// (both already clamped into the layout range): a `Positive` size
/// resolves directly, a `Negative` size is what remains of the frame.
pub open spec fn spec_pad_v(ps: PadElementSize, w: int, h: int) -> (int, int) {
    match ps {
        PadElementSize::Positive(dx, dy) => (dx.spec_resolve(w), dy.spec_resolve(h)),
        PadElementSize::Negative(dx, dy) => (
            match dx {
                Dim::Absolute(a) => w - a,
                Dim::Relative(pm) => crate::arith::scale_pm(w, crate::arith::PM_DEN - pm),
            },
            match dy {
                Dim::Absolute(a) => h - a,
                Dim::Relative(pm) => crate::arith::scale_pm(h, crate::arith::PM_DEN - pm),
            },
        ),
    }
}

/// The frame a pad gives its child: the target extent `v` (already
/// clamped nonnegative) anchored inside `frame` by the alignment; an `XY`
/// anchor offsets from the center by dimensions resolved against half the
/// frame extent. All coordinates are clamped into the layout range.
pub open spec fn spec_pad_frame(al: PadAlignment, frame: Frame, vx: int, vy: int) -> Frame {
    let w = spec_cap_extent(frame.p1.x - frame.p0.x);
    let h = spec_cap_extent(frame.p1.y - frame.p0.y);
    let cx = crate::arith::tdiv(frame.p0.x + frame.p1.x, 2);
    let cy = crate::arith::tdiv(frame.p0.y + frame.p1.y, 2);
    let hx = crate::arith::tdiv(vx, 2);
    let hy = crate::arith::tdiv(vy, 2);
    let raw = match al {
        PadAlignment::Center => ((cx - hx, cy - hy), (cx - hx + vx, cy - hy + vy)),
        PadAlignment::BottomLeft => (
            (frame.p0.x as int, frame.p0.y as int),
            (frame.p0.x + vx, frame.p0.y + vy),
        ),
        PadAlignment::Bottom => ((cx - hx, frame.p0.y as int), (cx - hx + vx, frame.p0.y + vy)),
        PadAlignment::BottomRight => (
            (frame.p1.x - vx, frame.p0.y as int),
            (frame.p1.x as int, frame.p0.y + vy),
        ),
        PadAlignment::Right => ((frame.p1.x - vx, cy - hy), (frame.p1.x as int, cy - hy + vy)),
        PadAlignment::TopRight => (
            (frame.p1.x - vx, frame.p1.y - vy),
            (frame.p1.x as int, frame.p1.y as int),
        ),
        PadAlignment::Top => ((cx - hx, frame.p1.y - vy), (cx - hx + vx, frame.p1.y as int)),
        PadAlignment::TopLeft => (
            (frame.p0.x as int, frame.p1.y - vy),
            (frame.p0.x + vx, frame.p1.y as int),
        ),
        PadAlignment::Left => ((frame.p0.x as int, cy - hy), (frame.p0.x + vx, cy - hy + vy)),
        PadAlignment::XY(ax, ay) => {
            let ox = ax.spec_resolve(crate::arith::tdiv(w, 2));
            let oy = ay.spec_resolve(crate::arith::tdiv(h, 2));
            ((cx - hx + ox, cy - hy + oy), (cx - hx + vx + ox, cy - hy + vy + oy))
        },
    };
    Frame {
        p0: Vec2 { x: spec_cap(raw.0.0) as i64, y: spec_cap(raw.0.1) as i64 },
        p1: Vec2 { x: spec_cap(raw.1.0) as i64, y: spec_cap(raw.1.1) as i64 },
    }
}

/// Compute the frame a pad hands its child. The target extent is clamped
/// to zero area at least; with `limit` set it is also raised to the
/// child's minimum size.
#[verifier::rlimit(100)]
pub fn pad_child_frame(
    al: &PadAlignment,
    ps: &PadElementSize,
    frame: &Frame,
    limit: bool,
    min: Vec2,
) -> (r: Frame)
    requires
        frame.wf(),
        pad_size_wf(*ps),
        pad_alignment_wf(*al),
    ensures
        r == spec_pad_child_frame(*al, *ps, *frame, limit, min.x as int, min.y as int),
        r.wf(),
{
    let w = cap_extent(frame.p1.x - frame.p0.x);
    let h = cap_extent(frame.p1.y - frame.p0.y);
    let (rvx, rvy): (i64, i64) = match ps {
        PadElementSize::Positive(dx, dy) => (dx.resolve(w), dy.resolve(h)),
        PadElementSize::Negative(dx, dy) => (
            match dx {
                Dim::Absolute(a) => w - *a,
                Dim::Relative(pm) => crate::arith::scale_pm_i64(w, crate::arith::PM_DEN - *pm),
            },
            match dy {
                Dim::Absolute(a) => h - *a,
                Dim::Relative(pm) => crate::arith::scale_pm_i64(h, crate::arith::PM_DEN - *pm),
            },
        ),
    };
    let vx0 = cap_extent(rvx);
    let vy0 = cap_extent(rvy);
    let minx = cap_extent(min.x);
    let miny = cap_extent(min.y);
    let vx = if limit && vx0 < minx {
        minx
    } else {
        vx0
    };
    let vy = if limit && vy0 < miny {
        miny
    } else {
        vy0
    };
    let cx = crate::arith::half(frame.p0.x + frame.p1.x);
    let cy = crate::arith::half(frame.p0.y + frame.p1.y);
    let hx = crate::arith::half(vx);
    let hy = crate::arith::half(vy);
    let (p0x, p0y, p1x, p1y): (i64, i64, i64, i64) = match al {
        PadAlignment::Center => (cx - hx, cy - hy, cx - hx + vx, cy - hy + vy),
        PadAlignment::BottomLeft => (frame.p0.x, frame.p0.y, frame.p0.x + vx, frame.p0.y + vy),
        PadAlignment::Bottom => (cx - hx, frame.p0.y, cx - hx + vx, frame.p0.y + vy),
        PadAlignment::BottomRight => (frame.p1.x - vx, frame.p0.y, frame.p1.x, frame.p0.y + vy),
        PadAlignment::Right => (frame.p1.x - vx, cy - hy, frame.p1.x, cy - hy + vy),
        PadAlignment::TopRight => (frame.p1.x - vx, frame.p1.y - vy, frame.p1.x, frame.p1.y),
        PadAlignment::Top => (cx - hx, frame.p1.y - vy, cx - hx + vx, frame.p1.y),
        PadAlignment::TopLeft => (frame.p0.x, frame.p1.y - vy, frame.p0.x + vx, frame.p1.y),
        PadAlignment::Left => (frame.p0.x, cy - hy, frame.p0.x + vx, cy - hy + vy),
        PadAlignment::XY(ax, ay) => {
            let ox = ax.resolve(crate::arith::half(w));
            let oy = ay.resolve(crate::arith::half(h));
            (cx - hx + ox, cy - hy + oy, cx - hx + vx + ox, cy - hy + vy + oy)
        },
    };
    Frame {
        p0: Vec2 { x: cap_i64(p0x), y: cap_i64(p0y) },
        p1: Vec2 { x: cap_i64(p1x), y: cap_i64(p1y) },
    }
}

/// The band a list gives the child owning slots `x0..x1` along its axis.
pub open spec fn spec_list_band(frame: Frame, horizontal: bool, x0: int, x1: int) -> Frame {
    if horizontal {
        Frame {
            p0: Vec2 { x: spec_cap(x0 + frame.p0.x) as i64, y: frame.p0.y },
            p1: Vec2 { x: spec_cap(x1 + frame.p0.x) as i64, y: frame.p1.y },
        }
    } else {
        Frame {
            p0: Vec2 { x: frame.p0.x, y: spec_cap(x0 + frame.p0.y) as i64 },
            p1: Vec2 { x: frame.p1.x, y: spec_cap(x1 + frame.p0.y) as i64 },
        }
    }
}

/// The pad child-frame formula, packaged: target size from the pad size
/// against the frame, clamped nonnegative, raised to the child minimum
/// when `limit` is set, then anchored.
pub open spec fn spec_pad_child_frame(
    al: PadAlignment,
    ps: PadElementSize,
    frame: Frame,
    limit: bool,
    minx: int,
    miny: int,
) -> Frame {
    let w = spec_cap_extent(frame.p1.x - frame.p0.x);
    let h = spec_cap_extent(frame.p1.y - frame.p0.y);
    let v = spec_pad_v(ps, w, h);
    let vx0 = spec_cap_extent(v.0);
    let vy0 = spec_cap_extent(v.1);
    let vx = if limit && vx0 < spec_cap_extent(minx) {
        spec_cap_extent(minx)
    } else {
        vx0
    };
    let vy = if limit && vy0 < spec_cap_extent(miny) {
        spec_cap_extent(miny)
    } else {
        vy0
    };
    spec_pad_frame(al, frame, vx, vy)
}

/// Total capped axis-minimum of the first `k` children.
pub open spec fn spec_min_prefix(s: Seq<Node>, horizontal: bool, k: int) -> int
    decreases k,
{
    if k <= 0 {
        0
    } else {
        spec_min_prefix(s, horizontal, k - 1) + spec_cap_extent(
            if horizontal {
                spec_min_size(s[k - 1]).0
            } else {
                spec_min_size(s[k - 1]).1
            },
        )
    }
}

/// The scroll geometry for a viewport of extent `s_axis` over content of
/// minimum extent `m`: the clamped scroll offset (never positive), the
/// scrollbar thumb length, and the content shift. When the content fits,
/// there is nothing to scroll.
pub open spec fn spec_scroll_state(s_axis: int, m: int, pos: int, pending: int) -> (int, int, int) {
    if s_axis <= 0 || m <= s_axis {
        (0int, s_axis, 0int)
    } else {
        let bar = crate::arith::tdiv(s_axis * s_axis, m);
        let lo = bar - s_axis;
        let spr = pos + pending;
        let sp = if spr < lo {
            lo
        } else if spr > 0 {
            0int
        } else {
            spr
        };
        (sp, bar, crate::arith::tdiv((-sp) * m, s_axis))
    }
}

/// The band a scrolled child occupies: its minimum extent along the axis,
/// offset by the accumulated minimums before it and the content shift; the
/// cross axis leaves room for the scrollbar when one shows.
pub open spec fn spec_scroll_child_frame(
    frame: Frame,
    horizontal: bool,
    delta: int,
    off: int,
    mn: int,
    bar_shift: int,
) -> Frame {
    if horizontal {
        let x0 = spec_cap(frame.p0.x + off - delta);
        let x1 = spec_cap(frame.p0.x + off - delta + mn);
        let y0 = if frame.p0.y + bar_shift > frame.p1.y {
            frame.p1.y as int
        } else {
            frame.p0.y + bar_shift
        };
        Frame {
            p0: Vec2 { x: x0 as i64, y: y0 as i64 },
            p1: Vec2 { x: x1 as i64, y: frame.p1.y },
        }
    } else {
        let y1 = spec_cap(delta + frame.p1.y - off);
        let y0 = spec_cap(delta + frame.p1.y - off - mn);
        let x1 = if frame.p1.x - bar_shift < frame.p0.x {
            frame.p0.x as int
        } else {
            frame.p1.x - bar_shift
        };
        Frame {
            p0: Vec2 { x: frame.p0.x, y: y0 as i64 },
            p1: Vec2 { x: x1 as i64, y: y1 as i64 },
        }
    }
}

/// Where the scrollbar thumb sits for a clamped offset `sp` and thumb
/// length `bar`.
pub open spec fn spec_scroll_bar_frame(
    frame: Frame,
    horizontal: bool,
    sp: int,
    bar: int,
    bw: int,
) -> Frame {
    if horizontal {
        let y1 = if frame.p0.y + bw > frame.p1.y {
            frame.p1.y as int
        } else {
            frame.p0.y + bw
        };
        Frame {
            p0: Vec2 { x: spec_cap(frame.p0.x - sp) as i64, y: frame.p0.y },
            p1: Vec2 { x: spec_cap(frame.p0.x - sp + bar) as i64, y: y1 as i64 },
        }
    } else {
        let x0 = if frame.p1.x - bw < frame.p0.x {
            frame.p0.x as int
        } else {
            frame.p1.x - bw
        };
        Frame {
            p0: Vec2 { x: x0 as i64, y: spec_cap(sp + frame.p1.y - bar) as i64 },
            p1: Vec2 { x: frame.p1.x, y: spec_cap(sp + frame.p1.y) as i64 },
        }
    }
}

/// The band a list slot occupies given its cumulative offsets.
pub open spec fn spec_list_child_frame(
    ring: Ring,
    frame: Frame,
    horizontal: bool,
    i: int,
    n: int,
) -> Frame {
    let len = ring.elements@.len() as int;
    let bi = if horizontal {
        i
    } else {
        n - 1 - i
    };
    let c0 = if bi < len {
        bi
    } else {
        len
    };
    let c1 = if bi + 1 < len {
        bi + 1
    } else {
        len
    };
    let x0 = crate::ring::sum_sizes(ring.elements@.take(c0), ring.size as int);
    let x1 = crate::ring::sum_sizes(ring.elements@.take(c1), ring.size as int);
    spec_list_band(frame, horizontal, x0, x1)
}


/// The band child `j` of a scrolled strip occupies, packaged: its own
/// capped minimum extent along the axis, stacked after the capped
/// minimums of the children before it, shifted by the content offset,
/// with the cross axis leaving room for the scrollbar.
#[verifier::opaque]
pub open spec fn spec_scroll_band(
    els0: Seq<Node>,
    frame: Frame,
    horizontal: bool,
    delta: int,
    bar_shift: int,
    j: int,
) -> Frame {
    spec_scroll_child_frame(
        frame,
        horizontal,
        delta,
        spec_min_prefix(els0, horizontal, j),
        spec_cap_extent(
            if horizontal {
                spec_min_size(els0[j]).0
            } else {
                spec_min_size(els0[j]).1
            },
        ),
        bar_shift,
    )
}

/// What placing a node at a frame does, for every variant: the node takes
/// the frame and the window-center translation, containers recompute and
/// propagate their children's frames, wrappers pass the frame through, and
/// a pad records the size and anchor it was set with as its baseline.
pub open spec fn set_frame_rel(a: Node, b: Node, frame: Frame, center: Vec2) -> bool
    decreases a, 2int,
{
    match (a, b) {
        (Node::Empty(x), Node::Empty(y)) => y == (Empty {
            frame,
            window_center: center,
            ..x
        }),
        (Node::Plane(x), Node::Plane(y)) => y == (Plane {
            frame,
            global_center: center,
            ..x
        }),
        (Node::Text(x), Node::Text(y)) => y == (Text { frame, global_center: center, ..x }),
        (Node::Button(x), Node::Button(y)) => y == crate::basic::spec_button_with_frame(
            x,
            frame,
            center,
        ),
        (Node::Layers(x), Node::Layers(y)) => {
            &&& y.id == x.id
            &&& y.parent == x.parent
            &&& y.is_setup == x.is_setup
            &&& y.frame == frame
            &&& y.layers@.len() == x.layers@.len()
            &&& forall|i: int|
                0 <= i < x.layers@.len() ==> set_frame_rel(
                    #[trigger] x.layers@[i],
                    y.layers@[i],
                    frame,
                    center,
                )
        },
        (Node::List(x), Node::List(y)) => {
            let horizontal = x.alignment == ListAlignment::Horizontal;
            let len = spec_cap_extent(
                if horizontal {
                    frame.p1.x - frame.p0.x
                } else {
                    frame.p1.y - frame.p0.y
                },
            );
            &&& y.id == x.id
            &&& y.parent == x.parent
            &&& y.is_setup == x.is_setup
            &&& y.alignment == x.alignment
            &&& y.min_size == x.min_size
            &&& y.max_size == x.max_size
            &&& y.frame == frame
            &&& y.global_center == center
            &&& y.ring.size == len
            &&& y.ring.rescaled(x.ring.elements@)
            &&& y.ring.buffer.min == x.ring.buffer.min
            &&& y.ring.wf()
            &&& y.elements@.len() == x.elements@.len()
            &&& forall|i: int|
                0 <= i < x.elements@.len() ==> set_frame_rel(
                    #[trigger] x.elements@[i],
                    y.elements@[i],
                    spec_list_child_frame(y.ring, frame, horizontal, i, x.elements@.len() as int),
                    center,
                )
        },
        (Node::Scroll(x), Node::Scroll(y)) => {
            let horizontal = x.alignment == ScrollAlignment::Horizontal;
            let s_axis = spec_cap_extent(
                if horizontal {
                    frame.p1.x - frame.p0.x
                } else {
                    frame.p1.y - frame.p0.y
                },
            );
            let agg = spec_axis_min(x.elements@, horizontal, 0);
            let m = spec_cap_extent(
                if horizontal {
                    agg.0
                } else {
                    agg.1
                },
            );
            let st = spec_scroll_state(s_axis, m, x.scroll_pos as int, x.scroll_pending as int);
            let bar_shift = if m < s_axis {
                0int
            } else {
                x.scroll_bar_width as int
            };
            &&& y.id == x.id
            &&& y.widget_id == x.widget_id
            &&& y.parent == x.parent
            &&& y.is_setup == x.is_setup
            &&& y.alignment == x.alignment
            &&& y.min_size == x.min_size
            &&& y.max_size == x.max_size
            &&& y.scroll_bar_width == x.scroll_bar_width
            &&& y.scroll_pos == x.scroll_pos
            &&& y.scroll_pending == x.scroll_pending
            &&& y.drag_active == x.drag_active
            &&& y.frame == frame
            &&& y.global_center == center
            &&& y.scroll_bar == crate::basic::spec_button_with_frame(
                x.scroll_bar,
                spec_scroll_bar_frame(frame, horizontal, st.0, st.1, x.scroll_bar_width as int),
                center,
            )
            &&& y.elements@.len() == x.elements@.len()
            &&& forall|i: int|
                0 <= i < x.elements@.len() ==> set_frame_rel(
                    #[trigger] x.elements@[i],
                    y.elements@[i],
                    spec_scroll_band(x.elements@, frame, horizontal, st.2, bar_shift, i),
                    center,
                )
        },
        (Node::Pad(x), Node::Pad(y)) => {
            &&& y.widget_id == x.widget_id
            &&& y.parent == x.parent
            &&& y.is_setup == x.is_setup
            &&& y.pad_size == x.pad_size
            &&& y.alignment == x.alignment
            &&& y.original_pad_size == x.pad_size
            &&& y.original_alignment == x.alignment
            &&& y.min_size == x.min_size
            &&& y.max_size == x.max_size
            &&& y.frame == frame
            &&& y.global_center == center
            &&& set_frame_rel(
                *x.element,
                *y.element,
                spec_pad_child_frame(
                    x.alignment,
                    x.pad_size,
                    frame,
                    true,
                    spec_min_size(*x.element).0,
                    spec_min_size(*x.element).1,
                ),
                center,
            )
        },
        (Node::Animation(x), Node::Animation(y)) => {
            &&& y.widget_id == x.widget_id
            &&& y.parent == x.parent
            &&& y.floating == x.floating
            &&& y.size_animation == x.size_animation
            &&& y.position_animation == x.position_animation
            &&& y.min_size == x.min_size
            &&& y.max_size == x.max_size
            &&& y.duration == x.duration
            &&& y.start_time == x.start_time
            &&& y.running == x.running
            &&& set_frame_rel(*x.element, *y.element, frame, center)
        },
        (Node::Socket(x), Node::Socket(y)) => {
            &&& y.widget_id == x.widget_id
            &&& y.parent == x.parent
            &&& y.min_size == x.min_size
            &&& y.max_size == x.max_size
            &&& y.is_setup == x.is_setup
            &&& y.rules == x.rules
            &&& set_frame_rel(*x.element, *y.element, frame, center)
        },
        _ => false,
    }
}

/// The scrollbar thumb length for a viewport `s_axis` over content `m`.
fn scroll_bar_len(s_axis: i64, m: i64) -> (r: i64)
    requires
        1 <= s_axis < m <= COORD_LIMIT,
    ensures
        r == crate::arith::tdiv(s_axis * s_axis, m as int),
        0 <= r <= s_axis,
{
    proof {
        assert(0 <= (s_axis as int) * (s_axis as int) <= COORD_LIMIT * COORD_LIMIT)
            by (nonlinear_arith)
            requires
                1 <= s_axis <= COORD_LIMIT,
        ;
    }
    let p: i128 = (s_axis as i128) * (s_axis as i128);
    proof {
        assert(0 <= (s_axis as int) * (s_axis as int) <= (s_axis as int) * (m as int))
            by (nonlinear_arith)
            requires
                1 <= s_axis < m,
        ;
        assert(0 <= p as int / (m as int) && (p as int / (m as int)) * (m as int) <= p && p as int
            <= (s_axis as int) * (m as int) ==> p as int / (m as int) <= s_axis)
            by (nonlinear_arith)
            requires
                p >= 0,
                m >= 1,
                p == (s_axis as int) * (s_axis as int),
                s_axis >= 1,
        ;
        assert(0 <= p as int / (m as int) <= s_axis) by (nonlinear_arith)
            requires
                p >= 0,
                m >= 1,
                s_axis >= 1,
                p as int <= (s_axis as int) * (m as int),
        ;
    }
    let q: i128 = p / (m as i128);
    q as i64
}

/// The content shift for a clamped scroll offset.
fn scroll_delta(sp: i64, m: i64, s_axis: i64) -> (r: i64)
    requires
        1 <= s_axis <= COORD_LIMIT,
        1 <= m <= COORD_LIMIT,
        -s_axis <= sp <= 0,
    ensures
        r == crate::arith::tdiv((-sp) * m, s_axis as int),
        0 <= r <= m,
{
    proof {
        assert(0 <= (-(sp as int)) * (m as int) <= COORD_LIMIT * COORD_LIMIT) by (nonlinear_arith)
            requires
                0 <= -sp <= COORD_LIMIT,
                1 <= m <= COORD_LIMIT,
        ;
    }
    let p: i128 = (-(sp as i128)) * (m as i128);
    proof {
        assert(0 <= (-(sp as int)) * (m as int) <= (s_axis as int) * (m as int))
            by (nonlinear_arith)
            requires
                0 <= -sp <= s_axis,
                m >= 1,
        ;
        assert(0 <= p as int / (s_axis as int) <= m) by (nonlinear_arith)
            requires
                p >= 0,
                s_axis >= 1,
                p as int <= (s_axis as int) * (m as int),
        ;
    }
    let q: i128 = p / (s_axis as i128);
    q as i64
}



/// The clamped scroll offset, thumb length and content shift.
fn scroll_state_exec(s_axis: i64, m: i64, pos: i64, pending: i64) -> (r: (i64, i64, i64))
    requires
        0 <= s_axis <= COORD_LIMIT,
        0 <= m <= COORD_LIMIT,
        -COORD_LIMIT <= pos <= COORD_LIMIT,
        -COORD_LIMIT <= pending <= COORD_LIMIT,
    ensures
        (r.0 as int, r.1 as int, r.2 as int) == spec_scroll_state(
            s_axis as int,
            m as int,
            pos as int,
            pending as int,
        ),
        -s_axis <= r.0 <= 0,
        0 <= r.1 <= s_axis,
        0 <= r.2 <= m,
{
    if s_axis <= 0 || m <= s_axis {
        (0, s_axis, 0)
    } else {
        let bar = scroll_bar_len(s_axis, m);
        let lo = bar - s_axis;
        let spr = pos + pending;
        let sp = if spr < lo {
            lo
        } else if spr > 0 {
            0
        } else {
            spr
        };
        let delta = scroll_delta(sp, m, s_axis);
        (sp, bar, delta)
    }
}

/// The band one scrolled child occupies.
fn scroll_child_frame_exec(
    frame: &Frame,
    horizontal: bool,
    delta: i64,
    off: i64,
    mn: i64,
    bar_shift: i64,
) -> (cf: Frame)
    requires
        frame.wf(),
        0 <= delta <= COORD_LIMIT,
        0 <= off <= (crate::ring::SLOTS_LIMIT as int) * COORD_LIMIT,
        0 <= mn <= COORD_LIMIT,
        0 <= bar_shift <= COORD_LIMIT,
    ensures
        cf == spec_scroll_child_frame(
            *frame,
            horizontal,
            delta as int,
            off as int,
            mn as int,
            bar_shift as int,
        ),
        cf.wf(),
{
    if horizontal {
        let y0 = if frame.p0.y + bar_shift > frame.p1.y {
            frame.p1.y
        } else {
            frame.p0.y + bar_shift
        };
        Frame {
            p0: Vec2 { x: cap_i64(frame.p0.x + off - delta), y: y0 },
            p1: Vec2 { x: cap_i64(frame.p0.x + off - delta + mn), y: frame.p1.y },
        }
    } else {
        let x1 = if frame.p1.x - bar_shift < frame.p0.x {
            frame.p0.x
        } else {
            frame.p1.x - bar_shift
        };
        Frame {
            p0: Vec2 { x: frame.p0.x, y: cap_i64(delta + frame.p1.y - off - mn) },
            p1: Vec2 { x: x1, y: cap_i64(delta + frame.p1.y - off) },
        }
    }
}

/// The scrollbar thumb's frame.
fn scroll_bar_frame_exec(frame: &Frame, horizontal: bool, sp: i64, bar: i64, bw: i64) -> (bf:
    Frame)
    requires
        frame.wf(),
        -COORD_LIMIT <= sp <= 0,
        0 <= bar <= COORD_LIMIT,
        0 <= bw <= COORD_LIMIT,
    ensures
        bf == spec_scroll_bar_frame(*frame, horizontal, sp as int, bar as int, bw as int),
        bf.wf(),
{
    if horizontal {
        let y1 = if frame.p0.y + bw > frame.p1.y {
            frame.p1.y
        } else {
            frame.p0.y + bw
        };
        Frame {
            p0: Vec2 { x: cap_i64(frame.p0.x - sp), y: frame.p0.y },
            p1: Vec2 { x: cap_i64(frame.p0.x - sp + bar), y: y1 },
        }
    } else {
        let x0 = if frame.p1.x - bw < frame.p0.x {
            frame.p0.x
        } else {
            frame.p1.x - bw
        };
        Frame {
            p0: Vec2 { x: x0, y: cap_i64(sp + frame.p1.y - bar) },
            p1: Vec2 { x: frame.p1.x, y: cap_i64(sp + frame.p1.y) },
        }
    }
}

/// Place a z-stack: every child shares the frame.
#[verifier::loop_isolation(false)]
#[verifier::rlimit(100)]
#[verifier::spinoff_prover]
fn set_frame_layers(l: Layers, frame: Frame, center: Vec2) -> (r: Node)
    requires
        node_wf(Node::Layers(l)),
        frame.wf(),
        center_wf(center),
    ensures
        set_frame_rel(Node::Layers(l), r, frame, center),
        node_wf(r),
    decreases Node::Layers(l), 0int,
{
    let mut l = l;

            let ghost nn = Node::Layers(l);
            let ghost l0 = l;
            let ghost kids0 = l.layers@;
            proof {
                assert(nn == Node::Layers(l0));
                assert(seq_wf(kids0));
            }
            let cnt = l.layers.len();
            let mut k: usize = 0;
            while k < cnt
                invariant
                    cnt == l.layers@.len(),
                    k <= cnt,
                    l.id == l0.id && l.parent == l0.parent && l.is_setup == l0.is_setup && l.frame
                        == l0.frame,
                    forall|j: int| k <= j < cnt ==> l.layers@[j] == kids0[j],
                    forall|j: int|
                        0 <= j < k ==> set_frame_rel(
                            #[trigger] kids0[j],
                            l.layers@[j],
                            frame,
                            center,
                        ) && node_wf(l.layers@[j]),
                decreases cnt - k,
            {
                let child = l.layers.remove(k);
                let ghost before = l.layers@;
                proof {
                    assert(child == kids0[k as int]);
                    assert(decreases_to!(nn => nn->Layers_0));
                    assert(l0 == nn->Layers_0);
                    assert(decreases_to!(l0 => l0.layers));
                    assert(decreases_to!(l0.layers => l0.layers@));
                    assert(decreases_to!(l0.layers@ => l0.layers@[k as int]));
                    assert(decreases_to!(nn => child));
                    assert(node_wf(child));
                }
                let child2 = set_frame_node(child, frame, center);
                l.layers.insert(k, child2);
                proof {
                    assert(l.layers@ =~= before.insert(k as int, child2));
                }
                k = k + 1;
            }
            proof {
                assert forall|i: int| 0 <= i < l.layers@.len() implies node_wf(
                    #[trigger] l.layers@[i],
                ) by {
                    assert(set_frame_rel(kids0[i], l.layers@[i], frame, center) && node_wf(
                        l.layers@[i],
                    ));
                }
                assert(seq_wf(l.layers@));
            }
            let out = Node::Layers(Layers { frame, ..l });
            proof {
                assert(node_wf(out));
            }
            out
        
}

/// Place a list: resize and rescale its ring, then hand each child its
/// band of cumulative slot offsets.
#[verifier::loop_isolation(false)]
#[verifier::rlimit(100)]
#[verifier::spinoff_prover]
fn set_frame_list(l: List, frame: Frame, center: Vec2) -> (r: Node)
    requires
        node_wf(Node::List(l)),
        frame.wf(),
        center_wf(center),
    ensures
        set_frame_rel(Node::List(l), r, frame, center),
        node_wf(r),
    decreases Node::List(l), 0int,
{
    let mut l = l;

            let ghost nn = Node::List(l);
            let ghost l0 = l;
            proof {
                assert(nn == Node::List(l0));
                assert(seq_wf(l0.elements@));
            }
            let horizontal = matches!(l.alignment, ListAlignment::Horizontal);
            let extent = if horizontal {
                frame.p1.x - frame.p0.x
            } else {
                frame.p1.y - frame.p0.y
            };
            let len = cap_extent(extent);
            l.ring.resize(len);
            let ghost ring2 = l.ring;
            let ghost kids0 = l.elements@;
            let cnt = l.elements.len();
            let mut k: usize = 0;
            while k < cnt
                invariant
                    cnt == l.elements@.len(),
                    k <= cnt,
                    l.ring == ring2,
                    l.id == l0.id && l.parent == l0.parent && l.is_setup == l0.is_setup
                        && l.alignment == l0.alignment && l.min_size == l0.min_size && l.max_size
                        == l0.max_size && l.frame == l0.frame && l.global_center
                        == l0.global_center,
                    forall|j: int| k <= j < cnt ==> l.elements@[j] == kids0[j],
                    forall|j: int|
                        0 <= j < k ==> set_frame_rel(
                            #[trigger] kids0[j],
                            l.elements@[j],
                            spec_list_child_frame(ring2, frame, horizontal, j, cnt as int),
                            center,
                        ) && node_wf(l.elements@[j]),
                decreases cnt - k,
            {
                let bi = if horizontal {
                    k
                } else {
                    cnt - 1 - k
                };
                let x0 = l.ring.get_sum(bi);
                let x1 = l.ring.get_sum(bi + 1);
                proof {
                    let els = ring2.elements@;
                    let c0 = if bi < els.len() {
                        bi as int
                    } else {
                        els.len() as int
                    };
                    let c1 = if bi + 1 < els.len() {
                        bi as int + 1
                    } else {
                        els.len() as int
                    };
                    crate::ring::lemma_prefix_sums_monotone(els, ring2.size as int, c0, c1);
                    assert(crate::ring::slots_wf(els.take(c1))) by {
                        assert(forall|q: int|
                            0 <= q < c1 ==> els.take(c1)[q] == (#[trigger] els[q]));
                    }
                    crate::ring::lemma_sum_sizes_nonneg(els.take(c1), ring2.size as int);
                    assert(crate::ring::sum_sizes(els.take(c1), ring2.size as int) <= (
                    crate::ring::SLOTS_LIMIT as int) * COORD_LIMIT) by (nonlinear_arith)
                        requires
                            crate::ring::sum_sizes(els.take(c1), ring2.size as int) <= els.take(
                                c1,
                            ).len() * COORD_LIMIT,
                            0 <= els.take(c1).len() <= crate::ring::SLOTS_LIMIT,
                    ;
                }
                let cf = if horizontal {
                    Frame {
                        p0: Vec2 { x: cap_i64(x0 + frame.p0.x), y: frame.p0.y },
                        p1: Vec2 { x: cap_i64(x1 + frame.p0.x), y: frame.p1.y },
                    }
                } else {
                    Frame {
                        p0: Vec2 { x: frame.p0.x, y: cap_i64(x0 + frame.p0.y) },
                        p1: Vec2 { x: frame.p1.x, y: cap_i64(x1 + frame.p0.y) },
                    }
                };
                proof {
                    assert(cf == spec_list_child_frame(ring2, frame, horizontal, k as int,
                    cnt as int));
                    assert(cf.wf());
                }
                let child = l.elements.remove(k);
                let ghost before = l.elements@;
                proof {
                    assert(child == kids0[k as int]);
                    assert(decreases_to!(nn => nn->List_0));
                    assert(l0 == nn->List_0);
                    assert(decreases_to!(l0 => l0.elements));
                    assert(decreases_to!(l0.elements => l0.elements@));
                    assert(decreases_to!(l0.elements@ => l0.elements@[k as int]));
                    assert(decreases_to!(nn => child));
                    assert(node_wf(child));
                }
                let child2 = set_frame_node(child, cf, center);
                l.elements.insert(k, child2);
                proof {
                    assert(l.elements@ =~= before.insert(k as int, child2));
                }
                k = k + 1;
            }
            proof {
                assert forall|i: int| 0 <= i < l.elements@.len() implies node_wf(
                    #[trigger] l.elements@[i],
                ) by {
                    assert(set_frame_rel(
                        kids0[i],
                        l.elements@[i],
                        spec_list_child_frame(ring2, frame, horizontal, i, cnt as int),
                        center,
                    ) && node_wf(l.elements@[i]));
                }
                assert(seq_wf(l.elements@));
            }
            let out = Node::List(List { frame, global_center: center, ..l });
            proof {
                assert(node_wf(out));
            }
            out
        
}


/// Place the children of a scrolled strip: each at its band.
#[verifier::loop_isolation(false)]
#[verifier::rlimit(100)]
#[verifier::spinoff_prover]
fn place_scroll_children(
    els: Vec<Node>,
    frame: &Frame,
    center: Vec2,
    horizontal: bool,
    delta: i64,
    bar_shift: i64,
) -> (r: Vec<Node>)
    requires
        seq_wf(els@),
        els@.len() <= crate::ring::SLOTS_LIMIT,
        frame.wf(),
        center_wf(center),
        0 <= delta <= COORD_LIMIT,
        0 <= bar_shift <= COORD_LIMIT,
    ensures
        r@.len() == els@.len(),
        seq_wf(r@),
        forall|j: int|
            0 <= j < els@.len() ==> set_frame_rel(
                #[trigger] els@[j],
                r@[j],
                spec_scroll_band(els@, *frame, horizontal, delta as int, bar_shift as int, j),
                center,
            ),
    decreases els, 0int,
{
    let ghost els_param = els;
    let ghost els0 = els@;
    let mut els = els;
    let cnt = els.len();
    let mut xp: i64 = 0;
    let mut k: usize = 0;
    while k < cnt
        invariant
            cnt == els@.len(),
            k <= cnt,
            xp == spec_min_prefix(els0, horizontal, k as int),
            0 <= xp <= (k as int) * COORD_LIMIT,
            forall|j: int| k <= j < cnt ==> els@[j] == els0[j],
            forall|j: int|
                0 <= j < k ==> set_frame_rel(
                    #[trigger] els0[j],
                    els@[j],
                    spec_scroll_band(els0, *frame, horizontal, delta as int, bar_shift as int, j),
                    center,
                ) && node_wf(els@[j]),
        decreases cnt - k,
    {
        let child = els.remove(k);
        let ghost before = els@;
        proof {
            assert(child == els0[k as int]);
            assert(decreases_to!(els_param => els_param@));
            assert(els_param@ == els0);
            assert(decreases_to!(els0 => els0[k as int]));
            assert(decreases_to!(els_param => child));
            assert(node_wf(child));
        }
        let mn_v = child.get_min_size();
        let mn = cap_extent(
            if horizontal {
                mn_v.x
            } else {
                mn_v.y
            },
        );
        let cf = scroll_child_frame_exec(frame, horizontal, delta, xp, mn, bar_shift);
        proof {
            reveal(spec_scroll_band);
            assert(cf == spec_scroll_band(
                els0,
                *frame,
                horizontal,
                delta as int,
                bar_shift as int,
                k as int,
            ));
        }
        let child2 = set_frame_node(child, cf, center);
        els.insert(k, child2);
        proof {
            assert(els@ =~= before.insert(k as int, child2));
        }
        xp = xp + mn;
        k = k + 1;
    }
    proof {
        assert forall|i: int| 0 <= i < els@.len() implies node_wf(#[trigger] els@[i]) by {
            assert(set_frame_rel(
                els0[i],
                els@[i],
                spec_scroll_band(els0, *frame, horizontal, delta as int, bar_shift as int, i),
                center,
            ) && node_wf(els@[i]));
        }
    }
    els
}

/// Place a scrolled strip: clamp the scroll offset, place the scrollbar
/// thumb, then stack the children at their minimum extents, shifted by
/// the content offset.
#[verifier::loop_isolation(false)]
#[verifier::rlimit(100)]
#[verifier::spinoff_prover]
fn set_frame_scroll(sc: Scroll, frame: Frame, center: Vec2) -> (r: Node)
    requires
        node_wf(Node::Scroll(sc)),
        frame.wf(),
        center_wf(center),
    ensures
        set_frame_rel(Node::Scroll(sc), r, frame, center),
        node_wf(r),
    decreases Node::Scroll(sc), 0int,
{
    let mut sc = sc;
    let ghost nn = Node::Scroll(sc);
    let ghost sc0 = sc;
    proof {
        assert(nn == Node::Scroll(sc0));
        assert(seq_wf(sc0.elements@));
    }
    let horizontal = matches!(sc.alignment, ScrollAlignment::Horizontal);
    let extent = if horizontal {
        frame.p1.x - frame.p0.x
    } else {
        frame.p1.y - frame.p0.y
    };
    let s_axis = cap_extent(extent);
    let agg = seq_axis_min(&sc.elements, horizontal);
    let m = cap_extent(
        if horizontal {
            agg.x
        } else {
            agg.y
        },
    );
    let st = scroll_state_exec(s_axis, m, sc.scroll_pos, sc.scroll_pending);
    let bar_shift = if m < s_axis {
        0
    } else {
        sc.scroll_bar_width
    };
    let bf = scroll_bar_frame_exec(&frame, horizontal, st.0, st.1, sc.scroll_bar_width);
    sc.scroll_bar.set_frame(bf, center);
    let mut els = Vec::new();
    core::mem::swap(&mut els, &mut sc.elements);
    proof {
        assert(decreases_to!(nn => nn->Scroll_0));
        assert(sc0 == nn->Scroll_0);
        assert(decreases_to!(sc0 => sc0.elements));
        assert(els == sc0.elements);
    }
    let els2 = place_scroll_children(els, &frame, center, horizontal, st.2, bar_shift);
    sc.elements = els2;
    Node::Scroll(Scroll { frame, global_center: center, ..sc })
}


/// Place a node at a frame, recomputing and propagating child layout.
#[verifier::loop_isolation(false)]
#[verifier::rlimit(50)]
pub fn set_frame_node(n: Node, frame: Frame, center: Vec2) -> (r: Node)
    requires
        node_wf(n),
        frame.wf(),
        center_wf(center),
    ensures
        set_frame_rel(n, r, frame, center),
        node_wf(r),
    decreases n, 1int,
{
    match n {
        Node::Empty(e) => Node::Empty(Empty { frame, window_center: center, ..e }),
        Node::Plane(p) => Node::Plane(Plane { frame, global_center: center, ..p }),
        Node::Text(t) => Node::Text(Text { frame, global_center: center, ..t }),
        Node::Button(mut b) => {
            b.set_frame(frame, center);
            Node::Button(b)
        },
        Node::Layers(l) => set_frame_layers(l, frame, center),
        Node::List(l) => set_frame_list(l, frame, center),
        Node::Scroll(sc) => set_frame_scroll(sc, frame, center),
        Node::Pad(p) => {
            let ghost n0 = n;
            let ghost p0 = p;
            let min = p.element.get_min_size();
            let cf = pad_child_frame(&p.alignment, &p.pad_size, &frame, true, min);
            let child = *p.element;
            proof {
                assert(decreases_to!(n => n->Pad_0));
                assert(p0 == n->Pad_0);
                assert(decreases_to!(p0 => p0.element));
                assert(decreases_to!(n => child));
            }
            let child2 = set_frame_node(child, cf, center);
            Node::Pad(
                Pad {
                    widget_id: p.widget_id,
                    parent: p.parent,
                    element: Box::new(child2),
                    pad_size: p.pad_size,
                    alignment: p.alignment,
                    is_setup: p.is_setup,
                    frame,
                    global_center: center,
                    min_size: p.min_size,
                    max_size: p.max_size,
                    original_pad_size: p.pad_size,
                    original_alignment: p.alignment,
                },
            )
        },
        Node::Animation(a) => {
            let ghost a0 = a;
            let child = *a.element;
            proof {
                assert(decreases_to!(n => n->Animation_0));
                assert(a0 == n->Animation_0);
                assert(decreases_to!(a0 => a0.element));
                assert(decreases_to!(n => child));
            }
            let child2 = set_frame_node(child, frame, center);
            Node::Animation(
                Animation {
                    widget_id: a.widget_id,
                    parent: a.parent,
                    floating: a.floating,
                    element: Box::new(child2),
                    size_animation: a.size_animation,
                    position_animation: a.position_animation,
                    min_size: a.min_size,
                    max_size: a.max_size,
                    duration: a.duration,
                    start_time: a.start_time,
                    running: a.running,
                },
            )
        },
        Node::Socket(sk) => {
            let ghost s0 = sk;
            let child = *sk.element;
            proof {
                assert(decreases_to!(n => n->Socket_0));
                assert(s0 == n->Socket_0);
                assert(decreases_to!(s0 => s0.element));
                assert(decreases_to!(n => child));
            }
            let child2 = set_frame_node(child, frame, center);
            Node::Socket(
                Socket {
                    widget_id: sk.widget_id,
                    parent: sk.parent,
                    min_size: sk.min_size,
                    max_size: sk.max_size,
                    is_setup: sk.is_setup,
                    element: Box::new(child2),
                    rules: sk.rules,
                },
            )
        },
    }
}




/// The first handler rule matching a sender and payload kind.
pub open spec fn spec_rule_lookup(
    rules: Seq<HandlerRule>,
    sender: Seq<char>,
    kind: MsgKind,
    k: int,
) -> Option<HandlerRule>
    decreases rules.len() - k,
{
    if k < 0 || k >= rules.len() {
        None
    } else if rules[k].sender_id@ == sender && rules[k].kind == kind {
        Some(rules[k])
    } else {
        spec_rule_lookup(rules, sender, kind, k + 1)
    }
}

/// The pixel position a pointer payload carries, if any.
pub open spec fn spec_pointer_pos(d: ActionMsgData) -> Option<(i64, i64)> {
    match d {
        ActionMsgData::Mouse(x, y) => Some((x, y)),
        ActionMsgData::MousePressLeft(x, y) => Some((x, y)),
        ActionMsgData::MousePressRight(x, y) => Some((x, y)),
        ActionMsgData::MousePressMiddle(x, y) => Some((x, y)),
        _ => None,
    }
}

/// The thumb-drag state machine of a scrolled strip: a left press inside
/// the thumb starts a drag and consumes the event; while dragging, a left
/// drag stores its axis delta (sign-adjusted so dragging toward the far
/// end scrolls the content) as the pending offset and is consumed; a left
/// release commits the pending offset into the position, clears the drag
/// and is forwarded; everything else passes through untouched.
pub open spec fn spec_scroll_transmit(s: Scroll, m: ActionMsg) -> (Scroll, Option<ActionMsg>) {
    match m.msg {
        ActionMsgData::MousePressLeft(x, y) => {
            if s.scroll_bar.frame.p0.x <= x <= s.scroll_bar.frame.p1.x && s.scroll_bar.frame.p0.y
                <= y <= s.scroll_bar.frame.p1.y {
                (Scroll { drag_active: true, ..s }, None::<ActionMsg>)
            } else {
                (s, Some(m))
            }
        },
        ActionMsgData::MouseDragLeft(x, y) => {
            if s.drag_active {
                let d = if s.alignment == ScrollAlignment::Horizontal {
                    -x
                } else {
                    y as int
                };
                (Scroll { scroll_pending: spec_cap(d) as i64, ..s }, None::<ActionMsg>)
            } else {
                (s, Some(m))
            }
        },
        ActionMsgData::MouseReleaseLeft(_x, _y) => {
            if s.drag_active {
                (
                    Scroll {
                        scroll_pos: spec_cap(s.scroll_pos + s.scroll_pending) as i64,
                        scroll_pending: 0,
                        drag_active: false,
                        ..s
                    },
                    Some(m),
                )
            } else {
                (s, Some(m))
            }
        },
        _ => (s, Some(m)),
    }
}

/// An intermediate dispatch state between two adjacent children of a
/// chain: the message still in flight (if any) and the outbox so far. Any
/// pair is a state; the function anchors the chain's existential.
pub open spec fn chain_state(m: Option<ActionMsg>, e: Seq<ActionMsg>) -> bool {
    true
}

/// A message threading through the first `k` children in order: a child
/// that consumes it (hands back nothing) stops the chain, and every child
/// after that point is untouched and observes nothing.
pub open spec fn chain_upto(
    a: Seq<Node>,
    b: Seq<Node>,
    k: int,
    m0: Option<ActionMsg>,
    mk: Option<ActionMsg>,
    e0: Seq<ActionMsg>,
    ek: Seq<ActionMsg>,
) -> bool
    decreases a, k,
{
    if k <= 0 {
        mk == m0 && ek == e0
    } else if k > a.len() || k > b.len() {
        false
    } else {
        match m0 {
            None => (forall|j: int| 0 <= j < k ==> b[j] == a[j]) && mk == None::<ActionMsg> && ek
                == e0,
            Some(_) => exists|mp: Option<ActionMsg>, ep: Seq<ActionMsg>|
                #![trigger chain_state(mp, ep)]
                chain_state(mp, ep) && chain_upto(a, b, k - 1, m0, mp, e0, ep) && (match mp {
                    None => b[k - 1] == a[k - 1] && mk == None::<ActionMsg> && ek == ep,
                    Some(mm) => transmit_rel(a[k - 1], b[k - 1], mm, false, ep, ek, mk),
                }),
        }
    }
}

/// What dispatching one message does, for every variant: a node may use
/// the message up, transform it, or pass it on; what it emits under its
/// own id is appended to the outbox (`e0` before, `e1` after). With the
/// `stop` flag set, children are not forwarded to.
pub open spec fn transmit_rel(
    a: Node,
    b: Node,
    m: ActionMsg,
    stop: bool,
    e0: Seq<ActionMsg>,
    e1: Seq<ActionMsg>,
    r: Option<ActionMsg>,
) -> bool
    decreases a, 1int,
{
    match (a, b) {
        (Node::Empty(x), Node::Empty(y)) => y == x && r == Some(m) && e1 == e0,
        (Node::Plane(x), Node::Plane(y)) => y == x && r == Some(m) && e1 == e0,
        (Node::Text(x), Node::Text(y)) => y == x && r == Some(m) && e1 == e0,
        (Node::Button(x), Node::Button(y)) => {
            let bt = crate::basic::spec_button_transmit(x, m);
            y == bt.0 && r == bt.1 && e1 == e0 + bt.2
        },
        (Node::Layers(x), Node::Layers(y)) => {
            &&& y == (Layers { layers: y.layers, ..x })
            &&& y.layers@.len() == x.layers@.len()
            &&& if stop {
                y.layers@ == x.layers@ && r == Some(m) && e1 == e0
            } else {
                chain_upto(x.layers@, y.layers@, x.layers@.len() as int, Some(m), r, e0, e1)
            }
        },
        (Node::List(x), Node::List(y)) => {
            &&& y == (List { elements: y.elements, ..x })
            &&& y.elements@.len() == x.elements@.len()
            &&& if stop {
                y.elements@ == x.elements@ && r == Some(m) && e1 == e0
            } else {
                chain_upto(x.elements@, y.elements@, x.elements@.len() as int, Some(m), r, e0, e1)
            }
        },
        (Node::Scroll(x), Node::Scroll(y)) => {
            let dm = spec_scroll_transmit(x, m);
            let m1 = dm.1;
            let bt = crate::basic::spec_button_transmit(dm.0.scroll_bar, m);
            let s2 = Scroll { scroll_bar: bt.0, ..dm.0 };
            &&& e1.len() >= e0.len() + bt.2.len()
            &&& if s2.drag_active {
                &&& scroll_scalars_eq(s2, y)
                &&& y.is_setup == s2.is_setup
                &&& scroll_mutated(s2, y, x.elements@)
                &&& r == m1
                &&& e1 == e0 + bt.2
            } else if stop {
                y == s2 && r == m1 && e1 == e0 + bt.2
            } else {
                let fwd = match spec_pointer_pos(m.msg) {
                    Some(pt) => if x.frame.p0.x <= pt.0 <= x.frame.p1.x && x.frame.p0.y <= pt.1
                        <= x.frame.p1.y {
                        m1
                    } else {
                        Some(ActionMsg { sender_id: x.id, msg: ActionMsgData::MouseGone })
                    },
                    None => m1,
                };
                &&& scroll_scalars_eq(s2, y)
                &&& y.is_setup == s2.is_setup
                &&& y.scroll_bar == s2.scroll_bar
                &&& y.elements@.len() == x.elements@.len()
                &&& chain_upto(
                    x.elements@,
                    y.elements@,
                    x.elements@.len() as int,
                    fwd,
                    r,
                    e0 + bt.2,
                    e1,
                )
            }
        },
        (Node::Pad(x), Node::Pad(y)) => {
            &&& y == (Pad { element: y.element, ..x })
            &&& if stop {
                *y.element == *x.element && r == Some(m) && e1 == e0
            } else {
                transmit_rel(*x.element, *y.element, m, false, e0, e1, r)
            }
        },
        (Node::Animation(x), Node::Animation(y)) => exists|midc: Node|
            #![trigger anim_step_after(x, midc, y, m.msg is Update)]
            (if stop {
                midc == *x.element && r == Some(m) && e1 == e0
            } else {
                transmit_rel(*x.element, midc, m, false, e0, e1, r)
            }) && anim_step_after(x, midc, y, m.msg is Update),
        (Node::Socket(x), Node::Socket(y)) => {
            let rule = spec_rule_lookup(x.rules@, m.sender_id@, spec_kind_of(m.msg), 0);
            &&& y == (Socket { element: y.element, ..x })
            &&& match rule {
                Some(rl) => if rl.consume {
                    socket_action_rel(*x.element, *y.element, rl.action) && r
                        == None::<ActionMsg> && e1 == e0
                } else if stop {
                    socket_action_rel(*x.element, *y.element, rl.action) && r == Some(m) && e1
                        == e0
                } else {
                    exists|midc: Node|
                        #![trigger socket_action_rel(midc, *y.element, rl.action)]
                        transmit_rel(*x.element, midc, m, false, e0, e1, r) && socket_action_rel(
                            midc,
                            *y.element,
                            rl.action,
                        )
                },
                None => if stop {
                    *y.element == *x.element && r == Some(m) && e1 == e0
                } else {
                    transmit_rel(*x.element, *y.element, m, false, e0, e1, r)
                },
            }
        },
        _ => false,
    }
}

/// What a socket action does to the wrapped element: starting an
/// animation sends the start notification (at some clock reading) when
/// the element is one; anything else is untouched.
pub open spec fn socket_action_rel(a: Node, b: Node, action: SocketAction) -> bool {
    match action {
        SocketAction::StartAnimation => if a is Animation {
            exists|now: u64| start_applied_rel(a, b, false, now)
        } else {
            b == a
        },
        SocketAction::Ignore => b == a,
    }
}

/// An update tick steps the animation (at some clock reading) after its
/// element, already holding the forwarded message, is in place; any other
/// message leaves the animation state alone.
pub open spec fn anim_step_after(x: Animation, midc: Node, y: Animation, is_update: bool) -> bool {
    if is_update {
        exists|now: u64| run_step_core(Animation { element: x.element, ..x }, midc, y, now)
    } else {
        y == (Animation { element: y.element, ..x }) && *y.element == midc
    }
}

/// Once a message has been used up, no element after that point in the
/// dispatch order observes it or changes: threading nothing through
/// children leaves every one untouched and emits nothing.
pub proof fn lemma_dispatch_consumption(
    a: Seq<Node>,
    b: Seq<Node>,
    k: int,
    mk: Option<ActionMsg>,
    e0: Seq<ActionMsg>,
    ek: Seq<ActionMsg>,
)
    requires
        chain_upto(a, b, k, None::<ActionMsg>, mk, e0, ek),
        k <= a.len(),
        k <= b.len(),
    ensures
        forall|j: int| 0 <= j < k ==> b[j] == a[j],
        mk == None::<ActionMsg>,
        ek == e0,
    decreases k,
{
}

/// A chain over the first `k` children only constrains the first `k`
/// entries of the result sequence: rewriting the entries at or past `k`
/// preserves it.
proof fn lemma_chain_congruence(
    a: Seq<Node>,
    b1: Seq<Node>,
    b2: Seq<Node>,
    k: int,
    m0: Option<ActionMsg>,
    mk: Option<ActionMsg>,
    e0: Seq<ActionMsg>,
    ek: Seq<ActionMsg>,
)
    requires
        chain_upto(a, b1, k, m0, mk, e0, ek),
        k <= b1.len(),
        k <= b2.len(),
        forall|j: int| 0 <= j < k ==> b2[j] == b1[j],
    ensures
        chain_upto(a, b2, k, m0, mk, e0, ek),
    decreases k,
{
    if k > 0 && m0 is Some {
        assert(k <= a.len());
        let (mp, ep) = choose|mp: Option<ActionMsg>, ep: Seq<ActionMsg>|
            #![trigger chain_state(mp, ep)]
            chain_state(mp, ep) && chain_upto(a, b1, k - 1, m0, mp, e0, ep) && (match mp {
                None => b1[k - 1] == a[k - 1] && mk == None::<ActionMsg> && ek == ep,
                Some(mm) => transmit_rel(a[k - 1], b1[k - 1], mm, false, ep, ek, mk),
            });
        lemma_chain_congruence(a, b1, b2, k - 1, m0, mp, e0, ep);
        assert(chain_upto(a, b2, k - 1, m0, mp, e0, ep));
        assert(chain_state(mp, ep));
        assert(b2[k - 1] == b1[k - 1]);
    }
}

/// The pixel position a pointer payload carries, if any.
fn pointer_pos(d: &ActionMsgData) -> (r: Option<(i64, i64)>)
    ensures
        r == spec_pointer_pos(*d),
{
    match d {
        ActionMsgData::Mouse(x, y) => Some((*x, *y)),
        ActionMsgData::MousePressLeft(x, y) => Some((*x, *y)),
        ActionMsgData::MousePressRight(x, y) => Some((*x, *y)),
        ActionMsgData::MousePressMiddle(x, y) => Some((*x, *y)),
        _ => None,
    }
}

/// The first handler rule matching a sender and payload kind.
fn rule_lookup(rules: &Vec<HandlerRule>, sender: &String, kind: MsgKind) -> (r: Option<
    HandlerRule,
>)
    ensures
        r == spec_rule_lookup(rules@, sender@, kind, 0),
{
    let n = rules.len();
    let mut k: usize = 0;
    while k < n
        invariant
            k <= n == rules@.len(),
            spec_rule_lookup(rules@, sender@, kind, 0) == spec_rule_lookup(
                rules@,
                sender@,
                kind,
                k as int,
            ),
        decreases n - k,
    {
        let rl = &rules[k];
        if rl.sender_id == *sender && rl.kind == kind {
            return Some(
                HandlerRule {
                    sender_id: rl.sender_id.clone(),
                    kind: rl.kind,
                    action: rl.action,
                    consume: rl.consume,
                },
            );
        }
        k = k + 1;
    }
    None
}

/// Apply a socket handler's action to the wrapped element.
fn apply_socket_action(n: Node, action: SocketAction) -> (r: Node)
    requires
        node_wf(n),
    ensures
        node_wf(r),
        socket_action_rel(n, r, action),
{
    match action {
        SocketAction::StartAnimation => {
            if matches!(n, Node::Animation(_)) {
                let now = crate::clock::now_ms();
                let ghost before = n;
                let r = start_node(n, false, now);
                proof {
                    assert(start_applied_rel(before, r, false, now));
                }
                r
            } else {
                n
            }
        },
        SocketAction::Ignore => n,
    }
}

/// Run the thumb-drag machine of a scrolled strip on one message.
fn scroll_transmit_exec(s: Scroll, m: ActionMsg) -> (res: (Scroll, Option<ActionMsg>))
    requires
        node_wf(Node::Scroll(s)),
    ensures
        (res.0, res.1) == spec_scroll_transmit(s, m),
        node_wf(Node::Scroll(res.0)),
{
    match &m.msg {
        ActionMsgData::MousePressLeft(x, y) => {
            if s.scroll_bar.frame.inside(*x, *y) {
                (Scroll { drag_active: true, ..s }, None)
            } else {
                (s, Some(m))
            }
        },
        ActionMsgData::MouseDragLeft(x, y) => {
            if s.drag_active {
                let horizontal = matches!(s.alignment, ScrollAlignment::Horizontal);
                let d = if horizontal {
                    let cx = cap_i64(*x);
                    -cx
                } else {
                    cap_i64(*y)
                };
                proof {
                    assert(d as int == spec_cap(
                        if s.alignment == ScrollAlignment::Horizontal {
                            -(m.msg->MouseDragLeft_0 as int)
                        } else {
                            m.msg->MouseDragLeft_1 as int
                        },
                    ));
                }
                (Scroll { scroll_pending: d, ..s }, None)
            } else {
                (s, Some(m))
            }
        },
        ActionMsgData::MouseReleaseLeft(_x, _y) => {
            if s.drag_active {
                let np = cap_i64(s.scroll_pos + s.scroll_pending);
                (
                    Scroll { scroll_pos: np, scroll_pending: 0, drag_active: false, ..s },
                    Some(m),
                )
            } else {
                (s, Some(m))
            }
        },
        _ => (s, Some(m)),
    }
}

/// Thread one message through a chain of children in order: a child that
/// consumes it stops the chain, and the children after that point are
/// untouched and observe nothing.
#[verifier::loop_isolation(false)]
fn transmit_chain(els: Vec<Node>, m: ActionMsg, outbox: &mut Vec<ActionMsg>) -> (res: (
    Vec<Node>,
    Option<ActionMsg>,
))
    requires
        seq_wf(els@),
    ensures
        res.0@.len() == els@.len(),
        seq_wf(res.0@),
        chain_upto(els@, res.0@, els@.len() as int, Some(m), res.1, old(outbox)@, final(outbox)@),
        final(outbox)@.len() >= old(outbox)@.len(),
    decreases els, 0int,
{
    let ghost els_param = els;
    let ghost els0 = els@;
    let ghost e0 = outbox@;
    let ghost m0 = m;
    let mut els = els;
    let cnt = els.len();
    let mut cur: Option<ActionMsg> = Some(m);
    let mut k: usize = 0;
    while k < cnt
        invariant
            cnt == els@.len(),
            els0.len() == cnt,
            k <= cnt,
            seq_wf(els0),
            forall|j: int| k <= j < cnt ==> els@[j] == els0[j],
            forall|j: int| 0 <= j < k ==> node_wf(#[trigger] els@[j]),
            chain_upto(els0, els@, k as int, Some(m0), cur, e0, outbox@),
            outbox@.len() >= e0.len(),
        decreases cnt - k,
    {
        let ghost before_els = els@;
        let ghost before_out = outbox@;
        let ghost cur0 = cur;
        match cur {
            Some(mm) => {
                let child = els.remove(k);
                proof {
                    assert(child == els0[k as int]);
                    assert(decreases_to!(els_param => els_param@));
                    assert(els_param@ == els0);
                    assert(decreases_to!(els0 => els0[k as int]));
                    assert(decreases_to!(els_param => child));
                    assert(node_wf(child));
                }
                let (child2, nxt) = transmit_node(child, mm, false, outbox);
                els.insert(k, child2);
                cur = nxt;
                proof {
                    assert(forall|j: int| 0 <= j < cnt && j != k ==> els@[j] == before_els[j]);
                    assert(els@[k as int] == child2);
                    lemma_chain_congruence(
                        els0,
                        before_els,
                        els@,
                        k as int,
                        Some(m0),
                        cur0,
                        e0,
                        before_out,
                    );
                    assert(chain_upto(els0, els@, k as int, Some(m0), cur0, e0, before_out));
                    assert(transmit_rel(
                        els0[k as int],
                        els@[k as int],
                        mm,
                        false,
                        before_out,
                        outbox@,
                        nxt,
                    ));
                    assert(chain_state(cur0, before_out));
                    assert(chain_upto(els0, els@, k as int + 1, Some(m0), cur, e0, outbox@));
                }
            },
            None => {
                proof {
                    assert(els@[k as int] == els0[k as int]);
                    assert(chain_upto(els0, els@, k as int, Some(m0), cur0, e0, before_out));
                    assert(chain_state(cur0, before_out));
                    assert(chain_upto(els0, els@, k as int + 1, Some(m0), cur, e0, outbox@));
                }
            },
        }
        k = k + 1;
    }
    (els, cur)
}

/// Dispatch one message through a scrolled strip: the thumb-drag machine
/// and the scrollbar button see it first, then the children, unless the
/// pointer is outside the strip (then they see the gone sentinel).
#[verifier::rlimit(100)]
#[verifier::spinoff_prover]
fn transmit_scroll_node(x: Scroll, m: ActionMsg, stop: bool, outbox: &mut Vec<ActionMsg>) -> (res:
    (Node, Option<ActionMsg>))
    requires
        node_wf(Node::Scroll(x)),
    ensures
        node_wf(res.0),
        transmit_rel(Node::Scroll(x), res.0, m, stop, old(outbox)@, final(outbox)@, res.1),
        final(outbox)@.len() >= old(outbox)@.len(),
    decreases Node::Scroll(x), 0int,
{
    let ghost n = Node::Scroll(x);
    let ghost e0 = outbox@;
    let ghost x0 = x;
    let mbar = m.duplicate();
    let pos_opt = pointer_pos(&m.msg);
    let ghost m_g = m;
    let (s1, m1) = scroll_transmit_exec(x, m);
    let mut s2 = s1;
    let _ = s2.scroll_bar.transmit_msg(mbar, false, outbox);
    proof {
        assert(s2.scroll_bar == crate::basic::spec_button_transmit(
            spec_scroll_transmit(x0, m_g).0.scroll_bar,
            m_g,
        ).0);
        assert(outbox@ == e0 + crate::basic::spec_button_transmit(
            spec_scroll_transmit(x0, m_g).0.scroll_bar,
            m_g,
        ).2);
    }
    if s2.drag_active {
        s2.relayout();
        (Node::Scroll(s2), m1)
    } else if stop {
        (Node::Scroll(s2), m1)
    } else {
        let fwd: Option<ActionMsg> = match pos_opt {
            Some((px, py)) => {
                if s2.frame.inside(px, py) {
                    m1
                } else {
                    Some(ActionMsg { sender_id: s2.id.clone(), msg: ActionMsgData::MouseGone })
                }
            },
            None => m1,
        };
        match fwd {
            Some(fm) => {
                let mut els = Vec::new();
                core::mem::swap(&mut els, &mut s2.elements);
                proof {
                    assert(decreases_to!(n => n->Scroll_0));
                    assert(x0 == n->Scroll_0);
                    assert(decreases_to!(x0 => x0.elements));
                    assert(els == x0.elements);
                }
                let (els2, r) = transmit_chain(els, fm, outbox);
                s2.elements = els2;
                (Node::Scroll(s2), r)
            },
            None => (Node::Scroll(s2), None),
        }
    }
}

/// Dispatch one message through an animation wrapper: the wrapped element
/// sees it first; an update tick then steps the animation.
#[verifier::rlimit(100)]
#[verifier::spinoff_prover]
fn transmit_anim_node(x: Animation, m: ActionMsg, stop: bool, outbox: &mut Vec<ActionMsg>) -> (res:
    (Node, Option<ActionMsg>))
    requires
        node_wf(Node::Animation(x)),
    ensures
        node_wf(res.0),
        transmit_rel(Node::Animation(x), res.0, m, stop, old(outbox)@, final(outbox)@, res.1),
        final(outbox)@.len() >= old(outbox)@.len(),
    decreases Node::Animation(x), 0int,
{
    let ghost n = Node::Animation(x);
    let ghost x0 = x;
    let ghost m_g = m;
    let is_update = matches!(m.msg, ActionMsgData::Update);
    let child = *x.element;
    proof {
        assert(decreases_to!(n => n->Animation_0));
        assert(x0 == n->Animation_0);
        assert(decreases_to!(x0 => x0.element));
        assert(decreases_to!(n => child));
    }
    let (child2, r) = if stop {
        (child, Some(m))
    } else {
        transmit_node(child, m, false, outbox)
    };
    let ghost midc = child2;
    let mut a2 = Animation { element: Box::new(child2), ..x };
    if is_update {
        let now = crate::clock::now_ms();
        let ghost a2_pre = a2;
        a2.run_at(now);
        proof {
            assert(run_step_core(a2_pre, midc, a2, now));
            assert(run_step_core(Animation { element: x0.element, ..x0 }, midc, a2, now));
            assert(anim_step_after(x0, midc, a2, m_g.msg is Update));
        }
    } else {
        proof {
            assert(anim_step_after(x0, midc, a2, m_g.msg is Update));
        }
    }
    (Node::Animation(a2), r)
}

/// Dispatch one message through a socket: its handler registry runs first
/// and decides whether the wrapped element sees the message at all.
#[verifier::rlimit(100)]
#[verifier::spinoff_prover]
fn transmit_socket_node(x: Socket, m: ActionMsg, stop: bool, outbox: &mut Vec<ActionMsg>) -> (res:
    (Node, Option<ActionMsg>))
    requires
        node_wf(Node::Socket(x)),
    ensures
        node_wf(res.0),
        transmit_rel(Node::Socket(x), res.0, m, stop, old(outbox)@, final(outbox)@, res.1),
        final(outbox)@.len() >= old(outbox)@.len(),
    decreases Node::Socket(x), 0int,
{
    let ghost n = Node::Socket(x);
    let ghost x0 = x;
    let rule = rule_lookup(&x.rules, &m.sender_id, kind_of(&m.msg));
    let child = *x.element;
    proof {
        assert(decreases_to!(n => n->Socket_0));
        assert(x0 == n->Socket_0);
        assert(decreases_to!(x0 => x0.element));
        assert(decreases_to!(n => child));
    }
    match rule {
        Some(rl) => {
            if rl.consume {
                let child2 = apply_socket_action(child, rl.action);
                (Node::Socket(Socket { element: Box::new(child2), ..x }), None)
            } else if stop {
                let child2 = apply_socket_action(child, rl.action);
                (Node::Socket(Socket { element: Box::new(child2), ..x }), Some(m))
            } else {
                let (mid, r) = transmit_node(child, m, false, outbox);
                let ghost midg = mid;
                let child2 = apply_socket_action(mid, rl.action);
                proof {
                    assert(socket_action_rel(midg, child2, rl.action));
                }
                (Node::Socket(Socket { element: Box::new(child2), ..x }), r)
            }
        },
        None => {
            if stop {
                (Node::Socket(Socket { element: Box::new(child), ..x }), Some(m))
            } else {
                let (child2, r) = transmit_node(child, m, false, outbox);
                (Node::Socket(Socket { element: Box::new(child2), ..x }), r)
            }
        },
    }
}

/// Dispatch one message through a subtree: the node may use it up,
/// transform it, or pass it on, and appends what it emits to `outbox`.
#[verifier::rlimit(100)]
#[verifier::spinoff_prover]
fn transmit_node(n: Node, m: ActionMsg, stop: bool, outbox: &mut Vec<ActionMsg>) -> (res: (
    Node,
    Option<ActionMsg>,
))
    requires
        node_wf(n),
    ensures
        node_wf(res.0),
        transmit_rel(n, res.0, m, stop, old(outbox)@, final(outbox)@, res.1),
        final(outbox)@.len() >= old(outbox)@.len(),
    decreases n, 1int,
{
    let ghost e0 = outbox@;
    match n {
        Node::Empty(x) => (Node::Empty(x), Some(m)),
        Node::Plane(x) => (Node::Plane(x), Some(m)),
        Node::Text(x) => (Node::Text(x), Some(m)),
        Node::Button(x) => {
            let mut b = x;
            let r = b.transmit_msg(m, stop, outbox);
            (Node::Button(b), r)
        },
        Node::Layers(x) => {
            if stop {
                (Node::Layers(x), Some(m))
            } else {
                let ghost x0 = x;
                let mut x = x;
                let mut els = Vec::new();
                core::mem::swap(&mut els, &mut x.layers);
                proof {
                    assert(decreases_to!(n => n->Layers_0));
                    assert(x0 == n->Layers_0);
                    assert(decreases_to!(x0 => x0.layers));
                    assert(els == x0.layers);
                }
                let (els2, r) = transmit_chain(els, m, outbox);
                x.layers = els2;
                (Node::Layers(x), r)
            }
        },
        Node::List(x) => {
            if stop {
                (Node::List(x), Some(m))
            } else {
                let ghost x0 = x;
                let mut x = x;
                let mut els = Vec::new();
                core::mem::swap(&mut els, &mut x.elements);
                proof {
                    assert(decreases_to!(n => n->List_0));
                    assert(x0 == n->List_0);
                    assert(decreases_to!(x0 => x0.elements));
                    assert(els == x0.elements);
                }
                let (els2, r) = transmit_chain(els, m, outbox);
                x.elements = els2;
                (Node::List(x), r)
            }
        },
        Node::Scroll(x) => transmit_scroll_node(x, m, stop, outbox),
        Node::Pad(x) => {
            if stop {
                (Node::Pad(x), Some(m))
            } else {
                let ghost x0 = x;
                let child = *x.element;
                proof {
                    assert(decreases_to!(n => n->Pad_0));
                    assert(x0 == n->Pad_0);
                    assert(decreases_to!(x0 => x0.element));
                    assert(decreases_to!(n => child));
                }
                let (child2, r) = transmit_node(child, m, false, outbox);
                (Node::Pad(Pad { element: Box::new(child2), ..x }), r)
            }
        },
        Node::Animation(x) => transmit_anim_node(x, m, stop, outbox),
        Node::Socket(x) => transmit_socket_node(x, m, stop, outbox),
    }
}

impl Node {
    /// Dispatch one message through this subtree, in dispatch order: the
    /// subtree may use the message up (`None`), transform it, or pass it
    /// on unchanged, and appends what it emits to `outbox`. With `stop`
    /// set, children are not forwarded to.
    pub fn transmit_msg(&mut self, msg: ActionMsg, stop: bool, outbox: &mut Vec<ActionMsg>) -> (r:
        Option<ActionMsg>)
        requires
            node_wf(*old(self)),
        ensures
            node_wf(*final(self)),
            transmit_rel(*old(self), *final(self), msg, stop, old(outbox)@, final(outbox)@, r),
            final(outbox)@.len() >= old(outbox)@.len(),
    {
        let mut owned = Node::Empty(Empty::new());
        core::mem::swap(self, &mut owned);
        let (done, r) = transmit_node(owned, msg, stop, outbox);
        *self = done;
        r
    }
}

/// The outcome of a list mutation: against the current frame and axis,
/// the ring holds exactly the rescale of the new slot constraints, and
/// every child of the new child sequence is placed at its band of
/// cumulative slot offsets.
pub open spec fn list_mutated(
    before: List,
    after: List,
    kids: Seq<Node>,
    slots: Seq<crate::ring::RingElement>,
) -> bool {
    let horizontal = before.alignment == ListAlignment::Horizontal;
    let len = spec_cap_extent(
        if horizontal {
            before.frame.p1.x - before.frame.p0.x
        } else {
            before.frame.p1.y - before.frame.p0.y
        },
    );
    &&& after.elements@.len() == kids.len()
    &&& after.ring.size == len
    &&& after.ring.rescaled(slots)
    &&& forall|j: int|
        0 <= j < kids.len() ==> set_frame_rel(
            #[trigger] kids[j],
            after.elements@[j],
            spec_list_child_frame(after.ring, before.frame, horizontal, j, kids.len() as int),
            before.global_center,
        )
}

/// Re-place a list's children against its current frame.
fn relayout_list(l: List) -> (r: List)
    requires
        node_wf(Node::List(l)),
    ensures
        node_wf(Node::List(r)),
        set_frame_rel(Node::List(l), Node::List(r), l.frame, l.global_center),
{
    let frame = Frame { p0: l.frame.p0, p1: l.frame.p1 };
    let center = l.global_center;
    let ghost mid = l;
    let out = set_frame_list(l, frame, center);
    proof {
        if !(out is List) {
            assert(!set_frame_rel(Node::List(mid), out, frame, center));
            assert(false);
        }
    }
    match out {
        Node::List(r) => r,
        _ => vstd::pervasive::unreached(),
    }
}

/// Re-place a scrolled strip's children against its current frame.
fn relayout_scroll(sc: Scroll) -> (r: Scroll)
    requires
        node_wf(Node::Scroll(sc)),
    ensures
        node_wf(Node::Scroll(r)),
        set_frame_rel(Node::Scroll(sc), Node::Scroll(r), sc.frame, sc.global_center),
{
    let frame = Frame { p0: sc.frame.p0, p1: sc.frame.p1 };
    let center = sc.global_center;
    let ghost mid = sc;
    let out = set_frame_scroll(sc, frame, center);
    proof {
        if !(out is Scroll) {
            assert(!set_frame_rel(Node::Scroll(mid), out, frame, center));
            assert(false);
        }
    }
    match out {
        Node::Scroll(r) => r,
        _ => vstd::pervasive::unreached(),
    }
}

impl Node {
    /// Place this node, recomputing its layout and its children's.
    pub fn set_frame(&mut self, frame: Frame, window_center: Vec2)
        requires
            node_wf(*old(self)),
            frame.wf(),
            center_wf(window_center),
        ensures
            set_frame_rel(*old(self), *final(self), frame, window_center),
            node_wf(*final(self)),
    {
        let mut owned = Node::Empty(Empty::new());
        core::mem::swap(self, &mut owned);
        let done = set_frame_node(owned, frame, window_center);
        *self = done;
    }
}


/// What setting the floating hint does: leaf elements store it, wrappers
/// pass it through, containers ignore it.
pub open spec fn floating_rel(a: Node, b: Node, f: bool) -> bool
    decreases a,
{
    match (a, b) {
        (Node::Empty(x), Node::Empty(y)) => y == x,
        (Node::Plane(x), Node::Plane(y)) => y == (Plane { floating: f, ..x }),
        (Node::Text(x), Node::Text(y)) => y == (Text { floating: f, ..x }),
        (Node::Button(x), Node::Button(y)) => y == (Button { floating: f, ..x }),
        (Node::Layers(x), Node::Layers(y)) => y == x,
        (Node::List(x), Node::List(y)) => y == x,
        (Node::Scroll(x), Node::Scroll(y)) => y == x,
        (Node::Pad(x), Node::Pad(y)) => y == (Pad { element: y.element, ..x }) && floating_rel(
            *x.element,
            *y.element,
            f,
        ),
        (Node::Animation(x), Node::Animation(y)) => y == (Animation { element: y.element, ..x })
            && floating_rel(*x.element, *y.element, f),
        (Node::Socket(x), Node::Socket(y)) => y == (Socket { element: y.element, ..x })
            && floating_rel(*x.element, *y.element, f),
        _ => false,
    }
}

/// A pad after a size override: the new target comes from the recorded
/// baseline (never from the current override, so equal inputs always give
/// identical geometry), and the child is placed from it without the
/// minimum clamp.
pub open spec fn pad_size_override_rel(a: Pad, b: Pad, xy: (Dim, Dim)) -> bool {
    &&& b == (Pad { element: b.element, pad_size: spec_animated_pad_size(a, xy), ..a })
    &&& set_frame_rel(
        *a.element,
        *b.element,
        spec_pad_child_frame(
            a.alignment,
            spec_animated_pad_size(a, xy),
            a.frame,
            false,
            spec_min_size(*a.element).0,
            spec_min_size(*a.element).1,
        ),
        a.global_center,
    )
}

/// A pad after a position override: the anchor becomes an offset from the
/// center; the recorded original anchor is untouched.
pub open spec fn pad_pos_override_rel(a: Pad, b: Pad, xy: (Dim, Dim)) -> bool {
    &&& b == (Pad { element: b.element, alignment: PadAlignment::XY(xy.0, xy.1), ..a })
    &&& set_frame_rel(
        *a.element,
        *b.element,
        spec_pad_child_frame(
            PadAlignment::XY(xy.0, xy.1),
            a.pad_size,
            a.frame,
            false,
            spec_min_size(*a.element).0,
            spec_min_size(*a.element).1,
        ),
        a.global_center,
    )
}

/// A pad restored to its recorded baseline exactly, with the child it is
/// placed from given separately (so the restore can be stated after a
/// floating-hint pass already rewrote the child): original size and anchor
/// come back bit for bit, and `c` is placed from them with the minimum
/// clamp, exactly as the last explicit `set_frame` placed it.
pub open spec fn pad_reset_from(a: Pad, c: Node, b: Pad) -> bool {
    &&& b == (Pad {
        element: b.element,
        pad_size: a.original_pad_size,
        alignment: a.original_alignment,
        ..a
    })
    &&& set_frame_rel(
        c,
        *b.element,
        spec_pad_child_frame(
            a.original_alignment,
            a.original_pad_size,
            a.frame,
            true,
            spec_min_size(c).0,
            spec_min_size(c).1,
        ),
        a.global_center,
    )
}

/// A pad restored to its recorded baseline exactly: original size and
/// anchor come back bit for bit, and the child is placed from them with
/// the minimum clamp, exactly as the last explicit `set_frame` placed it.
pub open spec fn pad_reset_rel(a: Pad, b: Pad) -> bool {
    pad_reset_from(a, *a.element, b)
}

/// Applying eased overrides to the element an animation wraps: a pad takes
/// the size then the position override; a nested animation passes them to
/// its own wrapped element; any other element is untouched.
pub open spec fn overrides_rel(
    a: Node,
    b: Node,
    s: Option<(Dim, Dim)>,
    p: Option<(Dim, Dim)>,
) -> bool
    decreases a,
{
    match (a, b) {
        (Node::Pad(x), Node::Pad(y)) => exists|mid: Pad|
            #![trigger mid.pad_size]
            (match s {
                Some(xy) => pad_size_override_rel(x, mid, xy),
                None => mid == x,
            }) && (match p {
                Some(xy) => pad_pos_override_rel(mid, y, xy),
                None => y == mid,
            }),
        (Node::Animation(x), Node::Animation(y)) => y == (Animation { element: y.element, ..x })
            && overrides_rel(*x.element, *y.element, s, p),
        (Node::Empty(x), Node::Empty(y)) => y == x,
        (Node::Plane(x), Node::Plane(y)) => y == x,
        (Node::Text(x), Node::Text(y)) => y == x,
        (Node::Button(x), Node::Button(y)) => y == x,
        (Node::Layers(x), Node::Layers(y)) => y == x,
        (Node::List(x), Node::List(y)) => y == x,
        (Node::Scroll(x), Node::Scroll(y)) => y == x,
        (Node::Socket(x), Node::Socket(y)) => y == x,
        _ => false,
    }
}

/// Restoring baselines after an animation completes: a pad is restored
/// exactly; a nested animation that is still running is left alone (the
/// flicker guard of nested composition), an idle one clears the floating
/// hint it set on its subtree and then forwards the reset (the hint was
/// only ever temporary, for the duration of the run); other elements are
/// untouched.
pub open spec fn reset_rel(a: Node, b: Node) -> bool
    decreases a,
{
    match (a, b) {
        (Node::Pad(x), Node::Pad(y)) => pad_reset_rel(x, y),
        (Node::Animation(x), Node::Animation(y)) => if x.running {
            y == x
        } else {
            y == (Animation { element: y.element, ..x }) && clear_reset_rel(
                *x.element,
                *y.element,
            )
        },
        (Node::Empty(x), Node::Empty(y)) => y == x,
        (Node::Plane(x), Node::Plane(y)) => y == x,
        (Node::Text(x), Node::Text(y)) => y == x,
        (Node::Button(x), Node::Button(y)) => y == x,
        (Node::Layers(x), Node::Layers(y)) => y == x,
        (Node::List(x), Node::List(y)) => y == x,
        (Node::Scroll(x), Node::Scroll(y)) => y == x,
        (Node::Socket(x), Node::Socket(y)) => y == x,
        _ => false,
    }
}

/// Clearing the floating hint and then restoring baselines, in one pass:
/// what an idle animation does to its wrapped subtree when it is asked to
/// reset. Leaves have their floating flag cleared and nothing else done; a
/// pad passes the hint through to its child and is then restored exactly
/// from that child; a wrapped animation passes the hint through and, when
/// idle itself, resets in turn (when still running it is left mid-flight,
/// the flicker guard of nested composition); a socket passes the hint
/// through; containers ignore both.
pub open spec fn clear_reset_rel(a: Node, b: Node) -> bool
    decreases a,
{
    match (a, b) {
        (Node::Empty(x), Node::Empty(y)) => y == x,
        (Node::Plane(x), Node::Plane(y)) => y == (Plane { floating: false, ..x }),
        (Node::Text(x), Node::Text(y)) => y == (Text { floating: false, ..x }),
        (Node::Button(x), Node::Button(y)) => y == (Button { floating: false, ..x }),
        (Node::Layers(x), Node::Layers(y)) => y == x,
        (Node::List(x), Node::List(y)) => y == x,
        (Node::Scroll(x), Node::Scroll(y)) => y == x,
        (Node::Pad(x), Node::Pad(y)) => exists|mid: Node|
            #![trigger floating_rel(*x.element, mid, false)]
            floating_rel(*x.element, mid, false) && pad_reset_from(x, mid, y),
        (Node::Animation(x), Node::Animation(y)) => {
            &&& y == (Animation { element: y.element, ..x })
            &&& if x.running {
                floating_rel(*x.element, *y.element, false)
            } else {
                clear_reset_rel(*x.element, *y.element)
            }
        },
        (Node::Socket(x), Node::Socket(y)) => y == (Socket { element: y.element, ..x })
            && floating_rel(*x.element, *y.element, false),
        _ => false,
    }
}

/// The start notification running down a subtree with the floating hint
/// `f`: an animation starts (keeping its clock if already running) and
/// notifies its own wrapped element under its own floating hint, which
/// overrides anything an outer animation set below this point; any other
/// element just takes the floating hint for its subtree.
pub open spec fn start_applied_rel(a: Node, b: Node, f: bool, now: u64) -> bool
    decreases a,
{
    match (a, b) {
        (Node::Animation(x), Node::Animation(y)) => {
            &&& y == (Animation {
                running: true,
                start_time: y.start_time,
                element: y.element,
                ..x
            })
            &&& (!x.running ==> y.start_time == now)
            &&& (x.running ==> y.start_time == x.start_time)
            &&& start_applied_rel(*x.element, *y.element, x.floating, now)
        },
        _ => floating_rel(a, b, f),
    }
}

/// One animation step at clock reading `now`: within the duration the
/// easings are evaluated at the elapsed time and applied; once the
/// duration has elapsed they are evaluated one last time at the duration
/// itself, the animation goes idle, and the baselines are restored
/// exactly. A tick on an animation that is already idle is a no-op: the
/// easings are not evaluated and the wrapped element is untouched.
pub open spec fn run_step_rel(x: Animation, y: Animation, now: u64) -> bool {
    run_step_core(x, *x.element, y, now)
}

/// One animation step, with the wrapped element given separately (so a
/// step can be stated after the element was handed a message first).
pub open spec fn run_step_core(x: Animation, c: Node, y: Animation, now: u64) -> bool {
    if !x.running {
        y == (Animation { element: y.element, ..x }) && *y.element == c
    } else {
        let t: int = if now >= x.start_time {
            now - x.start_time
        } else {
            0
        };
        let live = t < x.duration;
        let te: int = if live {
            t
        } else {
            x.duration as int
        };
        let s = match x.size_animation {
            Some(f) => Some(f.spec_calc(te, x.duration as int)),
            None => None::<(Dim, Dim)>,
        };
        let p = match x.position_animation {
            Some(f) => Some(f.spec_calc(te, x.duration as int)),
            None => None::<(Dim, Dim)>,
        };
        &&& y == (Animation { running: live, element: y.element, ..x })
        &&& if live {
            overrides_rel(c, *y.element, s, p)
        } else {
            exists|mid: Node|
                #![trigger reset_rel(mid, *y.element)]
                overrides_rel(c, mid, s, p) && reset_rel(mid, *y.element)
        }
    }
}

/// Apply the floating hint to a subtree.
pub fn set_floating_node(n: Node, f: bool) -> (r: Node)
    requires
        node_wf(n),
    ensures
        node_wf(r),
        floating_rel(n, r, f),
    decreases n,
{
    match n {
        Node::Empty(x) => Node::Empty(x),
        Node::Plane(x) => Node::Plane(Plane { floating: f, ..x }),
        Node::Text(x) => Node::Text(Text { floating: f, ..x }),
        Node::Button(x) => Node::Button(Button { floating: f, ..x }),
        Node::Layers(x) => Node::Layers(x),
        Node::List(x) => Node::List(x),
        Node::Scroll(x) => Node::Scroll(x),
        Node::Pad(x) => {
            let ghost x0 = x;
            let child = *x.element;
            proof {
                assert(decreases_to!(n => n->Pad_0));
                assert(x0 == n->Pad_0);
                assert(decreases_to!(x0 => x0.element));
                assert(decreases_to!(n => child));
            }
            let child2 = set_floating_node(child, f);
            Node::Pad(Pad { element: Box::new(child2), ..x })
        },
        Node::Animation(x) => {
            let ghost x0 = x;
            let child = *x.element;
            proof {
                assert(decreases_to!(n => n->Animation_0));
                assert(x0 == n->Animation_0);
                assert(decreases_to!(x0 => x0.element));
                assert(decreases_to!(n => child));
            }
            let child2 = set_floating_node(child, f);
            Node::Animation(Animation { element: Box::new(child2), ..x })
        },
        Node::Socket(x) => {
            let ghost x0 = x;
            let child = *x.element;
            proof {
                assert(decreases_to!(n => n->Socket_0));
                assert(x0 == n->Socket_0);
                assert(decreases_to!(x0 => x0.element));
                assert(decreases_to!(n => child));
            }
            let child2 = set_floating_node(child, f);
            Node::Socket(Socket { element: Box::new(child2), ..x })
        },
    }
}

/// Run the start notification down a subtree.
pub fn start_node(n: Node, f: bool, now: u64) -> (r: Node)
    requires
        node_wf(n),
    ensures
        node_wf(r),
        start_applied_rel(n, r, f, now),
    decreases n,
{
    match n {
        Node::Animation(mut x) => {
            let ghost x0 = x;
            if !x.running {
                x.start_time = now;
                x.running = true;
            }
            let child = *x.element;
            proof {
                assert(decreases_to!(n => n->Animation_0));
                assert(x0 == n->Animation_0);
                assert(decreases_to!(x0 => x0.element));
                assert(decreases_to!(n => child));
            }
            let child2 = start_node(child, x.floating, now);
            Node::Animation(Animation { element: Box::new(child2), ..x })
        },
        other => set_floating_node(other, f),
    }
}

/// Restore baselines down a subtree after an animation step completed.
pub fn reset_node(n: Node) -> (r: Node)
    requires
        node_wf(n),
    ensures
        node_wf(r),
        reset_rel(n, r),
    decreases n,
{
    match n {
        Node::Pad(x) => Node::Pad(pad_reset(x)),
        Node::Animation(x) => {
            if x.running {
                Node::Animation(x)
            } else {
                let ghost x0 = x;
                let child = *x.element;
                proof {
                    assert(decreases_to!(n => n->Animation_0));
                    assert(x0 == n->Animation_0);
                    assert(decreases_to!(x0 => x0.element));
                    assert(decreases_to!(n => child));
                }
                let child2 = clear_reset_node(child);
                Node::Animation(Animation { element: Box::new(child2), ..x })
            }
        },
        other => other,
    }
}

/// Clear the floating hint on a subtree and restore its baselines, in one
/// pass: what an idle animation does to its wrapped subtree on a reset.
pub fn clear_reset_node(n: Node) -> (r: Node)
    requires
        node_wf(n),
    ensures
        node_wf(r),
        clear_reset_rel(n, r),
    decreases n,
{
    match n {
        Node::Empty(x) => Node::Empty(x),
        Node::Plane(x) => Node::Plane(Plane { floating: false, ..x }),
        Node::Text(x) => Node::Text(Text { floating: false, ..x }),
        Node::Button(x) => Node::Button(Button { floating: false, ..x }),
        Node::Layers(x) => Node::Layers(x),
        Node::List(x) => Node::List(x),
        Node::Scroll(x) => Node::Scroll(x),
        Node::Pad(x) => {
            let ghost x0 = x;
            let child = *x.element;
            proof {
                assert(decreases_to!(n => n->Pad_0));
                assert(x0 == n->Pad_0);
                assert(decreases_to!(x0 => x0.element));
                assert(decreases_to!(n => child));
            }
            let ghost orig_child = child;
            let mid = set_floating_node(child, false);
            let p2 = pad_reset(Pad { element: Box::new(mid), ..x });
            proof {
                assert(floating_rel(orig_child, mid, false));
                assert(pad_reset_from(x0, mid, p2));
            }
            Node::Pad(p2)
        },
        Node::Animation(x) => {
            let ghost x0 = x;
            let child = *x.element;
            proof {
                assert(decreases_to!(n => n->Animation_0));
                assert(x0 == n->Animation_0);
                assert(decreases_to!(x0 => x0.element));
                assert(decreases_to!(n => child));
            }
            let child2 = if x.running {
                set_floating_node(child, false)
            } else {
                clear_reset_node(child)
            };
            Node::Animation(Animation { element: Box::new(child2), ..x })
        },
        Node::Socket(x) => {
            let ghost x0 = x;
            let child = *x.element;
            proof {
                assert(decreases_to!(n => n->Socket_0));
                assert(x0 == n->Socket_0);
                assert(decreases_to!(x0 => x0.element));
                assert(decreases_to!(n => child));
            }
            let child2 = set_floating_node(child, false);
            Node::Socket(Socket { element: Box::new(child2), ..x })
        },
    }
}

/// The pad size an animation override produces: the baseline target from
/// the original size, plus the eased offsets resolved against it, clamped
/// into the layout range.
pub open spec fn spec_animated_pad_size(p: Pad, xy: (Dim, Dim)) -> PadElementSize {
    let w = spec_cap_extent(p.frame.p1.x - p.frame.p0.x);
    let h = spec_cap_extent(p.frame.p1.y - p.frame.p0.y);
    let base = spec_pad_v(p.original_pad_size, w, h);
    let px = spec_cap_extent(base.0);
    let py = spec_cap_extent(base.1);
    PadElementSize::Positive(
        Dim::Absolute(spec_cap(px + xy.0.spec_resolve(px)) as i64),
        Dim::Absolute(spec_cap(py + xy.1.spec_resolve(py)) as i64),
    )
}

/// Apply a size override to a pad: the new target size is derived from the
/// original baseline (never from the current override, so repeated
/// overrides cannot drift), and the child is placed without the
/// minimum-size limit.
#[verifier::loop_isolation(false)]
fn pad_animate_size(p: Pad, xy: (Dim, Dim)) -> (r: Pad)
    requires
        node_wf(Node::Pad(p)),
        xy.0.wf(),
        xy.1.wf(),
    ensures
        node_wf(Node::Pad(r)),
        pad_size_override_rel(p, r, xy),
{
    let w = cap_extent(p.frame.p1.x - p.frame.p0.x);
    let h = cap_extent(p.frame.p1.y - p.frame.p0.y);
    let (bx, by): (i64, i64) = match p.original_pad_size {
        PadElementSize::Positive(dx, dy) => (dx.resolve(w), dy.resolve(h)),
        PadElementSize::Negative(dx, dy) => (
            match dx {
                Dim::Absolute(a) => w - a,
                Dim::Relative(pm) => crate::arith::scale_pm_i64(w, crate::arith::PM_DEN - pm),
            },
            match dy {
                Dim::Absolute(a) => h - a,
                Dim::Relative(pm) => crate::arith::scale_pm_i64(h, crate::arith::PM_DEN - pm),
            },
        ),
    };
    let px = cap_extent(bx);
    let py = cap_extent(by);
    let new_size = PadElementSize::Positive(
        Dim::Absolute(cap_i64(px + xy.0.resolve(px))),
        Dim::Absolute(cap_i64(py + xy.1.resolve(py))),
    );
    let min = p.element.get_min_size();
    let cf = pad_child_frame(&p.alignment, &new_size, &p.frame, false, min);
    let child = *p.element;
    let child2 = set_frame_node(child, cf, p.global_center);
    proof {
        assert(cf.wf() && set_frame_rel(*p.element, child2, cf, p.global_center));
    }
    Pad { element: Box::new(child2), pad_size: new_size, ..p }
}

/// Apply a position override to a pad: the anchor becomes an offset from
/// the center; the recorded original anchor is untouched.
#[verifier::loop_isolation(false)]
fn pad_animate_position(p: Pad, xy: (Dim, Dim)) -> (r: Pad)
    requires
        node_wf(Node::Pad(p)),
        xy.0.wf(),
        xy.1.wf(),
    ensures
        node_wf(Node::Pad(r)),
        pad_pos_override_rel(p, r, xy),
{
    let al = PadAlignment::XY(xy.0, xy.1);
    let min = p.element.get_min_size();
    let cf = pad_child_frame(&al, &p.pad_size, &p.frame, false, min);
    let child = *p.element;
    let child2 = set_frame_node(child, cf, p.global_center);
    proof {
        assert(cf.wf() && set_frame_rel(*p.element, child2, cf, p.global_center));
    }
    Pad { element: Box::new(child2), alignment: al, ..p }
}

/// Restore a pad to its recorded baseline exactly: the original size and
/// anchor come back bit for bit, and the child is placed from them with
/// the minimum-size limit again.
#[verifier::loop_isolation(false)]
pub fn pad_reset(p: Pad) -> (r: Pad)
    requires
        node_wf(Node::Pad(p)),
    ensures
        node_wf(Node::Pad(r)),
        pad_reset_rel(p, r),
{
    let al = p.original_alignment;
    let ps = p.original_pad_size;
    let min = p.element.get_min_size();
    let cf = pad_child_frame(&al, &ps, &p.frame, true, min);
    let child = *p.element;
    let child2 = set_frame_node(child, cf, p.global_center);
    proof {
        assert(cf.wf() && set_frame_rel(*p.element, child2, cf, p.global_center));
    }
    Pad { element: Box::new(child2), pad_size: ps, alignment: al, ..p }
}

/// Apply eased size and position overrides to the element an animation
/// wraps: a pad takes them, a nested animation forwards them, any other
/// element is untouched.
fn apply_overrides(child: Node, size_xy: Option<(Dim, Dim)>, pos_xy: Option<(Dim, Dim)>) -> (r:
    Node)
    requires
        node_wf(child),
        size_xy is Some ==> (size_xy->0).0.wf() && (size_xy->0).1.wf(),
        pos_xy is Some ==> (pos_xy->0).0.wf() && (pos_xy->0).1.wf(),
    ensures
        node_wf(r),
        overrides_rel(child, r, size_xy, pos_xy),
    decreases child,
{
    match child {
        Node::Pad(p) => {
            let mid = match size_xy {
                Some(xy) => pad_animate_size(p, xy),
                None => p,
            };
            let done = match pos_xy {
                Some(xy) => pad_animate_position(mid, xy),
                None => mid,
            };
            proof {
                assert(match size_xy {
                    Some(xy) => pad_size_override_rel(child->Pad_0, mid, xy),
                    None => mid == child->Pad_0,
                });
            }
            Node::Pad(done)
        },
        Node::Animation(a) => {
            let ghost a0 = a;
            let inner = *a.element;
            proof {
                assert(decreases_to!(child => child->Animation_0));
                assert(a0 == child->Animation_0);
                assert(decreases_to!(a0 => a0.element));
                assert(decreases_to!(child => inner));
            }
            let inner2 = apply_overrides(inner, size_xy, pos_xy);
            Node::Animation(Animation { element: Box::new(inner2), ..a })
        },
        other => other,
    }
}

impl Animation {
    /// Wrap an element; the animation starts idle with a 100 ms duration.
    pub fn new(element: Node) -> (r: Animation)
        ensures
            *r.element == element,
            r.size_animation == None::<SizeAnimation>,
            r.position_animation == None::<PositionAnimation>,
            r.duration == 100,
            r.start_time == 0,
            !r.running,
            !r.floating,
            r.min_size == (Vec2 { x: 0i64, y: 0i64 }),
            r.max_size == (Vec2 { x: i64::MAX, y: i64::MAX }),
            r.widget_id == None::<u64>,
            r.parent == None::<u64>,
            node_wf(element) ==> node_wf(Node::Animation(r)),
    {
        Animation {
            widget_id: None,
            parent: None,
            floating: false,
            element: Box::new(element),
            size_animation: None,
            position_animation: None,
            min_size: Vec2::zero(),
            max_size: unlimited(),
            duration: 100,
            start_time: 0,
            running: false,
        }
    }

    pub fn with_duration(self, duration_ms: u64) -> (r: Animation)
        requires
            duration_ms <= DUR_LIMIT,
        ensures
            r == (Animation { duration: duration_ms, ..self }),
    {
        Animation { duration: duration_ms, ..self }
    }

    pub fn with_size_animation(self, animation: SizeAnimation) -> (r: Animation)
        ensures
            r == (Animation { size_animation: Some(animation), ..self }),
    {
        Animation { size_animation: Some(animation), ..self }
    }

    pub fn with_position_animation(self, animation: PositionAnimation) -> (r: Animation)
        ensures
            r == (Animation { position_animation: Some(animation), ..self }),
    {
        Animation { position_animation: Some(animation), ..self }
    }

    pub fn with_floating(self, floating: bool) -> (r: Animation)
        ensures
            r == (Animation { floating, ..self }),
    {
        Animation { floating, ..self }
    }

    /// Start the animation at the given clock reading, if it is not
    /// already running (a running animation keeps its start time), and
    /// send the start notification down the wrapped subtree: the element
    /// is marked with this animation's floating hint so it can render
    /// above its siblings, and nested animations start too.
    pub fn start_at(&mut self, now_ms: u64)
        requires
            node_wf(Node::Animation(*old(self))),
        ensures
            node_wf(Node::Animation(*final(self))),
            final(self).running,
            !old(self).running ==> final(self).start_time == now_ms,
            old(self).running ==> final(self).start_time == old(self).start_time,
            *final(self) == (Animation {
                running: true,
                start_time: final(self).start_time,
                element: final(self).element,
                ..*old(self)
            }),
            start_applied_rel(*old(self).element, *final(self).element, old(self).floating, now_ms),
    {
        if !self.running {
            self.start_time = now_ms;
            self.running = true;
        }
        let mut child = Node::Empty(Empty::new());
        core::mem::swap(&mut child, &mut *self.element);
        let child2 = start_node(child, self.floating, now_ms);
        *self.element = child2;
    }

    /// One animation step at the given clock reading. While the elapsed
    /// time is within the duration, the easing functions are evaluated at
    /// that time and applied to the wrapped element. Once the duration has
    /// elapsed, they are evaluated one last time at the duration itself,
    /// the animation goes idle, and the baselines are restored exactly. A
    /// tick on an idle animation does nothing at all.
    pub fn run_at(&mut self, now_ms: u64)
        requires
            node_wf(Node::Animation(*old(self))),
        ensures
            node_wf(*final(self).element),
            run_step_rel(*old(self), *final(self), now_ms),
            !old(self).running ==> *final(self) == *old(self),
    {
        if !self.running {
            return ;
        }
        let t_raw = if now_ms >= self.start_time {
            now_ms - self.start_time
        } else {
            0
        };
        let live = self.running && t_raw < self.duration;
        let t = if live {
            t_raw
        } else {
            self.duration
        };
        let size_xy = match &self.size_animation {
            Some(f) => Some(f.calc(t, self.duration)),
            None => None,
        };
        let pos_xy = match &self.position_animation {
            Some(f) => Some(f.calc(t, self.duration)),
            None => None,
        };
        let mut child = Node::Empty(Empty::new());
        core::mem::swap(&mut child, &mut *self.element);
        let child = apply_overrides(child, size_xy, pos_xy);
        let child = if live {
            child
        } else {
            reset_node(child)
        };
        *self.element = child;
        self.running = live;
    }

    /// Start the animation at the clock's current reading.
    pub fn start(&mut self)
        requires
            node_wf(Node::Animation(*old(self))),
        ensures
            node_wf(Node::Animation(*final(self))),
            final(self).running,
            old(self).running ==> final(self).start_time == old(self).start_time,
            *final(self) == (Animation {
                running: true,
                start_time: final(self).start_time,
                element: final(self).element,
                ..*old(self)
            }),
            exists|now: u64|
                start_applied_rel(
                    *old(self).element,
                    *final(self).element,
                    old(self).floating,
                    now,
                ),
    {
        let now = crate::clock::now_ms();
        let ghost before = *self;
        self.start_at(now);
        proof {
            assert(start_applied_rel(*before.element, *self.element, before.floating, now));
        }
    }

    /// One animation step at the clock's current reading. Whatever the
    /// clock returned, some reading relates the old and new state by one
    /// animation step; in particular a step never revives an idle
    /// animation (a tick on an idle one is a no-op), and once the step
    /// leaves the animation idle a wrapped pad stands at its recorded
    /// baseline exactly.
    pub fn run(&mut self)
        requires
            node_wf(Node::Animation(*old(self))),
        ensures
            node_wf(*final(self).element),
            exists|now: u64| run_step_rel(*old(self), *final(self), now),
            final(self).running ==> old(self).running,
            !old(self).running ==> *final(self) == *old(self),
    {
        let now = crate::clock::now_ms();
        let ghost before = *self;
        self.run_at(now);
        proof {
            assert(run_step_rel(before, *self, now));
        }
    }
}

impl Layers {
    /// An empty z-stack.
    pub fn new() -> (r: Layers)
        ensures
            r.layers@ =~= Seq::<Node>::empty(),
            !r.is_setup,
            r.id == None::<u64>,
            r.parent == None::<u64>,
            r.frame == (Frame { p0: Vec2 { x: 0i64, y: 0i64 }, p1: Vec2 { x: 1i64, y: 1i64 } }),
            node_wf(Node::Layers(r)),
    {
        let r = Layers {
            id: None,
            parent: None,
            layers: Vec::new(),
            is_setup: false,
            frame: Frame::new(),
        };
        proof {
            assert(r.layers@.len() == 0);
            assert(seq_wf(r.layers@));
        }
        r
    }

    /// Append a layer on top.
    pub fn push(&mut self, element: Node)
        ensures
            final(self).layers@ == old(self).layers@.push(element),
            !final(self).is_setup,
            *final(self) == (Layers {
                layers: final(self).layers,
                is_setup: false,
                ..*old(self)
            }),
    {
        self.layers.push(element);
        self.is_setup = false;
    }

    /// Insert a layer; an index past the end appends.
    pub fn insert(&mut self, index: usize, element: Node)
        ensures
            final(self).layers@ == old(self).layers@.insert(
                if index < old(self).layers@.len() {
                    index as int
                } else {
                    old(self).layers@.len() as int
                },
                element,
            ),
            !final(self).is_setup,
    {
        if index >= self.layers.len() {
            let ghost n0 = self.layers@.len();
            self.layers.push(element);
            proof {
                assert(self.layers@ =~= old(self).layers@.insert(n0 as int, element));
            }
        } else {
            self.layers.insert(index, element);
        }
        self.is_setup = false;
    }

    /// Remove and return the top layer.
    pub fn pop(&mut self) -> (el: Option<Node>)
        ensures
            old(self).layers@.len() > 0 ==> el == Some(old(self).layers@.last()) && final(self).layers@ == old(self).layers@.drop_last(),
            old(self).layers@.len() == 0 ==> el is None && final(self).layers@ == old(self).layers@,
    {
        self.layers.pop()
    }

    /// Remove and return the layer at `index`.
    pub fn remove(&mut self, index: usize) -> (el: Node)
        requires
            index < old(self).layers@.len(),
        ensures
            el == old(self).layers@[index as int],
            final(self).layers@ == old(self).layers@.remove(index as int),
    {
        self.layers.remove(index)
    }
}

impl List {
    /// An empty list packed along the given axis.
    pub fn new(alignment: ListAlignment) -> (r: List)
        ensures
            r.elements@ =~= Seq::<Node>::empty(),
            r.alignment == alignment,
            !r.is_setup,
            r.id == None::<u64>,
            r.parent == None::<u64>,
            r.ring.elements@ =~= Seq::<crate::ring::RingElement>::empty(),
            r.ring.size == 1,
            r.frame == (Frame { p0: Vec2 { x: 0i64, y: 0i64 }, p1: Vec2 { x: 1i64, y: 1i64 } }),
            r.global_center == (Vec2 { x: 0i64, y: 0i64 }),
            r.min_size == (Vec2 { x: 0i64, y: 0i64 }),
            r.max_size == (Vec2 { x: i64::MAX, y: i64::MAX }),
            node_wf(Node::List(r)),
    {
        let r = List {
            id: None,
            parent: None,
            elements: Vec::new(),
            ring: Ring::new(),
            alignment,
            is_setup: false,
            frame: Frame::new(),
            global_center: Vec2::zero(),
            min_size: Vec2::zero(),
            max_size: unlimited(),
        };
        proof {
            assert(r.elements@.len() == 0);
            assert(seq_wf(r.elements@));
            assert(node_wf(Node::List(r)));
        }
        r
    }

    /// Append a child; it gets a fully flexible ring slot, the ring
    /// redistributes, and every child is re-placed at once.
    pub fn push(&mut self, element: Node)
        requires
            node_wf(Node::List(*old(self))),
            node_wf(element),
            old(self).elements@.len() < crate::ring::SLOTS_LIMIT,
            old(self).ring.elements@.len() < crate::ring::SLOTS_LIMIT,
        ensures
            node_wf(Node::List(*final(self))),
            !final(self).is_setup,
            final(self).id == old(self).id,
            final(self).parent == old(self).parent,
            final(self).alignment == old(self).alignment,
            final(self).min_size == old(self).min_size,
            final(self).max_size == old(self).max_size,
            final(self).frame == old(self).frame,
            final(self).global_center == old(self).global_center,
            list_mutated(
                *old(self),
                *final(self),
                old(self).elements@.push(element),
                old(self).ring.elements@.insert(
                    if old(self).elements@.len() < old(self).ring.elements@.len() {
                        old(self).elements@.len() as int
                    } else {
                        old(self).ring.elements@.len() as int
                    },
                    crate::ring::RingElement::new_spec(),
                ),
            ),
    {
        let n = self.elements.len();
        self.insert(n, element);
        proof {
            assert(old(self).elements@.insert(old(self).elements@.len() as int, element)
                =~= old(self).elements@.push(element));
        }
    }

    /// Insert a child (an index past the end appends) with a fully
    /// flexible ring slot; the ring redistributes and every child is
    /// re-placed at once.
    pub fn insert(&mut self, index: usize, element: Node)
        requires
            node_wf(Node::List(*old(self))),
            node_wf(element),
            old(self).elements@.len() < crate::ring::SLOTS_LIMIT,
            old(self).ring.elements@.len() < crate::ring::SLOTS_LIMIT,
        ensures
            node_wf(Node::List(*final(self))),
            !final(self).is_setup,
            final(self).id == old(self).id,
            final(self).parent == old(self).parent,
            final(self).alignment == old(self).alignment,
            final(self).min_size == old(self).min_size,
            final(self).max_size == old(self).max_size,
            final(self).frame == old(self).frame,
            final(self).global_center == old(self).global_center,
            list_mutated(
                *old(self),
                *final(self),
                old(self).elements@.insert(
                    if index < old(self).elements@.len() {
                        index as int
                    } else {
                        old(self).elements@.len() as int
                    },
                    element,
                ),
                old(self).ring.elements@.insert(
                    if index < old(self).ring.elements@.len() {
                        index as int
                    } else {
                        old(self).ring.elements@.len() as int
                    },
                    crate::ring::RingElement::new_spec(),
                ),
            ),
    {
        if index >= self.elements.len() {
            let ghost n0 = self.elements@.len();
            self.elements.push(element);
            proof {
                assert(self.elements@ =~= old(self).elements@.insert(n0 as int, element));
            }
        } else {
            self.elements.insert(index, element);
        }
        self.ring.insert(index, crate::ring::RingElement::new());
        self.is_setup = false;
        proof {
            let prev = old(self).elements@;
            assert(node_wf(Node::List(*old(self))));
            assert(seq_wf(prev));
            let i = if index < prev.len() {
                index as int
            } else {
                prev.len() as int
            };
            assert forall|j: int| 0 <= j < self.elements@.len() implies node_wf(
                #[trigger] self.elements@[j],
            ) by {
                if j < i {
                    assert(self.elements@[j] == prev[j]);
                    assert(node_wf(prev[j]));
                } else if j == i {
                    assert(self.elements@[j] == element);
                } else {
                    assert(self.elements@[j] == prev[j - 1]);
                    assert(node_wf(prev[j - 1]));
                }
            }
            assert(seq_wf(self.elements@));
            assert(node_wf(Node::List(*self)));
        }
        self.relayout(
            Ghost(
                old(self).ring.elements@.insert(
                    if index < old(self).ring.elements@.len() {
                        index as int
                    } else {
                        old(self).ring.elements@.len() as int
                    },
                    crate::ring::RingElement::new_spec(),
                ),
            ),
            Ghost(old(self).ring.size as int),
        );
    }

    /// Remove and return the last child; its ring slot goes with it, and
    /// the remaining children are re-placed at once.
    pub fn pop(&mut self) -> (el: Option<Node>)
        requires
            node_wf(Node::List(*old(self))),
        ensures
            node_wf(Node::List(*final(self))),
            final(self).id == old(self).id,
            final(self).parent == old(self).parent,
            final(self).alignment == old(self).alignment,
            final(self).min_size == old(self).min_size,
            final(self).max_size == old(self).max_size,
            final(self).frame == old(self).frame,
            final(self).global_center == old(self).global_center,
            old(self).elements@.len() > 0 ==> el == Some(old(self).elements@.last()),
            old(self).elements@.len() == 0 ==> el is None,
            list_mutated(
                *old(self),
                *final(self),
                if old(self).elements@.len() > 0 {
                    old(self).elements@.drop_last()
                } else {
                    old(self).elements@
                },
                if old(self).ring.elements@.len() > 0 {
                    old(self).ring.elements@.drop_last()
                } else {
                    old(self).ring.elements@
                },
            ),
    {
        let el = self.elements.pop();
        let _ = self.ring.pop();
        proof {
            assert(node_wf(Node::List(*old(self))));
            assert(seq_wf(old(self).elements@));
            assert forall|j: int| 0 <= j < self.elements@.len() implies node_wf(
                #[trigger] self.elements@[j],
            ) by {
                assert(self.elements@[j] == old(self).elements@[j]);
                assert(node_wf(old(self).elements@[j]));
            }
            assert(seq_wf(self.elements@));
            assert(node_wf(Node::List(*self)));
        }
        self.relayout(
            Ghost(
                if old(self).ring.elements@.len() > 0 {
                    old(self).ring.elements@.drop_last()
                } else {
                    old(self).ring.elements@
                },
            ),
            Ghost(old(self).ring.size as int),
        );
        el
    }

    /// Remove and return the child at `index`; its ring slot goes with
    /// it, and the remaining children are re-placed at once.
    pub fn remove(&mut self, index: usize) -> (el: Node)
        requires
            node_wf(Node::List(*old(self))),
            index < old(self).elements@.len(),
            index < old(self).ring.elements@.len(),
        ensures
            node_wf(Node::List(*final(self))),
            final(self).id == old(self).id,
            final(self).parent == old(self).parent,
            final(self).alignment == old(self).alignment,
            final(self).min_size == old(self).min_size,
            final(self).max_size == old(self).max_size,
            final(self).frame == old(self).frame,
            final(self).global_center == old(self).global_center,
            el == old(self).elements@[index as int],
            list_mutated(
                *old(self),
                *final(self),
                old(self).elements@.remove(index as int),
                old(self).ring.elements@.remove(index as int),
            ),
    {
        let el = self.elements.remove(index);
        let _ = self.ring.remove(index);
        proof {
            let prev = old(self).elements@;
            assert(node_wf(Node::List(*old(self))));
            assert(seq_wf(prev));
            assert forall|j: int| 0 <= j < self.elements@.len() implies node_wf(
                #[trigger] self.elements@[j],
            ) by {
                if j < index {
                    assert(self.elements@[j] == prev[j]);
                    assert(node_wf(prev[j]));
                } else {
                    assert(self.elements@[j] == prev[j + 1]);
                    assert(node_wf(prev[j + 1]));
                }
            }
            assert(seq_wf(self.elements@));
            assert(node_wf(Node::List(*self)));
        }
        self.relayout(Ghost(old(self).ring.elements@.remove(index as int)), Ghost(old(self).ring.size as int));
        el
    }

    /// Re-place every child against the current frame; `slots` and
    /// `size0` describe the slot constraints the ring was last rescaled
    /// from, so the outcome can be stated against them directly.
    fn relayout(&mut self, Ghost(slots): Ghost<Seq<crate::ring::RingElement>>, Ghost(size0): Ghost<int>)
        requires
            node_wf(Node::List(*old(self))),
            crate::ring::slots_wf(slots),
            0 <= size0 <= COORD_LIMIT,
            old(self).ring.rescaled(slots),
            size0 == old(self).ring.size,
        ensures
            node_wf(Node::List(*final(self))),
            final(self).id == old(self).id,
            final(self).parent == old(self).parent,
            final(self).is_setup == old(self).is_setup,
            final(self).alignment == old(self).alignment,
            final(self).min_size == old(self).min_size,
            final(self).max_size == old(self).max_size,
            final(self).frame == old(self).frame,
            final(self).global_center == old(self).global_center,
            list_mutated(*old(self), *final(self), old(self).elements@, slots),
    {
        let mut staged = List::new(ListAlignment::Horizontal);
        core::mem::swap(self, &mut staged);
        let ghost mid = staged;
        let done = relayout_list(staged);
        *self = done;
        proof {
            let horizontal = mid.alignment == ListAlignment::Horizontal;
            let len = spec_cap_extent(
                if horizontal {
                    mid.frame.p1.x - mid.frame.p0.x
                } else {
                    mid.frame.p1.y - mid.frame.p0.y
                },
            );
            crate::ring::lemma_rescale_props(slots, size0);
            crate::ring::lemma_rescale_constraints_only(
                crate::ring::spec_rescale(slots, size0).0,
                slots,
                len,
            );
        }
    }
}


/// The outcome of a scroll mutation: against the current frame, scroll
/// state and the new child sequence's minimums, the scrollbar thumb is
/// placed and every child sits at its band.
pub open spec fn scroll_mutated(before: Scroll, after: Scroll, kids: Seq<Node>) -> bool {
    let horizontal = before.alignment == ScrollAlignment::Horizontal;
    let s_axis = spec_cap_extent(
        if horizontal {
            before.frame.p1.x - before.frame.p0.x
        } else {
            before.frame.p1.y - before.frame.p0.y
        },
    );
    let agg = spec_axis_min(kids, horizontal, 0);
    let m = spec_cap_extent(
        if horizontal {
            agg.0
        } else {
            agg.1
        },
    );
    let st = spec_scroll_state(s_axis, m, before.scroll_pos as int, before.scroll_pending as int);
    let bar_shift = if m < s_axis {
        0int
    } else {
        before.scroll_bar_width as int
    };
    &&& after.elements@.len() == kids.len()
    &&& after.scroll_bar == crate::basic::spec_button_with_frame(
        before.scroll_bar,
        spec_scroll_bar_frame(
            before.frame,
            horizontal,
            st.0,
            st.1,
            before.scroll_bar_width as int,
        ),
        before.global_center,
    )
    &&& forall|j: int|
        0 <= j < kids.len() ==> set_frame_rel(
            #[trigger] kids[j],
            after.elements@[j],
            spec_scroll_band(kids, before.frame, horizontal, st.2, bar_shift, j),
            before.global_center,
        )
}

impl Scroll {
    /// An empty scrolled strip with a light-blue scrollbar button that
    /// emits under the given id.
    pub fn new(alignment: ScrollAlignment, id: String) -> (r: Scroll)
        ensures
            r.elements@ =~= Seq::<Node>::empty(),
            r.alignment == alignment,
            !r.drag_active,
            r.scroll_pos == 0,
            r.scroll_pending == 0,
            r.scroll_bar_width == 15,
            !r.is_setup,
            r.id == id,
            r.scroll_bar.id == id,
            r.scroll_bar.plane.graphic is Color,
            node_wf(Node::Scroll(r)),
    {
        let bar_id = id.clone();
        let mut bar = Button::new();
        bar.plane = Plane::new(Graphic::Color(Color::light_blue()));
        bar.id = bar_id;
        let r = Scroll {
            id,
            widget_id: None,
            parent: None,
            elements: Vec::new(),
            alignment,
            scroll_bar: bar,
            scroll_bar_width: 15,
            scroll_pos: 0,
            scroll_pending: 0,
            drag_active: false,
            is_setup: false,
            frame: Frame::new(),
            global_center: Vec2::zero(),
            min_size: Vec2::zero(),
            max_size: unlimited(),
        };
        proof {
            assert(r.elements@.len() == 0);
            assert(seq_wf(r.elements@));
        }
        r
    }

    /// An empty scrolled strip whose scrollbar thumb is the given button,
    /// re-labelled to emit under the strip's id.
    pub fn new_with_button(id: String, scrollbar_button: Button, alignment: ScrollAlignment) -> (r:
        Scroll)
        requires
            node_wf(Node::Button(scrollbar_button)),
        ensures
            r.elements@ =~= Seq::<Node>::empty(),
            r.alignment == alignment,
            !r.drag_active,
            r.scroll_pos == 0,
            r.scroll_pending == 0,
            r.scroll_bar_width == 15,
            !r.is_setup,
            r.id == id,
            r.scroll_bar == (Button { id: r.scroll_bar.id, ..scrollbar_button }),
            r.scroll_bar.id == id,
            node_wf(Node::Scroll(r)),
    {
        let bar_id = id.clone();
        let mut bar = scrollbar_button;
        bar.id = bar_id;
        let r = Scroll {
            id,
            widget_id: None,
            parent: None,
            elements: Vec::new(),
            alignment,
            scroll_bar: bar,
            scroll_bar_width: 15,
            scroll_pos: 0,
            scroll_pending: 0,
            drag_active: false,
            is_setup: false,
            frame: Frame::new(),
            global_center: Vec2::zero(),
            min_size: Vec2::zero(),
            max_size: unlimited(),
        };
        proof {
            assert(r.elements@.len() == 0);
            assert(seq_wf(r.elements@));
        }
        r
    }

    /// Append a child and re-place everything at once.
    pub fn push(&mut self, element: Node)
        requires
            node_wf(Node::Scroll(*old(self))),
            node_wf(element),
            old(self).elements@.len() < crate::ring::SLOTS_LIMIT,
        ensures
            node_wf(Node::Scroll(*final(self))),
            !final(self).is_setup,
            scroll_scalars_eq(*old(self), *final(self)),
            scroll_mutated(*old(self), *final(self), old(self).elements@.push(element)),
    {
        let n = self.elements.len();
        self.insert(n, element);
        proof {
            assert(old(self).elements@.insert(old(self).elements@.len() as int, element)
                =~= old(self).elements@.push(element));
        }
    }

    /// Insert a child (an index past the end appends) and re-place
    /// everything at once.
    pub fn insert(&mut self, index: usize, element: Node)
        requires
            node_wf(Node::Scroll(*old(self))),
            node_wf(element),
            old(self).elements@.len() < crate::ring::SLOTS_LIMIT,
        ensures
            node_wf(Node::Scroll(*final(self))),
            !final(self).is_setup,
            scroll_scalars_eq(*old(self), *final(self)),
            scroll_mutated(
                *old(self),
                *final(self),
                old(self).elements@.insert(
                    if index < old(self).elements@.len() {
                        index as int
                    } else {
                        old(self).elements@.len() as int
                    },
                    element,
                ),
            ),
    {
        if index >= self.elements.len() {
            let ghost n0 = self.elements@.len();
            self.elements.push(element);
            proof {
                assert(self.elements@ =~= old(self).elements@.insert(n0 as int, element));
            }
        } else {
            self.elements.insert(index, element);
        }
        self.is_setup = false;
        proof {
            let prev = old(self).elements@;
            assert(node_wf(Node::Scroll(*old(self))));
            assert(seq_wf(prev));
            let i = if index < prev.len() {
                index as int
            } else {
                prev.len() as int
            };
            assert forall|j: int| 0 <= j < self.elements@.len() implies node_wf(
                #[trigger] self.elements@[j],
            ) by {
                if j < i {
                    assert(self.elements@[j] == prev[j]);
                    assert(node_wf(prev[j]));
                } else if j == i {
                    assert(self.elements@[j] == element);
                } else {
                    assert(self.elements@[j] == prev[j - 1]);
                    assert(node_wf(prev[j - 1]));
                }
            }
            assert(seq_wf(self.elements@));
            assert(node_wf(Node::Scroll(*self)));
        }
        self.relayout();
    }

    /// Remove and return the last child; the rest is re-placed at once.
    pub fn pop(&mut self) -> (el: Option<Node>)
        requires
            node_wf(Node::Scroll(*old(self))),
        ensures
            node_wf(Node::Scroll(*final(self))),
            scroll_scalars_eq(*old(self), *final(self)),
            final(self).is_setup == old(self).is_setup,
            old(self).elements@.len() > 0 ==> el == Some(old(self).elements@.last()),
            old(self).elements@.len() == 0 ==> el is None,
            scroll_mutated(
                *old(self),
                *final(self),
                if old(self).elements@.len() > 0 {
                    old(self).elements@.drop_last()
                } else {
                    old(self).elements@
                },
            ),
    {
        let el = self.elements.pop();
        proof {
            assert(node_wf(Node::Scroll(*old(self))));
            assert(seq_wf(old(self).elements@));
            assert forall|j: int| 0 <= j < self.elements@.len() implies node_wf(
                #[trigger] self.elements@[j],
            ) by {
                assert(self.elements@[j] == old(self).elements@[j]);
                assert(node_wf(old(self).elements@[j]));
            }
            assert(seq_wf(self.elements@));
            assert(node_wf(Node::Scroll(*self)));
        }
        self.relayout();
        el
    }

    /// Remove and return the child at `index`; the rest is re-placed at
    /// once.
    pub fn remove(&mut self, index: usize) -> (el: Node)
        requires
            node_wf(Node::Scroll(*old(self))),
            index < old(self).elements@.len(),
        ensures
            node_wf(Node::Scroll(*final(self))),
            scroll_scalars_eq(*old(self), *final(self)),
            final(self).is_setup == old(self).is_setup,
            el == old(self).elements@[index as int],
            scroll_mutated(*old(self), *final(self), old(self).elements@.remove(index as int)),
    {
        let el = self.elements.remove(index);
        proof {
            let prev = old(self).elements@;
            assert(node_wf(Node::Scroll(*old(self))));
            assert(seq_wf(prev));
            assert forall|j: int| 0 <= j < self.elements@.len() implies node_wf(
                #[trigger] self.elements@[j],
            ) by {
                if j < index {
                    assert(self.elements@[j] == prev[j]);
                    assert(node_wf(prev[j]));
                } else {
                    assert(self.elements@[j] == prev[j + 1]);
                    assert(node_wf(prev[j + 1]));
                }
            }
            assert(seq_wf(self.elements@));
            assert(node_wf(Node::Scroll(*self)));
        }
        self.relayout();
        el
    }

    /// Re-place the scrollbar and every child against the current frame.
    fn relayout(&mut self)
        requires
            node_wf(Node::Scroll(*old(self))),
        ensures
            node_wf(Node::Scroll(*final(self))),
            scroll_scalars_eq(*old(self), *final(self)),
            final(self).is_setup == old(self).is_setup,
            scroll_mutated(*old(self), *final(self), old(self).elements@),
    {
        let mut staged = Scroll::new(ScrollAlignment::Vertical, String::new());
        core::mem::swap(self, &mut staged);
        let done = relayout_scroll(staged);
        *self = done;
    }
}

/// The scalar state of a scrolled strip is untouched by a mutation.
pub open spec fn scroll_scalars_eq(a: Scroll, b: Scroll) -> bool {
    &&& b.id == a.id
    &&& b.widget_id == a.widget_id
    &&& b.parent == a.parent
    &&& b.alignment == a.alignment
    &&& b.scroll_bar_width == a.scroll_bar_width
    &&& b.scroll_pos == a.scroll_pos
    &&& b.scroll_pending == a.scroll_pending
    &&& b.drag_active == a.drag_active
    &&& b.min_size == a.min_size
    &&& b.max_size == a.max_size
    &&& b.frame == a.frame
    &&& b.global_center == a.global_center
}

impl Pad {
    /// Wrap one element at a target size and anchor inside the frame.
    pub fn new(element: Node, alignment: PadAlignment, size: PadElementSize) -> (r: Pad)
        requires
            node_wf(element),
            pad_size_wf(size),
            pad_alignment_wf(alignment),
        ensures
            *r.element == element,
            r.alignment == alignment,
            r.pad_size == size,
            r.original_pad_size == size,
            r.original_alignment == alignment,
            !r.is_setup,
            node_wf(Node::Pad(r)),
    {
        Pad {
            widget_id: None,
            parent: None,
            element: Box::new(element),
            pad_size: size,
            alignment,
            is_setup: false,
            frame: Frame::new(),
            global_center: Vec2::zero(),
            min_size: Vec2::zero(),
            max_size: unlimited(),
            original_pad_size: size,
            original_alignment: alignment,
        }
    }

    /// Change the lower bound this pad negotiates for.
    pub fn set_min_size(&mut self, size: Vec2)
        ensures
            *final(self) == (Pad { min_size: size, ..*old(self) }),
    {
        self.min_size = size;
    }
}

impl Socket {
    /// Wrap an element with an empty handler registry.
    pub fn new(element: Node) -> (r: Socket)
        requires
            node_wf(element),
        ensures
            *r.element == element,
            r.rules@ =~= Seq::<HandlerRule>::empty(),
            node_wf(Node::Socket(r)),
    {
        Socket {
            widget_id: None,
            parent: None,
            min_size: Vec2::zero(),
            max_size: unlimited(),
            is_setup: false,
            element: Box::new(element),
            rules: Vec::new(),
        }
    }

    /// Add one handler rule.
    pub fn with_rule(self, rule: HandlerRule) -> (r: Socket)
        ensures
            r.rules@ == self.rules@.push(rule),
            r.element == self.element,
    {
        let mut s = self;
        s.rules.push(rule);
        s
    }
}

/// What changing the lower size bound does: elements that negotiate store
/// it, a z-stack ignores it (its bounds come from its children alone).
pub open spec fn min_size_set_rel(a: Node, b: Node, v: Vec2) -> bool {
    match (a, b) {
        (Node::Empty(x), Node::Empty(y)) => y == (Empty { min_size: v, ..x }),
        (Node::Plane(x), Node::Plane(y)) => y == (Plane { min_size: v, ..x }),
        (Node::Text(x), Node::Text(y)) => y == (Text { min_size: v, ..x }),
        (Node::Button(x), Node::Button(y)) => y == (Button { min_size: v, ..x }),
        (Node::Layers(x), Node::Layers(y)) => y == x,
        (Node::List(x), Node::List(y)) => y == (List { min_size: v, ..x }),
        (Node::Scroll(x), Node::Scroll(y)) => y == (Scroll { min_size: v, ..x }),
        (Node::Pad(x), Node::Pad(y)) => y == (Pad { min_size: v, ..x }),
        (Node::Animation(x), Node::Animation(y)) => y == (Animation { min_size: v, ..x }),
        (Node::Socket(x), Node::Socket(y)) => y == (Socket { min_size: v, ..x }),
        _ => false,
    }
}

/// What changing the upper size bound does.
pub open spec fn max_size_set_rel(a: Node, b: Node, v: Vec2) -> bool {
    match (a, b) {
        (Node::Empty(x), Node::Empty(y)) => y == (Empty { max_size: v, ..x }),
        (Node::Plane(x), Node::Plane(y)) => y == (Plane { max_size: v, ..x }),
        (Node::Text(x), Node::Text(y)) => y == (Text { max_size: v, ..x }),
        (Node::Button(x), Node::Button(y)) => y == (Button { max_size: v, ..x }),
        (Node::Layers(x), Node::Layers(y)) => y == x,
        (Node::List(x), Node::List(y)) => y == (List { max_size: v, ..x }),
        (Node::Scroll(x), Node::Scroll(y)) => y == (Scroll { max_size: v, ..x }),
        (Node::Pad(x), Node::Pad(y)) => y == (Pad { max_size: v, ..x }),
        (Node::Animation(x), Node::Animation(y)) => y == (Animation { max_size: v, ..x }),
        (Node::Socket(x), Node::Socket(y)) => y == (Socket { max_size: v, ..x }),
        _ => false,
    }
}

impl Node {
    /// Set the lower bound this node negotiates for.
    pub fn set_min_size(&mut self, v: Vec2)
        requires
            node_wf(*old(self)),
            size_wf(v),
        ensures
            node_wf(*final(self)),
            min_size_set_rel(*old(self), *final(self), v),
    {
        match self {
            Node::Empty(x) => x.min_size = v,
            Node::Plane(x) => x.min_size = v,
            Node::Text(x) => x.min_size = v,
            Node::Button(x) => x.min_size = v,
            Node::Layers(_) => {},
            Node::List(x) => x.min_size = v,
            Node::Scroll(x) => x.min_size = v,
            Node::Pad(x) => x.min_size = v,
            Node::Animation(x) => x.min_size = v,
            Node::Socket(x) => x.min_size = v,
        }
    }

    /// Set the upper bound this node accepts.
    pub fn set_max_size(&mut self, v: Vec2)
        requires
            node_wf(*old(self)),
            size_wf(v),
        ensures
            node_wf(*final(self)),
            max_size_set_rel(*old(self), *final(self), v),
    {
        match self {
            Node::Empty(x) => x.max_size = v,
            Node::Plane(x) => x.max_size = v,
            Node::Text(x) => x.max_size = v,
            Node::Button(x) => x.max_size = v,
            Node::Layers(_) => {},
            Node::List(x) => x.max_size = v,
            Node::Scroll(x) => x.max_size = v,
            Node::Pad(x) => x.max_size = v,
            Node::Animation(x) => x.max_size = v,
            Node::Socket(x) => x.max_size = v,
        }
    }
}

} // verus!
