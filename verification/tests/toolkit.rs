use sabi::ring::{Ring, RingElement, RingElementSize};
use sabi::geometry::{Dim, Frame, Vec2};
use sabi::shared::{Color, Font, Texture, TextureMode};
use sabi::action::{ActionMsg, ActionMsgData, MsgKind, kind_of};
use sabi::basic::{Button, Empty, Plane, Text};
use sabi::shared::Graphic;
use sabi::node::{Animation, List, ListAlignment, Node, Pad, PadAlignment, PadElementSize, Layers, Scroll, ScrollAlignment, Socket, SocketAction, HandlerRule};
use sabi::animation::SizeAnimation;
use sabi::render::{IdGen, ImageInfo, WindowRessources};
use sabi::arith::{sat_add_i64, tdiv_i64};

fn slot(min: RingElementSize, max: RingElementSize) -> RingElement {
    RingElement::new_with_min_max(min, max)
}

#[test]
fn ring_three_equal_slots() {
    // Three slots with minimum 50 and no effective maximum in a ring of
    // length 300 resolve to 100 each.
    let mut r = Ring::new_with_size(300);
    for _ in 0..3 {
        r.push(slot(
            RingElementSize::Absolute(50),
            RingElementSize::Relative(1000),
        ));
    }
    assert_eq!(r.get(0), 100);
    assert_eq!(r.get(1), 100);
    assert_eq!(r.get(2), 100);
    assert_eq!(r.get_sum(0), 0);
    assert_eq!(r.get_sum(1), 100);
    assert_eq!(r.get_sum(2), 200);
    assert_eq!(r.get_sum(3), 300);
}

#[test]
fn ring_capped_slot_overflows_to_sibling() {
    // Two slots with minimum 0; the first is capped at 30, so in a ring of
    // length 100 the remainder flows to the second slot.
    let mut r = Ring::new_with_size(100);
    r.push(slot(
        RingElementSize::Absolute(0),
        RingElementSize::Absolute(30),
    ));
    r.push(slot(
        RingElementSize::Absolute(0),
        RingElementSize::Relative(1000),
    ));
    assert_eq!(r.get(0), 30);
    assert_eq!(r.get(1), 70);
    assert_eq!(r.get_sum(2), 100);
}

#[test]
fn ring_rescale_redundant_call_changes_nothing() {
    let mut r = Ring::new_with_size(250);
    r.push(slot(
        RingElementSize::Absolute(40),
        RingElementSize::Absolute(90),
    ));
    r.push(slot(
        RingElementSize::Relative(100),
        RingElementSize::Relative(1000),
    ));
    let a0 = r.get(0);
    let a1 = r.get(1);
    r.rescale_elements();
    assert_eq!(r.get(0), a0);
    assert_eq!(r.get(1), a1);
    r.rescale_elements();
    assert_eq!(r.get(0), a0);
    assert_eq!(r.get(1), a1);
}

#[test]
fn ring_over_constrained_degrades_without_panicking() {
    // The minimums alone exceed the ring length: every slot stays at its
    // over-budget minimum and the buffer stays empty.
    let mut r = Ring::new_with_size(10);
    r.push(slot(
        RingElementSize::Absolute(20),
        RingElementSize::Absolute(1000),
    ));
    r.push(slot(
        RingElementSize::Absolute(25),
        RingElementSize::Absolute(1000),
    ));
    assert_eq!(r.get(0), 20);
    assert_eq!(r.get(1), 25);
    assert_eq!(r.get_sum(2), 45);
}

#[test]
fn ring_contradictory_constraints_pin_at_max() {
    // A minimum above the maximum is clamped down: the maximum wins.
    let mut r = Ring::new_with_size(100);
    r.push(slot(
        RingElementSize::Absolute(80),
        RingElementSize::Absolute(30),
    ));
    assert_eq!(r.get(0), 30);
}

#[test]
fn ring_insert_remove_resize() {
    let mut r = Ring::new_with_size(120);
    r.push(slot(
        RingElementSize::Absolute(0),
        RingElementSize::Relative(1000),
    ));
    r.insert(
        0,
        slot(RingElementSize::Absolute(0), RingElementSize::Absolute(20)),
    );
    assert_eq!(r.get(0), 20);
    assert_eq!(r.get(1), 100);
    let removed = r.remove(0);
    assert_eq!(removed.get_max(120), 20);
    assert_eq!(r.get(0), 120);
    r.resize(60);
    assert_eq!(r.get(0), 60);
    let popped = r.pop();
    assert!(popped.is_some());
    assert_eq!(r.get_sum(5), 0);
}

#[test]
fn list_vertical_three_children_fill_frame() {
    // Three equal children in a 900 px tall frame: each gets 300 px,
    // contiguous, covering the frame exactly.
    let mut list = List::new(ListAlignment::Vertical);
    for _ in 0..3 {
        list.push(Node::Empty(Empty::new()));
    }
    let mut node = Node::List(list);
    node.set_frame(Frame::new_with_size(600, 900), Vec2::zero());
    match &node {
        Node::List(l) => {
            let f0 = l.elements[0].get_frame();
            let f1 = l.elements[1].get_frame();
            let f2 = l.elements[2].get_frame();
            // children are stacked top-down: the first child gets the top band
            assert_eq!((f0.p0.y, f0.p1.y), (600, 900));
            assert_eq!((f1.p0.y, f1.p1.y), (300, 600));
            assert_eq!((f2.p0.y, f2.p1.y), (0, 300));
            for f in [f0, f1, f2] {
                assert_eq!(f.p0.x, 0);
                assert_eq!(f.p1.x, 600);
            }
        }
        _ => panic!("node kept its variant"),
    }
}

#[test]
fn pad_center_alignment_places_child_mid_frame() {
    let pad = Pad::new(
        Node::Empty(Empty::new()),
        PadAlignment::Center,
        PadElementSize::Positive(Dim::Absolute(100), Dim::Absolute(50)),
    );
    let mut node = Node::Pad(pad);
    node.set_frame(Frame::new_with_size(300, 300), Vec2::zero());
    let child_frame = match &node {
        Node::Pad(p) => p.element.get_frame(),
        _ => panic!("node kept its variant"),
    };
    assert_eq!(child_frame.p0, Vec2 { x: 100, y: 125 });
    assert_eq!(child_frame.p1, Vec2 { x: 200, y: 175 });
}

#[test]
fn pad_negative_size_leaves_margin() {
    let pad = Pad::new(
        Node::Empty(Empty::new()),
        PadAlignment::BottomLeft,
        PadElementSize::Negative(Dim::Absolute(25), Dim::Absolute(25)),
    );
    let mut node = Node::Pad(pad);
    node.set_frame(Frame::new_with_size(200, 100), Vec2::zero());
    let child_frame = match &node {
        Node::Pad(p) => p.element.get_frame(),
        _ => panic!("node kept its variant"),
    };
    assert_eq!(child_frame.p0, Vec2 { x: 0, y: 0 });
    assert_eq!(child_frame.p1, Vec2 { x: 175, y: 75 });
}

#[test]
fn button_press_and_release_emit_click() {
    let mut b = Button::new().with_id(String::from("ok"));
    b.set_frame(Frame::new_with_size(100, 100), Vec2::zero());
    let mut outbox: Vec<ActionMsg> = Vec::new();
    let press = ActionMsg {
        sender_id: String::from("window"),
        msg: ActionMsgData::MousePressLeft(50, 50),
    };
    let fwd = b.transmit_msg(press, false, &mut outbox);
    assert!(b.is_click);
    assert_eq!(outbox.len(), 1);
    assert_eq!(outbox[0].sender_id, "ok");
    assert_eq!(outbox[0].msg, ActionMsgData::Press);
    // a used-up pointer event turns into MouseGone for later siblings
    match fwd {
        Some(m) => assert_eq!(m.msg, ActionMsgData::MouseGone),
        None => panic!("the message is forwarded in transformed form"),
    }
    let release = ActionMsg {
        sender_id: String::from("window"),
        msg: ActionMsgData::MouseReleaseLeft(50, 50),
    };
    let _ = b.transmit_msg(release, false, &mut outbox);
    assert!(!b.is_click);
    assert_eq!(outbox.len(), 3);
    assert_eq!(outbox[1].msg, ActionMsgData::Click);
    assert_eq!(outbox[2].msg, ActionMsgData::Release);
}

#[test]
fn button_press_outside_is_ignored() {
    let mut b = Button::new().with_id(String::from("no"));
    b.set_frame(Frame::new_with_size(10, 10), Vec2::zero());
    let mut outbox: Vec<ActionMsg> = Vec::new();
    let press = ActionMsg {
        sender_id: String::from("window"),
        msg: ActionMsgData::MousePressLeft(50, 50),
    };
    let fwd = b.transmit_msg(press, false, &mut outbox);
    assert!(!b.is_click);
    assert!(outbox.is_empty());
    match fwd {
        Some(m) => assert_eq!(m.msg, ActionMsgData::MousePressLeft(50, 50)),
        None => panic!("an unused message is forwarded unchanged"),
    }
}

#[test]
fn animation_ticks_and_resets_exactly() {
    // duration 500: evaluated at t = 0 (baseline), 250 (mid), 500 (clamped,
    // triggers reset), 600 (no-op, already idle).
    let pad = Pad::new(
        Node::Empty(Empty::new()),
        PadAlignment::Center,
        PadElementSize::Positive(Dim::Absolute(200), Dim::Absolute(200)),
    );
    let built = Animation::new(Node::Pad(pad))
        .with_duration(500)
        .with_size_animation(SizeAnimation::Pulse {
            x: Dim::Relative(500),
            y: Dim::Relative(500),
        });
    let mut holder = Node::Animation(built);
    // place the tree so the pad has a baseline frame
    holder.set_frame(Frame::new_with_size(400, 400), Vec2::zero());
    let mut a = match holder {
        Node::Animation(inner) => inner,
        _ => panic!("node kept its variant"),
    };
    a.start_at(1000);
    assert!(a.running);
    assert_eq!(a.start_time, 1000);

    a.run_at(1000); // t = 0: pulse factor 0, baseline size
    assert!(a.running);
    match &*a.element {
        Node::Pad(p) => assert_eq!(
            p.pad_size,
            PadElementSize::Positive(Dim::Absolute(200), Dim::Absolute(200))
        ),
        _ => panic!("pad stays a pad"),
    }

    a.run_at(1250); // t = 250: pulse peak, half again as large
    assert!(a.running);
    match &*a.element {
        Node::Pad(p) => assert_eq!(
            p.pad_size,
            PadElementSize::Positive(Dim::Absolute(300), Dim::Absolute(300))
        ),
        _ => panic!("pad stays a pad"),
    }

    a.run_at(1500); // t = 500: clamped at the duration, reset to baseline
    assert!(!a.running);
    match &*a.element {
        Node::Pad(p) => {
            assert_eq!(p.pad_size, p.original_pad_size);
            assert_eq!(
                p.pad_size,
                PadElementSize::Positive(Dim::Absolute(200), Dim::Absolute(200))
            );
        }
        _ => panic!("pad stays a pad"),
    }

    a.run_at(1600); // t = 600: already idle, geometry stays at the baseline
    assert!(!a.running);
    match &*a.element {
        Node::Pad(p) => assert_eq!(p.pad_size, p.original_pad_size),
        _ => panic!("pad stays a pad"),
    }
}

#[test]
fn animation_clock_start_marks_running() {
    let pad = Pad::new(
        Node::Empty(Empty::new()),
        PadAlignment::Center,
        PadElementSize::Positive(Dim::Absolute(10), Dim::Absolute(10)),
    );
    let mut a = Animation::new(Node::Pad(pad)).with_duration(1048576);
    a.start();
    assert!(a.running);
    a.run();
}

#[test]
fn texture_cut_fits_height() {
    let t = Texture::new(String::from("img")).with_mode(TextureMode::FitHeight);
    let cut = t.get_cut(100, 50, 200, 100);
    assert_eq!(cut.p0, Vec2 { x: 0, y: 0 });
    assert_eq!(cut.p1, Vec2 { x: 400, y: 100 });
}

#[test]
fn texture_cut_stretch_takes_whole_image() {
    let t = Texture::new(String::from("img"));
    let cut = t.get_cut(30, 40, 200, 100);
    assert_eq!(cut.p1, Vec2 { x: 200, y: 100 });
}

#[test]
fn resource_table_lookup() {
    let mut res = WindowRessources::new();
    res.add_font(String::from("serif"), 7);
    res.add_image(
        String::from("logo"),
        ImageInfo {
            w: 64,
            h: 32,
            id: 3,
        },
    );
    assert_eq!(res.font(&String::from("serif")), Some(7));
    assert_eq!(res.font(&String::from("sans")), None);
    let img = res.image(&String::from("logo")).unwrap();
    assert_eq!((img.w, img.h, img.id), (64, 32, 3));
    // a name added again shadows the old entry
    res.add_font(String::from("serif"), 9);
    assert_eq!(res.font(&String::from("serif")), Some(9));
}

#[test]
fn layers_aggregate_min_sizes() {
    let mut layers = Layers::new();
    let mut a = Empty::new();
    a.min_size = Vec2 { x: 50, y: 10 };
    let mut b = Empty::new();
    b.min_size = Vec2 { x: 20, y: 80 };
    layers.push(Node::Empty(a));
    layers.push(Node::Empty(b));
    let node = Node::Layers(layers);
    let min = node.get_min_size();
    assert_eq!(min, Vec2 { x: 50, y: 80 });
}

#[test]
fn list_horizontal_sums_min_sizes() {
    let mut list = List::new(ListAlignment::Horizontal);
    let mut a = Empty::new();
    a.min_size = Vec2 { x: 50, y: 10 };
    let mut b = Empty::new();
    b.min_size = Vec2 { x: 20, y: 80 };
    list.push(Node::Empty(a));
    list.push(Node::Empty(b));
    let node = Node::List(list);
    let min = node.get_min_size();
    assert_eq!(min, Vec2 { x: 70, y: 80 });
}

#[test]
fn frame_geometry() {
    let f = Frame::new_with_size(40, 30);
    assert_eq!(f.width(), 40);
    assert_eq!(f.height(), 30);
    assert_eq!(f.max_dim(), 40);
    assert_eq!(f.min_dim(), 30);
    assert_eq!(f.center(), Vec2 { x: 20, y: 15 });
    assert!(f.inside(0, 0));
    assert!(f.inside(40, 30));
    assert!(!f.inside(41, 30));
}

#[test]
fn dims_resolve_against_reference_lengths() {
    assert_eq!(Dim::Absolute(42).resolve(1000), 42);
    assert_eq!(Dim::Relative(500).resolve(1000), 500);
    assert_eq!(Dim::Relative(-250).resolve(1000), -250);
    assert_eq!(tdiv_i64(-7, 2), -3);
    assert_eq!(sat_add_i64(i64::MAX, 5), i64::MAX);
}

#[test]
fn fonts_carry_their_settings() {
    let f = Font::new(String::from("serif"))
        .with_size(Dim::Absolute(42))
        .with_color(Color::red());
    let g = f.write(String::from("hello"));
    assert_eq!(g.get_text(), "hello");
    assert_eq!(g.get_size(), Dim::Absolute(42));
    assert_eq!(g.get_font_id(), "serif");
    assert_eq!(g.get_color(), Color::red());
}

#[test]
fn message_kinds_match_payloads() {
    assert_eq!(kind_of(&ActionMsgData::Click), MsgKind::Click);
    assert_eq!(kind_of(&ActionMsgData::Mouse(1, 2)), MsgKind::Mouse);
    assert_eq!(kind_of(&ActionMsgData::Update), MsgKind::Update);
    let e = ActionMsg::empty();
    assert_eq!(e.sender_id, "");
    assert_eq!(e.msg, ActionMsgData::Nothing);
    let d = e.duplicate();
    assert_eq!(d.msg, ActionMsgData::Nothing);
}

#[test]
fn plane_build_emits_rectangle_once_bound() {
    let mut p = Plane::new(Graphic::Color(Color::light_blue()));
    p.frame = Frame::new_with_size(10, 10);
    let res = WindowRessources::new();
    let mut out = Vec::new();
    p.build(&res, &mut out);
    assert!(out.is_empty()); // not bound yet: nothing is drawn
    p.id = Some(5);
    p.build(&res, &mut out);
    assert_eq!(out.len(), 1);
}

#[test]
fn text_keeps_its_font() {
    let t = Text::new(Font::new(String::from("serif")).with_size(Dim::Absolute(9)));
    assert_eq!(t.font.get_size(), Dim::Absolute(9));
}

#[test]
fn list_insert_relayouts_synchronously() {
    // inserting into an already placed list re-places every child at once:
    // three equal children of a 900 px tall frame get 300 px each without
    // any further set_frame call.
    let list = List::new(ListAlignment::Vertical);
    let mut node = Node::List(list);
    node.set_frame(Frame::new_with_size(600, 900), Vec2::zero());
    let mut list = match node {
        Node::List(l) => l,
        _ => panic!("node kept its variant"),
    };
    for _ in 0..3 {
        list.push(Node::Empty(Empty::new()));
    }
    let heights: Vec<i64> = list
        .elements
        .iter()
        .map(|c| {
            let f = c.get_frame();
            f.p1.y - f.p0.y
        })
        .collect();
    assert_eq!(heights, vec![300, 300, 300]);
    // contiguous bands covering the frame exactly, stacked top-down
    let f0 = list.elements[0].get_frame();
    let f2 = list.elements[2].get_frame();
    assert_eq!(f0.p1.y, 900);
    assert_eq!(f2.p0.y, 0);
}

#[test]
fn scroll_insert_places_children_at_their_minimums() {
    let scroll = Scroll::new(ScrollAlignment::Vertical, String::from("sc"));
    let mut node = Node::Scroll(scroll);
    node.set_frame(Frame::new_with_size(200, 100), Vec2::zero());
    let mut scroll = match node {
        Node::Scroll(s) => s,
        _ => panic!("node kept its variant"),
    };
    let mut a = Empty::new();
    a.min_size = Vec2 { x: 10, y: 40 };
    let mut b = Empty::new();
    b.min_size = Vec2 { x: 10, y: 40 };
    scroll.push(Node::Empty(a));
    scroll.push(Node::Empty(b));
    // content (80) fits in the 100 px frame: no scrollbar room taken,
    // children stacked top-down at their own minimum extents
    let f0 = scroll.elements[0].get_frame();
    let f1 = scroll.elements[1].get_frame();
    assert_eq!((f0.p0.y, f0.p1.y), (60, 100));
    assert_eq!((f1.p0.y, f1.p1.y), (20, 60));
    assert_eq!(f0.p1.x, 200);
}

#[test]
fn animation_start_floats_the_wrapped_subtree() {
    let plane = Plane::new(Graphic::Color(Color::red()));
    let pad = Pad::new(
        Node::Plane(plane),
        PadAlignment::Center,
        PadElementSize::Positive(Dim::Absolute(10), Dim::Absolute(10)),
    );
    let mut a = Animation::new(Node::Pad(pad)).with_duration(100).with_floating(true);
    a.start_at(5);
    assert!(a.running);
    assert_eq!(a.start_time, 5);
    match &*a.element {
        Node::Pad(p) => match &*p.element {
            Node::Plane(pl) => assert!(pl.floating),
            _ => panic!("plane stays a plane"),
        },
        _ => panic!("pad stays a pad"),
    }
}

#[test]
fn button_setup_assigns_distinct_ids() {
    let mut gen = IdGen::new();
    let mut b = Button::new();
    b.setup(&mut gen);
    assert_eq!(b.widget_id, Some(0));
    assert_eq!(b.plane.id, Some(1));
    assert_eq!(b.plane_hover.id, Some(2));
    assert_eq!(b.plane_click.id, Some(3));
    assert_eq!(gen.next, 4);
    assert!(b.is_setup());
}

#[test]
fn dispatch_press_marks_button_and_mutates_message() {
    // A press inside the first button's frame sets its pressed state, emits
    // Press under its id, and hands the later sibling the gone sentinel, so
    // no stale hover or click survives further down the chain.
    let mut list = List::new(ListAlignment::Vertical);
    list.push(Node::Button(Button::new().with_id(String::from("b1"))));
    list.push(Node::Button(Button::new().with_id(String::from("b2"))));
    let mut root = Node::List(list);
    root.set_frame(Frame::new_with_size(200, 200), Vec2::zero());
    let (f1, inside2) = match &root {
        Node::List(l) => {
            let f1 = match &l.elements[0] {
                Node::Button(b) => b.frame,
                _ => panic!("first child stays a button"),
            };
            let f2 = match &l.elements[1] {
                Node::Button(b) => b.frame,
                _ => panic!("second child stays a button"),
            };
            (f1, ((f2.p0.x + f2.p1.x) / 2, (f2.p0.y + f2.p1.y) / 2))
        }
        _ => panic!("root stays a list"),
    };
    let px = (f1.p0.x + f1.p1.x) / 2;
    let py = (f1.p0.y + f1.p1.y) / 2;
    assert!(!(f1.p0.x <= inside2.0 && inside2.0 <= f1.p1.x
        && f1.p0.y <= inside2.1 && inside2.1 <= f1.p1.y));
    let mut outbox: Vec<ActionMsg> = Vec::new();
    let fwd = root.transmit_msg(
        ActionMsg {
            sender_id: String::from("window"),
            msg: ActionMsgData::MousePressLeft(px, py),
        },
        false,
        &mut outbox,
    );
    assert_eq!(outbox.len(), 1);
    assert_eq!(outbox[0].sender_id, "b1");
    assert_eq!(outbox[0].msg, ActionMsgData::Press);
    match fwd {
        Some(m) => assert_eq!(m.msg, ActionMsgData::MouseGone),
        None => panic!("a used pointer event leaves as the gone sentinel"),
    }
    match &root {
        Node::List(l) => {
            match &l.elements[0] {
                Node::Button(b) => assert!(b.is_click),
                _ => panic!("first child stays a button"),
            }
            match &l.elements[1] {
                Node::Button(b) => assert!(!b.is_click && !b.is_hover),
                _ => panic!("second child stays a button"),
            }
        }
        _ => panic!("root stays a list"),
    }
}

#[test]
fn dispatch_consumed_message_reaches_no_later_sibling() {
    // A socket whose rule consumes the press returns nothing, and the
    // button after it in the chain never observes the event, though the
    // press lies inside its frame.
    let socket = Socket::new(Node::Empty(Empty::new())).with_rule(HandlerRule {
        sender_id: String::from("window"),
        kind: MsgKind::MousePressLeft,
        action: SocketAction::Ignore,
        consume: true,
    });
    let mut list = List::new(ListAlignment::Vertical);
    list.push(Node::Socket(socket));
    list.push(Node::Button(Button::new().with_id(String::from("b2"))));
    let mut root = Node::List(list);
    root.set_frame(Frame::new_with_size(200, 200), Vec2::zero());
    let f2 = match &root {
        Node::List(l) => match &l.elements[1] {
            Node::Button(b) => b.frame,
            _ => panic!("second child stays a button"),
        },
        _ => panic!("root stays a list"),
    };
    let mut outbox: Vec<ActionMsg> = Vec::new();
    let fwd = root.transmit_msg(
        ActionMsg {
            sender_id: String::from("window"),
            msg: ActionMsgData::MousePressLeft(
                (f2.p0.x + f2.p1.x) / 2,
                (f2.p0.y + f2.p1.y) / 2,
            ),
        },
        false,
        &mut outbox,
    );
    assert!(fwd.is_none());
    assert!(outbox.is_empty());
    match &root {
        Node::List(l) => match &l.elements[1] {
            Node::Button(b) => assert!(!b.is_click && !b.is_hover),
            _ => panic!("second child stays a button"),
        },
        _ => panic!("root stays a list"),
    }
}

#[test]
fn reset_clears_floating_through_idle_animation() {
    // Resetting an idle animation hands the wrapped subtree the cleared
    // floating hint before restoring baselines: the hint was temporary.
    let plane = Plane::new(Graphic::Color(Color::light_grey()));
    let floated = sabi::node::set_floating_node(Node::Plane(plane), true);
    match &floated {
        Node::Plane(p) => assert!(p.floating),
        _ => panic!("plane stays a plane"),
    }
    let anim = Animation::new(floated); // idle from birth
    let after = sabi::node::reset_node(Node::Animation(anim));
    match &after {
        Node::Animation(a) => match &*a.element {
            Node::Plane(p) => assert!(!p.floating),
            _ => panic!("plane stays a plane"),
        },
        _ => panic!("animation stays an animation"),
    }
}

#[test]
fn reset_leaves_running_animation_mid_flight() {
    // A reset arriving at a running animation is suppressed whole: the
    // nesting convention lets inner, shorter animations finish first.
    let plane = Plane::new(Graphic::Color(Color::light_grey()));
    let mut anim = Animation::new(Node::Plane(plane))
        .with_duration(1048576)
        .with_floating(true);
    anim.start_at(0);
    let after = sabi::node::reset_node(Node::Animation(anim));
    match &after {
        Node::Animation(a) => {
            assert!(a.running);
            match &*a.element {
                Node::Plane(p) => assert!(p.floating),
                _ => panic!("plane stays a plane"),
            }
        }
        _ => panic!("animation stays an animation"),
    }
}

#[test]
fn idle_tick_is_a_no_op() {
    // A tick on an idle animation evaluates nothing and touches nothing.
    let pad = Pad::new(
        Node::Empty(Empty::new()),
        PadAlignment::Center,
        PadElementSize::Positive(Dim::Absolute(120), Dim::Absolute(120)),
    );
    let mut holder = Node::Animation(
        Animation::new(Node::Pad(pad)).with_duration(500).with_size_animation(
            SizeAnimation::Pulse { x: Dim::Relative(500), y: Dim::Relative(500) },
        ),
    );
    holder.set_frame(Frame::new_with_size(300, 300), Vec2::zero());
    let mut a = match holder {
        Node::Animation(inner) => inner,
        _ => panic!("node kept its variant"),
    };
    let frame_before = a.element.get_frame();
    a.run_at(700); // never started: idle, so nothing moves
    assert!(!a.running);
    assert_eq!(a.element.get_frame(), frame_before);
    match &*a.element {
        Node::Pad(p) => assert_eq!(
            p.pad_size,
            PadElementSize::Positive(Dim::Absolute(120), Dim::Absolute(120))
        ),
        _ => panic!("pad stays a pad"),
    }
}

#[test]
fn scroll_thumb_drag_commits_on_release() {
    // Press inside the thumb starts a drag (consumed); a drag stores its
    // axis delta as pending (consumed); the release commits it into the
    // position and is forwarded.
    let mut sc = Scroll::new(ScrollAlignment::Vertical, String::from("sc"));
    for _ in 0..4 {
        let mut e = Empty::new();
        e.min_size = Vec2 { x: 50, y: 100 };
        sc.push(Node::Empty(e));
    }
    let mut root = Node::Scroll(sc);
    root.set_frame(Frame::new_with_size(100, 200), Vec2::zero());
    let bar = match &root {
        Node::Scroll(s) => s.scroll_bar.frame,
        _ => panic!("root stays a scroll"),
    };
    let bx = (bar.p0.x + bar.p1.x) / 2;
    let by = (bar.p0.y + bar.p1.y) / 2;
    let mut outbox: Vec<ActionMsg> = Vec::new();
    let send = |root: &mut Node, outbox: &mut Vec<ActionMsg>, msg: ActionMsgData| {
        root.transmit_msg(
            ActionMsg { sender_id: String::from("window"), msg },
            false,
            outbox,
        )
    };
    let r1 = send(&mut root, &mut outbox, ActionMsgData::MousePressLeft(bx, by));
    assert!(r1.is_none());
    match &root {
        Node::Scroll(s) => assert!(s.drag_active),
        _ => panic!("root stays a scroll"),
    }
    let r2 = send(&mut root, &mut outbox, ActionMsgData::MouseDragLeft(bx, by + 40));
    assert!(r2.is_none());
    match &root {
        Node::Scroll(s) => assert_eq!(s.scroll_pending, by + 40),
        _ => panic!("root stays a scroll"),
    }
    let r3 = send(&mut root, &mut outbox, ActionMsgData::MouseReleaseLeft(bx, by + 40));
    assert!(r3.is_some());
    match &root {
        Node::Scroll(s) => {
            assert!(!s.drag_active);
            assert_eq!(s.scroll_pending, 0);
            assert_eq!(s.scroll_pos, by + 40);
        }
        _ => panic!("root stays a scroll"),
    }
}

#[test]
fn update_tick_keeps_started_animation_running() {
    // The periodic update tick is what steps animations: dispatched into a
    // freshly started long animation it leaves it running; dispatched into
    // an idle one it changes nothing.
    let pad = Pad::new(
        Node::Empty(Empty::new()),
        PadAlignment::Center,
        PadElementSize::Positive(Dim::Absolute(50), Dim::Absolute(50)),
    );
    let mut holder = Node::Animation(Animation::new(Node::Pad(pad)).with_duration(1048576));
    holder.set_frame(Frame::new_with_size(300, 300), Vec2::zero());
    let mut a = match holder {
        Node::Animation(inner) => inner,
        _ => panic!("node kept its variant"),
    };
    a.start();
    let mut root = Node::Animation(a);
    let mut outbox: Vec<ActionMsg> = Vec::new();
    let fwd = root.transmit_msg(
        ActionMsg { sender_id: String::from("timer"), msg: ActionMsgData::Update },
        false,
        &mut outbox,
    );
    assert!(fwd.is_some());
    match &root {
        Node::Animation(x) => assert!(x.running),
        _ => panic!("root stays an animation"),
    }
}

#[test]
fn scroll_custom_thumb_keeps_graphic_and_takes_id() {
    let mut thumb = Button::new();
    thumb.plane = Plane::new(Graphic::Color(Color::light_grey()));
    let sc = Scroll::new_with_button(
        String::from("strip"),
        thumb,
        ScrollAlignment::Horizontal,
    );
    assert_eq!(sc.id, "strip");
    assert_eq!(sc.scroll_bar.id, "strip");
    assert!(matches!(sc.scroll_bar.plane.graphic, Graphic::Color(_)));
    assert!(!sc.drag_active);
    assert_eq!(sc.scroll_bar_width, 15);
}
