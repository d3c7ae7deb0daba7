//! Leaf elements: the invisible `Empty` placeholder, the `Plane` that draws
//! a color or texture, the `Text` run, and the `Button` composite of three
//! planes and an optional label with its press/hover state machine.

use vstd::prelude::*;
use crate::geometry::{Dim, Frame, Vec2};
use crate::arith::COORD_LIMIT;
use crate::shared::{Color, Font, Graphic, IMG_LIMIT};
use crate::action::{ActionMsg, ActionMsgData};
use crate::render::{DrawCmd, IdGen, WindowRessources, spec_image_lookup, spec_font_lookup};

verus! {

/// The largest magnitude accepted for a size-negotiation bound; `i64::MAX`
/// itself stands for "unbounded".
pub open spec fn size_wf(v: Vec2) -> bool {
    &&& 0 <= v.x <= COORD_LIMIT || v.x == i64::MAX
    &&& 0 <= v.y <= COORD_LIMIT || v.y == i64::MAX
}

/// The unbounded size.
pub fn unlimited() -> (r: Vec2)
    ensures
        r == (Vec2 { x: i64::MAX, y: i64::MAX }),
{
    Vec2 { x: i64::MAX, y: i64::MAX }
}

/// An invisible element that occupies its frame and does nothing.
#[derive(Debug, Clone)]
pub struct Empty {
    pub parent: Option<u64>,
    pub is_setup: bool,
    pub frame: Frame,
    pub window_center: Vec2,
    pub min_size: Vec2,
    pub max_size: Vec2,
}

impl Empty {
    pub fn new() -> (r: Empty)
        ensures
            r.parent == None::<u64>,
            !r.is_setup,
            r.frame == (Frame { p0: Vec2 { x: 0i64, y: 0i64 }, p1: Vec2 { x: 1i64, y: 1i64 } }),
            r.min_size == (Vec2 { x: 0i64, y: 0i64 }),
            r.max_size == (Vec2 { x: i64::MAX, y: i64::MAX }),
    {
        Empty {
            parent: None,
            is_setup: false,
            frame: Frame::new(),
            window_center: Vec2::zero(),
            min_size: Vec2::zero(),
            max_size: unlimited(),
        }
    }
}

/// A rectangle that draws a flat color or a texture over its frame.
#[derive(Debug, Clone)]
pub struct Plane {
    pub id: Option<u64>,
    pub parent: Option<u64>,
    pub floating: bool,
    pub is_setup: bool,
    pub global_center: Vec2,
    pub frame: Frame,
    pub graphic: Graphic,
    pub min_size: Vec2,
    pub max_size: Vec2,
}

/// The draw commands a plane issues: a rectangle for a color, a blit for a
/// texture whose name resolves and whose dimensions lie in the drawable
/// range, and nothing otherwise (a missing resource skips the draw).
pub open spec fn spec_plane_cmds(p: Plane, images: Seq<(String, crate::render::ImageInfo)>) -> Seq<
    DrawCmd,
> {
    let w = p.frame.p1.x - p.frame.p0.x;
    let h = p.frame.p1.y - p.frame.p0.y;
    let cx = crate::arith::tdiv(p.frame.p0.x + p.frame.p1.x, 2) - p.global_center.x;
    let cy = crate::arith::tdiv(p.frame.p0.y + p.frame.p1.y, 2) - p.global_center.y;
    if p.id is None {
        Seq::empty()
    } else {
        match p.graphic {
            Graphic::Nothing => Seq::empty(),
            Graphic::Color(color) => seq![
                DrawCmd::Rect {
                    id: p.id->0,
                    center: Vec2 { x: cx as i64, y: cy as i64 },
                    size: Vec2 { x: w as i64, y: h as i64 },
                    color,
                    parent: p.parent,
                    floating: p.floating,
                },
            ],
            Graphic::Texture(t) => match spec_image_lookup(images, t.id@, 0) {
                None => Seq::empty(),
                Some(info) => if 0 < w <= IMG_LIMIT && 0 < h <= IMG_LIMIT && 0 <= info.w
                    <= IMG_LIMIT && 0 <= info.h <= IMG_LIMIT {
                    seq![
                        DrawCmd::Image {
                            id: p.id->0,
                            image: info.id,
                            center: Vec2 { x: cx as i64, y: cy as i64 },
                            size: Vec2 { x: w as i64, y: h as i64 },
                            cut: Frame {
                                p0: Vec2 { x: 0i64, y: 0i64 },
                                p1: Vec2 {
                                    x: crate::shared::spec_cut(
                                        t.mode,
                                        w,
                                        h,
                                        info.w as int,
                                        info.h as int,
                                    ).0 as i64,
                                    y: crate::shared::spec_cut(
                                        t.mode,
                                        w,
                                        h,
                                        info.w as int,
                                        info.h as int,
                                    ).1 as i64,
                                },
                            },
                            parent: p.parent,
                            floating: p.floating,
                        },
                    ]
                } else {
                    Seq::empty()
                },
            },
        }
    }
}

impl Plane {
    pub fn new(graphic: Graphic) -> (r: Plane)
        ensures
            r.id == None::<u64>,
            r.parent == None::<u64>,
            !r.floating,
            !r.is_setup,
            r.frame == (Frame { p0: Vec2 { x: 0i64, y: 0i64 }, p1: Vec2 { x: 1i64, y: 1i64 } }),
            r.global_center == (Vec2 { x: 0i64, y: 0i64 }),
            r.graphic == graphic,
            r.min_size == (Vec2 { x: 0i64, y: 0i64 }),
            r.max_size == (Vec2 { x: i64::MAX, y: i64::MAX }),
    {
        Plane {
            id: None,
            parent: None,
            floating: false,
            is_setup: false,
            global_center: Vec2::zero(),
            frame: Frame::new(),
            graphic,
            min_size: Vec2::zero(),
            max_size: unlimited(),
        }
    }

    pub fn with_graphic(self, fg: Graphic) -> (r: Plane)
        ensures
            r == (Plane { graphic: fg, ..self }),
    {
        Plane { graphic: fg, ..self }
    }

    pub fn set_graphic(&mut self, fg: Graphic)
        ensures
            *final(self) == (Plane { graphic: fg, ..*old(self) }),
    {
        self.graphic = fg;
    }

    /// Issue this plane's draw commands.
    pub fn build(&self, res: &WindowRessources, out: &mut Vec<DrawCmd>)
        requires
            self.frame.wf(),
            -COORD_LIMIT <= self.global_center.x <= COORD_LIMIT,
            -COORD_LIMIT <= self.global_center.y <= COORD_LIMIT,
        ensures
            final(out)@ == old(out)@ + spec_plane_cmds(*self, res.images@),
    {
        if let Some(id) = self.id {
            let c = self.frame.center().minus(self.global_center);
            let w = self.frame.width();
            let h = self.frame.height();
            match &self.graphic {
                Graphic::Nothing => {},
                Graphic::Color(color) => {
                    out.push(
                        DrawCmd::Rect {
                            id,
                            center: c,
                            size: Vec2 { x: w, y: h },
                            color: *color,
                            parent: self.parent,
                            floating: self.floating,
                        },
                    );
                },
                Graphic::Texture(t) => {
                    if let Some(info) = res.image(&t.id) {
                        if 0 < w && w <= IMG_LIMIT && 0 < h && h <= IMG_LIMIT && 0 <= info.w
                            && info.w <= IMG_LIMIT && 0 <= info.h && info.h <= IMG_LIMIT {
                            let cut = t.get_cut(w, h, info.w, info.h);
                            out.push(
                                DrawCmd::Image {
                                    id,
                                    image: info.id,
                                    center: c,
                                    size: Vec2 { x: w, y: h },
                                    cut,
                                    parent: self.parent,
                                    floating: self.floating,
                                },
                            );
                        }
                    }
                },
            }
        }
    }
}

/// A text run positioned at the center of its frame.
#[derive(Debug, Clone)]
pub struct Text {
    pub font: Font,
    pub is_setup: bool,
    pub frame: Frame,
    pub global_center: Vec2,
    pub min_size: Vec2,
    pub max_size: Vec2,
    pub id: Option<u64>,
    pub parent: Option<u64>,
    pub floating: bool,
}

/// The draw command a text run issues once it is bound.
pub open spec fn spec_text_cmds(t: Text, fonts: Seq<(String, u64)>) -> Seq<DrawCmd> {
    let cx = crate::arith::tdiv(t.frame.p0.x + t.frame.p1.x, 2) - t.global_center.x;
    let cy = crate::arith::tdiv(t.frame.p0.y + t.frame.p1.y, 2) - t.global_center.y;
    if t.id is None {
        Seq::empty()
    } else {
        seq![
            DrawCmd::TextRun {
                id: t.id->0,
                text: t.font.text,
                center: Vec2 { x: cx as i64, y: cy as i64 },
                color: t.font.color,
                size: t.font.size,
                justi: t.font.justi,
                wrap: t.font.wrap,
                font: spec_font_lookup(fonts, t.font.font_id@, 0),
                parent: t.parent,
                floating: t.floating,
            },
        ]
    }
}

impl Text {
    pub fn new(font: Font) -> (r: Text)
        ensures
            r.font == font,
            !r.is_setup,
            r.frame == (Frame { p0: Vec2 { x: 0i64, y: 0i64 }, p1: Vec2 { x: 1i64, y: 1i64 } }),
            r.min_size == (Vec2 { x: 0i64, y: 0i64 }),
            r.max_size == (Vec2 { x: i64::MAX, y: i64::MAX }),
            r.id == None::<u64>,
            r.parent == None::<u64>,
            !r.floating,
    {
        Text {
            font,
            is_setup: false,
            frame: Frame::new(),
            global_center: Vec2::zero(),
            min_size: Vec2::zero(),
            max_size: unlimited(),
            id: None,
            parent: None,
            floating: false,
        }
    }

    pub fn with_font(self, font: Font) -> (r: Text)
        ensures
            r == (Text { font, ..self }),
    {
        Text { font, ..self }
    }

    /// Replace the font; the run must be bound to the backend again.
    pub fn set_font(&mut self, font: Font)
        ensures
            *final(self) == (Text { font, is_setup: false, ..*old(self) }),
    {
        self.font = font;
        self.is_setup = false;
    }

    pub fn with_color(self, color: Color) -> (r: Text)
        ensures
            r == (Text { font: (Font { color, ..self.font }), ..self }),
    {
        let mut f = self;
        f.font.set_color(color);
        f
    }

    pub fn set_color(&mut self, color: Color)
        ensures
            *final(self) == (Text { font: (Font { color, ..old(self).font }), ..*old(self) }),
    {
        self.font.set_color(color);
    }

    /// Issue this run's draw command.
    pub fn build(&self, res: &WindowRessources, out: &mut Vec<DrawCmd>)
        requires
            self.frame.wf(),
            -COORD_LIMIT <= self.global_center.x <= COORD_LIMIT,
            -COORD_LIMIT <= self.global_center.y <= COORD_LIMIT,
        ensures
            final(out)@ == old(out)@ + spec_text_cmds(*self, res.fonts@),
    {
        if let Some(id) = self.id {
            let c = self.frame.center().minus(self.global_center);
            let fnt = res.font(&self.font.get_font_id());
            out.push(
                DrawCmd::TextRun {
                    id,
                    text: self.font.get_text(),
                    center: c,
                    color: self.font.get_color(),
                    size: self.font.get_size(),
                    justi: self.font.get_justification(),
                    wrap: self.font.get_wrapping(),
                    font: fnt,
                    parent: self.parent,
                    floating: self.floating,
                },
            );
        }
    }
}

/// A clickable composite: one plane for each visual state (plain, hovered,
/// pressed), an optional label, and the press/hover machine that turns
/// pointer events into `Press`, `Release`, `Click`, `Hover` and
/// `HoverGone` emissions under its own sender id.
#[derive(Debug, Clone)]
pub struct Button {
    pub id: String,
    pub is_setup: bool,
    pub global_center: Vec2,
    pub frame: Frame,
    pub min_size: Vec2,
    pub max_size: Vec2,
    pub widget_id: Option<u64>,
    pub parent: Option<u64>,
    pub floating: bool,
    pub plane: Plane,
    pub plane_hover: Plane,
    pub plane_click: Plane,
    pub is_hover: bool,
    pub is_click: bool,
    pub label: Option<Text>,
}

/// What dispatching one message does to a button: its next state, what it
/// hands on to the elements after it (a pointer event it used up turns
/// into `MouseGone`, so no later sibling keeps a stale hover), and what it
/// emits under its own id.
pub open spec fn spec_button_transmit(b: Button, m: ActionMsg) -> (
    Button,
    Option<ActionMsg>,
    Seq<ActionMsg>,
) {
    let gone = ActionMsg { sender_id: b.id, msg: ActionMsgData::MouseGone };
    let release = ActionMsg { sender_id: b.id, msg: ActionMsgData::Release };
    match m.msg {
        ActionMsgData::MouseGone => (
            Button { is_hover: false, is_click: false, ..b },
            Some(m),
            if b.is_click {
                seq![release]
            } else {
                Seq::empty()
            },
        ),
        ActionMsgData::Mouse(x, y) => {
            if b.frame.p0.x <= x <= b.frame.p1.x && b.frame.p0.y <= y <= b.frame.p1.y {
                (
                    Button { is_hover: true, ..b },
                    Some(gone),
                    seq![ActionMsg { sender_id: b.id, msg: ActionMsgData::Hover }],
                )
            } else {
                (
                    Button { is_hover: false, is_click: false, ..b },
                    Some(m),
                    (if b.is_click {
                        seq![release]
                    } else {
                        Seq::empty()
                    }) + (if b.is_hover {
                        seq![ActionMsg { sender_id: b.id, msg: ActionMsgData::HoverGone }]
                    } else {
                        Seq::empty()
                    }),
                )
            }
        },
        ActionMsgData::MousePressLeft(x, y) => {
            if b.frame.p0.x <= x <= b.frame.p1.x && b.frame.p0.y <= y <= b.frame.p1.y {
                (
                    Button { is_click: true, ..b },
                    Some(gone),
                    seq![ActionMsg { sender_id: b.id, msg: ActionMsgData::Press }],
                )
            } else {
                (b, Some(m), Seq::empty())
            }
        },
        ActionMsgData::MouseReleaseLeft(_x, _y) => (
            Button { is_click: false, ..b },
            Some(m),
            if b.is_click {
                seq![ActionMsg { sender_id: b.id, msg: ActionMsgData::Click }, release]
            } else {
                Seq::empty()
            },
        ),
        _ => (b, Some(m), Seq::empty()),
    }
}


/// A button with every part moved to the given frame and translation.
pub open spec fn spec_button_with_frame(b: Button, frame: Frame, center: Vec2) -> Button {
    Button {
        frame,
        global_center: center,
        plane: Plane { frame, global_center: center, ..b.plane },
        plane_hover: Plane { frame, global_center: center, ..b.plane_hover },
        plane_click: Plane { frame, global_center: center, ..b.plane_click },
        label: match b.label {
            Some(l) => Some(Text { frame, global_center: center, ..l }),
            None => None,
        },
        ..b
    }
}

/// The draw commands a button issues: its grouping canvas, the plane for
/// its current state, and its label.
pub open spec fn spec_button_cmds(b: Button, res: WindowRessources) -> Seq<DrawCmd> {
    (if b.widget_id is Some {
        seq![DrawCmd::Canvas { id: b.widget_id->0, parent: b.parent, floating: b.floating }]
    } else {
        Seq::empty()
    }) + (if b.is_click {
        spec_plane_cmds(b.plane_click, res.images@)
    } else if b.is_hover {
        spec_plane_cmds(b.plane_hover, res.images@)
    } else {
        spec_plane_cmds(b.plane, res.images@)
    }) + (match b.label {
        Some(l) => spec_text_cmds(l, res.fonts@),
        None => Seq::empty(),
    })
}

impl Button {
    /// A grey button that hovers yellow and presses green, without a label.
    pub fn new() -> (r: Button)
        ensures
            r.id@ == "Button"@,
            !r.is_setup,
            r.frame == (Frame { p0: Vec2 { x: 0i64, y: 0i64 }, p1: Vec2 { x: 1i64, y: 1i64 } }),
            r.min_size == (Vec2 { x: 0i64, y: 0i64 }),
            r.max_size == (Vec2 { x: i64::MAX, y: i64::MAX }),
            r.widget_id == None::<u64>,
            r.parent == None::<u64>,
            !r.floating,
            r.global_center == (Vec2 { x: 0i64, y: 0i64 }),
            r.plane.frame == (Frame { p0: Vec2 { x: 0i64, y: 0i64 }, p1: Vec2 { x: 1i64, y: 1i64 } }),
            r.plane_hover.frame == (Frame {
                p0: Vec2 { x: 0i64, y: 0i64 },
                p1: Vec2 { x: 1i64, y: 1i64 },
            }),
            r.plane_click.frame == (Frame {
                p0: Vec2 { x: 0i64, y: 0i64 },
                p1: Vec2 { x: 1i64, y: 1i64 },
            }),
            r.plane.global_center == (Vec2 { x: 0i64, y: 0i64 }),
            r.plane_hover.global_center == (Vec2 { x: 0i64, y: 0i64 }),
            r.plane_click.global_center == (Vec2 { x: 0i64, y: 0i64 }),
            r.plane.graphic == Graphic::Color(Color { r: 200u8, g: 200u8, b: 200u8, a: 255u8 }),
            r.plane_hover.graphic == Graphic::Color(
                Color { r: 255u8, g: 255u8, b: 160u8, a: 255u8 },
            ),
            r.plane_click.graphic == Graphic::Color(
                Color { r: 160u8, g: 255u8, b: 160u8, a: 255u8 },
            ),
            !r.is_hover,
            !r.is_click,
            r.label == None::<Text>,
    {
        Button {
            id: "Button".to_owned(),
            is_setup: false,
            global_center: Vec2::zero(),
            frame: Frame::new(),
            min_size: Vec2::zero(),
            max_size: unlimited(),
            widget_id: None,
            parent: None,
            floating: false,
            plane: Plane::new(Graphic::Color(Color::light_grey())),
            plane_hover: Plane::new(Graphic::Color(Color::light_yellow())),
            plane_click: Plane::new(Graphic::Color(Color::light_green())),
            is_hover: false,
            is_click: false,
            label: None,
        }
    }

    pub fn with_graphics(self, std_g: Graphic, hover: Graphic, click: Graphic) -> (r: Button)
        ensures
            r.plane.graphic == std_g,
            r.plane_hover.graphic == hover,
            r.plane_click.graphic == click,
            r.id == self.id,
            r.label == self.label,
            r.frame == self.frame,
    {
        let mut r = self;
        r.plane = Plane::new(std_g);
        r.plane_hover = Plane::new(hover);
        r.plane_click = Plane::new(click);
        r
    }

    pub fn with_graphic(self, std_g: Graphic) -> (r: Button)
        ensures
            r.plane.graphic == std_g,
            r.plane_hover == self.plane_hover,
            r.plane_click == self.plane_click,
            r.id == self.id,
            r.label == self.label,
            r.frame == self.frame,
    {
        let mut r = self;
        r.plane = Plane::new(std_g);
        r
    }

    pub fn with_graphic_hover(self, hover: Graphic) -> (r: Button)
        ensures
            r.plane_hover.graphic == hover,
            r.plane == self.plane,
            r.plane_click == self.plane_click,
            r.id == self.id,
            r.label == self.label,
            r.frame == self.frame,
    {
        let mut r = self;
        r.plane_hover = Plane::new(hover);
        r
    }

    pub fn with_graphic_click(self, click: Graphic) -> (r: Button)
        ensures
            r.plane_click.graphic == click,
            r.plane == self.plane,
            r.plane_hover == self.plane_hover,
            r.id == self.id,
            r.label == self.label,
            r.frame == self.frame,
    {
        let mut r = self;
        r.plane_click = Plane::new(click);
        r
    }

    pub fn with_font(self, font: Font) -> (r: Button)
        ensures
            r.label is Some && r.label->0.font == font && !r.label->0.is_setup,
            r == (Button { label: r.label, ..self }),
    {
        let mut r = self;
        r.label = Some(Text::new(font));
        r
    }

    pub fn set_font(&mut self, font: Font)
        ensures
            final(self).label is Some && final(self).label->0.font == font,
            !(final(self).label->0.is_setup),
            *final(self) == (Button { label: final(self).label, ..*old(self) }),
    {
        self.label = Some(Text::new(font));
    }

    /// The id under which this button emits its events.
    pub fn with_id(self, id: String) -> (r: Button)
        ensures
            r == (Button { id, ..self }),
    {
        let mut r = self;
        r.id = id;
        r
    }

    /// Bind the button and its parts to backend identifiers: the button's
    /// canvas and each part get their own fresh, distinct ids from the
    /// generator, in order.
    pub fn setup(&mut self, gen: &mut IdGen)
        requires
            old(gen).next + 5 <= u64::MAX,
        ensures
            final(self).is_setup,
            final(self).widget_id == Some(old(gen).next),
            final(self).plane == (Plane {
                parent: Some(old(gen).next),
                id: Some((old(gen).next + 1) as u64),
                is_setup: true,
                ..old(self).plane
            }),
            final(self).plane_hover == (Plane {
                parent: Some(old(gen).next),
                id: Some((old(gen).next + 2) as u64),
                is_setup: true,
                ..old(self).plane_hover
            }),
            final(self).plane_click == (Plane {
                parent: Some(old(gen).next),
                id: Some((old(gen).next + 3) as u64),
                is_setup: true,
                ..old(self).plane_click
            }),
            old(self).label is Some ==> final(self).label == Some(
                Text {
                    parent: Some(old(gen).next),
                    id: Some((old(gen).next + 4) as u64),
                    is_setup: true,
                    ..old(self).label->0
                },
            ) && final(gen).next == old(gen).next + 5,
            old(self).label is None ==> final(self).label is None && final(gen).next == old(
                gen,
            ).next + 4,
            *final(self) == (Button {
                is_setup: true,
                widget_id: final(self).widget_id,
                plane: final(self).plane,
                plane_hover: final(self).plane_hover,
                plane_click: final(self).plane_click,
                label: final(self).label,
                ..*old(self)
            }),
    {
        let wid = gen.fresh();
        self.widget_id = Some(wid);
        self.plane.parent = Some(wid);
        self.plane.id = Some(gen.fresh());
        self.plane.is_setup = true;
        self.plane_hover.parent = Some(wid);
        self.plane_hover.id = Some(gen.fresh());
        self.plane_hover.is_setup = true;
        self.plane_click.parent = Some(wid);
        self.plane_click.id = Some(gen.fresh());
        self.plane_click.is_setup = true;
        if let Some(label) = &mut self.label {
            label.parent = Some(wid);
            label.id = Some(gen.fresh());
            label.is_setup = true;
        }
        self.is_setup = true;
    }

    /// Whether the button and all its parts are bound.
    pub open spec fn spec_is_setup(self) -> bool {
        self.is_setup && self.plane.is_setup && self.plane_hover.is_setup
            && self.plane_click.is_setup && (self.label is Some ==> self.label->0.is_setup)
    }

    pub fn is_setup(&self) -> (r: bool)
        ensures
            r == self.spec_is_setup(),
    {
        let label_setup = match &self.label {
            Some(l) => l.is_setup,
            None => true,
        };
        self.is_setup && label_setup && self.plane.is_setup && self.plane_click.is_setup
            && self.plane_hover.is_setup
    }

    /// Place the button: all its parts share the same frame.
    pub fn set_frame(&mut self, frame: Frame, window_center: Vec2)
        ensures
            *final(self) == spec_button_with_frame(*old(self), frame, window_center),
            final(self).frame == frame,
            final(self).global_center == window_center,
            final(self).plane == (Plane { frame, global_center: window_center, ..old(self).plane }),
            final(self).plane_hover == (Plane {
                frame,
                global_center: window_center,
                ..old(self).plane_hover
            }),
            final(self).plane_click == (Plane {
                frame,
                global_center: window_center,
                ..old(self).plane_click
            }),
            old(self).label is Some ==> final(self).label == Some(
                Text { frame, global_center: window_center, ..old(self).label->0 },
            ),
            old(self).label is None ==> final(self).label is None,
            final(self).id == old(self).id,
            final(self).is_setup == old(self).is_setup,
            final(self).widget_id == old(self).widget_id,
            final(self).parent == old(self).parent,
            final(self).floating == old(self).floating,
            final(self).is_hover == old(self).is_hover,
            final(self).is_click == old(self).is_click,
            final(self).min_size == old(self).min_size,
            final(self).max_size == old(self).max_size,
    {
        self.global_center = window_center;
        self.frame = frame;
        self.plane.frame = frame;
        self.plane.global_center = window_center;
        self.plane_hover.frame = frame;
        self.plane_hover.global_center = window_center;
        self.plane_click.frame = frame;
        self.plane_click.global_center = window_center;
        if let Some(label) = &mut self.label {
            label.frame = frame;
            label.global_center = window_center;
        }
    }

    /// Dispatch one message through the press/hover machine. Emissions go
    /// to `outbox` under this button's id.
    pub fn transmit_msg(&mut self, msg: ActionMsg, _stop: bool, outbox: &mut Vec<ActionMsg>) -> (r:
        Option<ActionMsg>)
        ensures
            *final(self) == spec_button_transmit(*old(self), msg).0,
            r == spec_button_transmit(*old(self), msg).1,
            final(outbox)@ == old(outbox)@ + spec_button_transmit(*old(self), msg).2,
    {
        match &msg.msg {
            ActionMsgData::MouseGone => {
                if self.is_click {
                    outbox.push(
                        ActionMsg { sender_id: self.id.clone(), msg: ActionMsgData::Release },
                    );
                }
                self.is_hover = false;
                self.is_click = false;
                Some(msg)
            },
            ActionMsgData::Mouse(x, y) => {
                if self.frame.inside(*x, *y) {
                    outbox.push(ActionMsg { sender_id: self.id.clone(), msg: ActionMsgData::Hover });
                    self.is_hover = true;
                    Some(ActionMsg { sender_id: self.id.clone(), msg: ActionMsgData::MouseGone })
                } else {
                    if self.is_click {
                        outbox.push(
                            ActionMsg { sender_id: self.id.clone(), msg: ActionMsgData::Release },
                        );
                    }
                    if self.is_hover {
                        outbox.push(
                            ActionMsg { sender_id: self.id.clone(), msg: ActionMsgData::HoverGone },
                        );
                    }
                    self.is_hover = false;
                    self.is_click = false;
                    Some(msg)
                }
            },
            ActionMsgData::MousePressLeft(x, y) => {
                if self.frame.inside(*x, *y) {
                    outbox.push(ActionMsg { sender_id: self.id.clone(), msg: ActionMsgData::Press });
                    self.is_click = true;
                    Some(ActionMsg { sender_id: self.id.clone(), msg: ActionMsgData::MouseGone })
                } else {
                    Some(msg)
                }
            },
            ActionMsgData::MouseReleaseLeft(_x, _y) => {
                if self.is_click {
                    outbox.push(ActionMsg { sender_id: self.id.clone(), msg: ActionMsgData::Click });
                    outbox.push(
                        ActionMsg { sender_id: self.id.clone(), msg: ActionMsgData::Release },
                    );
                }
                self.is_click = false;
                Some(msg)
            },
            _ => Some(msg),
        }
    }

    /// Issue the button's draw commands: its canvas, the plane matching
    /// its current state, and the label on top.
    pub fn build(&self, res: &WindowRessources, out: &mut Vec<DrawCmd>)
        requires
            self.frame.wf(),
            self.plane.frame.wf(),
            self.plane_hover.frame.wf(),
            self.plane_click.frame.wf(),
            self.label is Some ==> self.label->0.frame.wf(),
            -COORD_LIMIT <= self.plane.global_center.x <= COORD_LIMIT,
            -COORD_LIMIT <= self.plane.global_center.y <= COORD_LIMIT,
            -COORD_LIMIT <= self.plane_hover.global_center.x <= COORD_LIMIT,
            -COORD_LIMIT <= self.plane_hover.global_center.y <= COORD_LIMIT,
            -COORD_LIMIT <= self.plane_click.global_center.x <= COORD_LIMIT,
            -COORD_LIMIT <= self.plane_click.global_center.y <= COORD_LIMIT,
            self.label is Some ==> -COORD_LIMIT <= self.label->0.global_center.x <= COORD_LIMIT
                && -COORD_LIMIT <= self.label->0.global_center.y <= COORD_LIMIT,
        ensures
            final(out)@ == old(out)@ + spec_button_cmds(*self, *res),
    {
        if let Some(wid) = self.widget_id {
            out.push(DrawCmd::Canvas { id: wid, parent: self.parent, floating: self.floating });
        }
        if self.is_click {
            self.plane_click.build(res, out);
        } else if self.is_hover {
            self.plane_hover.build(res, out);
        } else {
            self.plane.build(res, out);
        }
        if let Some(label) = &self.label {
            label.build(res, out);
        }
    }
}

} // verus!
