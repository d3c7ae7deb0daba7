//! Shared visual state: colors, font settings for text runs, and the
//! graphic (flat color or texture) a plane draws, together with the texture
//! cut computation that picks the source rectangle for a given target
//! aspect ratio.

use vstd::prelude::*;
use crate::geometry::{Dim, Frame, Vec2};
use crate::arith::{tdiv, tdiv_i64};

verus! {

/// An opaque color, one byte per channel.
#[derive(Debug, PartialEq, Eq, Structural, Copy, Clone)]
pub struct Color {
    pub r: u8,
    pub g: u8,
    pub b: u8,
    pub a: u8,
}

impl Color {
    pub fn new(r: u8, g: u8, b: u8, a: u8) -> (c: Color)
        ensures
            c == (Color { r, g, b, a }),
    {
        Color { r, g, b, a }
    }

    pub fn black() -> (c: Color)
        ensures
            c == (Color { r: 0u8, g: 0u8, b: 0u8, a: 255u8 }),
    {
        Color { r: 0, g: 0, b: 0, a: 255 }
    }

    pub fn light_grey() -> (c: Color)
        ensures
            c == (Color { r: 200u8, g: 200u8, b: 200u8, a: 255u8 }),
    {
        Color { r: 200, g: 200, b: 200, a: 255 }
    }

    pub fn light_yellow() -> (c: Color)
        ensures
            c == (Color { r: 255u8, g: 255u8, b: 160u8, a: 255u8 }),
    {
        Color { r: 255, g: 255, b: 160, a: 255 }
    }

    pub fn light_green() -> (c: Color)
        ensures
            c == (Color { r: 160u8, g: 255u8, b: 160u8, a: 255u8 }),
    {
        Color { r: 160, g: 255, b: 160, a: 255 }
    }

    pub fn light_blue() -> (c: Color)
        ensures
            c == (Color { r: 160u8, g: 200u8, b: 255u8, a: 255u8 }),
    {
        Color { r: 160, g: 200, b: 255, a: 255 }
    }

    pub fn red() -> (c: Color)
        ensures
            c == (Color { r: 255u8, g: 0u8, b: 0u8, a: 255u8 }),
    {
        Color { r: 255, g: 0, b: 0, a: 255 }
    }
}

#[derive(Debug, PartialEq, Eq, Structural, Copy, Clone)]
pub enum FontJustification {
    Left,
    Center,
    Right,
}

#[derive(Debug, PartialEq, Eq, Structural, Copy, Clone)]
pub enum FontWrapping {
    Word,
    Character,
}

/// The settings of a text run: its content, size, font, color, layout.
#[derive(Debug, Clone)]
pub struct Font {
    pub text: String,
    pub size: Dim,
    pub font_id: String,
    pub color: Color,
    pub justi: FontJustification,
    pub wrap: FontWrapping,
}

impl Font {
    /// Default settings for the given font: empty text, 12 pixels, black,
    /// centered, word-wrapped.
    pub fn new(font_id: String) -> (f: Font)
        ensures
            f.text@ == Seq::<char>::empty(),
            f.size == Dim::Absolute(12i64),
            f.font_id == font_id,
            f.color == (Color { r: 0u8, g: 0u8, b: 0u8, a: 255u8 }),
            f.justi == FontJustification::Center,
            f.wrap == FontWrapping::Word,
    {
        Font {
            text: String::new(),
            size: Dim::Absolute(12),
            font_id,
            color: Color::black(),
            justi: FontJustification::Center,
            wrap: FontWrapping::Word,
        }
    }

    pub fn with_size(self, size: Dim) -> (f: Font)
        ensures
            f == (Font { size, ..self }),
    {
        Font { size, ..self }
    }

    pub fn with_color(self, color: Color) -> (f: Font)
        ensures
            f == (Font { color, ..self }),
    {
        Font { color, ..self }
    }

    pub fn with_justification(self, justification: FontJustification) -> (f: Font)
        ensures
            f == (Font { justi: justification, ..self }),
    {
        Font { justi: justification, ..self }
    }

    pub fn with_wrapping(self, wrapping: FontWrapping) -> (f: Font)
        ensures
            f == (Font { wrap: wrapping, ..self }),
    {
        Font { wrap: wrapping, ..self }
    }

    /// A copy of these settings carrying the given text.
    pub fn write(&self, text: String) -> (f: Font)
        ensures
            f == (Font { text, ..*self }),
    {
        let mut res = self.duplicate();
        res.text = text;
        res
    }

    /// An exact copy.
    pub fn duplicate(&self) -> (f: Font)
        ensures
            f == *self,
    {
        Font {
            text: self.text.clone(),
            size: self.size,
            font_id: self.font_id.clone(),
            color: self.color,
            justi: self.justi,
            wrap: self.wrap,
        }
    }

    pub fn set_size(&mut self, size: Dim)
        ensures
            *final(self) == (Font { size, ..*old(self) }),
    {
        self.size = size;
    }

    pub fn set_color(&mut self, color: Color)
        ensures
            *final(self) == (Font { color, ..*old(self) }),
    {
        self.color = color;
    }

    pub fn get_text(&self) -> (t: String)
        ensures
            t == self.text,
    {
        self.text.clone()
    }

    pub fn get_size(&self) -> (s: Dim)
        ensures
            s == self.size,
    {
        self.size
    }

    pub fn get_font_id(&self) -> (id: String)
        ensures
            id == self.font_id,
    {
        self.font_id.clone()
    }

    pub fn get_color(&self) -> (c: Color)
        ensures
            c == self.color,
    {
        self.color
    }

    pub fn set_justification(&mut self, justi: FontJustification)
        ensures
            *final(self) == (Font { justi, ..*old(self) }),
    {
        self.justi = justi;
    }

    pub fn get_justification(&self) -> (j: FontJustification)
        ensures
            j == self.justi,
    {
        self.justi
    }

    pub fn set_wrapping(&mut self, wrapping: FontWrapping)
        ensures
            *final(self) == (Font { wrap: wrapping, ..*old(self) }),
    {
        self.wrap = wrapping;
    }

    pub fn get_wrapping(&self) -> (w: FontWrapping)
        ensures
            w == self.wrap,
    {
        self.wrap
    }
}

/// How a texture is mapped onto its target rectangle.
#[derive(Debug, PartialEq, Eq, Structural, Copy, Clone)]
pub enum TextureMode {
    Stretch,
    FitWidth,
    FitHeight,
    FitMin,
    FitMax,
    Tile,
}

/// A named texture with an optional pre-defined cut and a mapping mode.
#[derive(Debug, Clone)]
pub struct Texture {
    pub id: String,
    pub cut: Option<Frame>,
    pub mode: TextureMode,
}

/// Pixel bound on the dimensions entering a texture cut computation.
pub const IMG_LIMIT: i64 = 1048576;

/// The source rectangle of a texture cut: the lower corner is the origin,
/// the upper corner depends on the mode and the target aspect ratio.
pub open spec fn spec_cut(
    mode: TextureMode,
    w: int,
    h: int,
    img_w: int,
    img_h: int,
) -> (int, int) {
    let fit_h = (tdiv(w * img_w, h), img_h);
    let fit_w = (img_w, tdiv(h * img_h, w));
    match mode {
        TextureMode::FitHeight => fit_h,
        TextureMode::FitWidth => fit_w,
        TextureMode::FitMax => if w > h {
            fit_w
        } else {
            fit_h
        },
        TextureMode::FitMin => if w < h {
            fit_w
        } else {
            fit_h
        },
        _ => (img_w, img_h),
    }
}

impl Texture {
    pub fn new(id: String) -> (t: Texture)
        ensures
            t.id == id,
            t.cut == None::<Frame>,
            t.mode == TextureMode::Stretch,
    {
        Texture { id, cut: None, mode: TextureMode::Stretch }
    }

    /// An exact copy.
    pub fn duplicate(&self) -> (t: Texture)
        ensures
            t == *self,
    {
        Texture { id: self.id.clone(), cut: self.cut, mode: self.mode }
    }

    pub fn get_id(&self) -> (id: String)
        ensures
            id == self.id,
    {
        self.id.clone()
    }

    pub fn set_cut(&mut self, cut: Frame)
        ensures
            *final(self) == (Texture { cut: Some(cut), ..*old(self) }),
    {
        self.cut = Some(cut);
    }

    pub fn with_cut(self, cut: Frame) -> (t: Texture)
        ensures
            t == (Texture { cut: Some(cut), ..self }),
    {
        Texture { cut: Some(cut), ..self }
    }

    pub fn set_mode(&mut self, mode: TextureMode)
        ensures
            *final(self) == (Texture { mode, ..*old(self) }),
    {
        self.mode = mode;
    }

    pub fn with_mode(self, mode: TextureMode) -> (t: Texture)
        ensures
            t == (Texture { mode, ..self }),
    {
        Texture { mode, ..self }
    }

    /// The source rectangle to blit when this texture fills a `w` by `h`
    /// target: the whole image for `Stretch` and `Tile`, an
    /// aspect-preserving cut for the fit modes.
    pub fn get_cut(&self, w: i64, h: i64, img_w: i64, img_h: i64) -> (r: Frame)
        requires
            0 < w <= IMG_LIMIT,
            0 < h <= IMG_LIMIT,
            0 <= img_w <= IMG_LIMIT,
            0 <= img_h <= IMG_LIMIT,
        ensures
            r.p0 == (Vec2 { x: 0i64, y: 0i64 }),
            r.p1.x == spec_cut(self.mode, w as int, h as int, img_w as int, img_h as int).0,
            r.p1.y == spec_cut(self.mode, w as int, h as int, img_w as int, img_h as int).1,
    {
        proof {
            assert(0 <= w * img_w <= IMG_LIMIT * IMG_LIMIT && 0 <= h * img_h <= IMG_LIMIT
                * IMG_LIMIT) by (nonlinear_arith)
                requires
                    0 < w <= IMG_LIMIT,
                    0 < h <= IMG_LIMIT,
                    0 <= img_w <= IMG_LIMIT,
                    0 <= img_h <= IMG_LIMIT,
            ;
        }
        let fit_h_x = tdiv_i64(w * img_w, h);
        let fit_w_y = tdiv_i64(h * img_h, w);
        let p1 = match self.mode {
            TextureMode::FitHeight => Vec2 { x: fit_h_x, y: img_h },
            TextureMode::FitWidth => Vec2 { x: img_w, y: fit_w_y },
            TextureMode::FitMax => {
                if w > h {
                    Vec2 { x: img_w, y: fit_w_y }
                } else {
                    Vec2 { x: fit_h_x, y: img_h }
                }
            },
            TextureMode::FitMin => {
                if w < h {
                    Vec2 { x: img_w, y: fit_w_y }
                } else {
                    Vec2 { x: fit_h_x, y: img_h }
                }
            },
            _ => Vec2 { x: img_w, y: img_h },
        };
        Frame { p0: Vec2 { x: 0, y: 0 }, p1 }
    }
}

/// What a plane draws: a flat color, a texture, or nothing.
#[derive(Debug, Clone)]
pub enum Graphic {
    Color(Color),
    Texture(Texture),
    Nothing,
}

impl Graphic {
    /// An exact copy.
    pub fn duplicate(&self) -> (g: Graphic)
        ensures
            g == *self,
    {
        match self {
            Graphic::Color(c) => Graphic::Color(*c),
            Graphic::Texture(t) => Graphic::Texture(t.duplicate()),
            Graphic::Nothing => Graphic::Nothing,
        }
    }
}

} // verus!
