//! The boundary to the render backend. Building the tree produces a list
//! of primitive draw commands addressed by backend-assigned identifiers;
//! a resource table maps string keys to font and image handles that the
//! backend loaded. Nothing here rasterizes: a host hands the commands to
//! its graphics stack.

use vstd::prelude::*;
use crate::geometry::{Dim, Frame, Vec2};
use crate::shared::{Color, FontJustification, FontWrapping};

verus! {

/// One primitive draw call. `center` positions are relative to the window
/// center, as the backend expects; later commands draw on top of earlier
/// ones.
#[derive(Debug, Clone)]
pub enum DrawCmd {
    /// A transparent grouping canvas.
    Canvas { id: u64, parent: Option<u64>, floating: bool },
    /// A canvas that scrolls its children.
    ScrollCanvas { id: u64, vertical: bool },
    /// A filled rectangle.
    Rect { id: u64, center: Vec2, size: Vec2, color: Color, parent: Option<u64>, floating: bool },
    /// An image blit with a source cut.
    Image {
        id: u64,
        image: u64,
        center: Vec2,
        size: Vec2,
        cut: Frame,
        parent: Option<u64>,
        floating: bool,
    },
    /// A text run.
    TextRun {
        id: u64,
        text: String,
        center: Vec2,
        color: Color,
        size: Dim,
        justi: FontJustification,
        wrap: FontWrapping,
        font: Option<u64>,
        parent: Option<u64>,
        floating: bool,
    },
}

/// A font handle together with nothing else, and an image handle together
/// with the image's pixel dimensions.
#[derive(Debug, PartialEq, Eq, Structural, Copy, Clone)]
pub struct ImageInfo {
    pub w: i64,
    pub h: i64,
    pub id: u64,
}

/// First match in an association list of font handles.
pub open spec fn spec_font_lookup(s: Seq<(String, u64)>, id: Seq<char>, k: int) -> Option<u64>
    decreases s.len() - k,
{
    if k < 0 || k >= s.len() {
        None
    } else if s[k].0@ == id {
        Some(s[k].1)
    } else {
        spec_font_lookup(s, id, k + 1)
    }
}

/// First match in an association list of image handles.
pub open spec fn spec_image_lookup(s: Seq<(String, ImageInfo)>, id: Seq<char>, k: int) -> Option<
    ImageInfo,
>
    decreases s.len() - k,
{
    if k < 0 || k >= s.len() {
        None
    } else if s[k].0@ == id {
        Some(s[k].1)
    } else {
        spec_image_lookup(s, id, k + 1)
    }
}

/// The table of loaded resources: font handles and image handles by name.
/// The host fills it with what its loaders produced; the tree only ever
/// looks names up at build time. A name added again shadows the old entry.
#[derive(Debug)]
pub struct WindowRessources {
    pub fonts: Vec<(String, u64)>,
    pub images: Vec<(String, ImageInfo)>,
}

impl WindowRessources {
    /// An empty table.
    pub fn new() -> (r: WindowRessources)
        ensures
            r.fonts@ =~= Seq::<(String, u64)>::empty(),
            r.images@ =~= Seq::<(String, ImageInfo)>::empty(),
    {
        WindowRessources { fonts: Vec::new(), images: Vec::new() }
    }

    /// Register a font handle under a name.
    pub fn add_font(&mut self, id: String, font: u64)
        ensures
            final(self).fonts@ == old(self).fonts@.insert(0, (id, font)),
            final(self).images == old(self).images,
            spec_font_lookup(final(self).fonts@, id@, 0) == Some(font),
    {
        self.fonts.insert(0, (id, font));
    }

    /// Register an image handle and its dimensions under a name.
    pub fn add_image(&mut self, id: String, image: ImageInfo)
        ensures
            final(self).images@ == old(self).images@.insert(0, (id, image)),
            final(self).fonts == old(self).fonts,
            spec_image_lookup(final(self).images@, id@, 0) == Some(image),
    {
        self.images.insert(0, (id, image));
    }

    /// The font handle registered under `id`, if any.
    pub fn font(&self, id: &String) -> (r: Option<u64>)
        ensures
            r == spec_font_lookup(self.fonts@, id@, 0),
    {
        let n = self.fonts.len();
        let mut k: usize = 0;
        while k < n
            invariant
                n == self.fonts@.len(),
                k <= n,
                spec_font_lookup(self.fonts@, id@, 0) == spec_font_lookup(
                    self.fonts@,
                    id@,
                    k as int,
                ),
            decreases n - k,
        {
            if self.fonts[k].0 == *id {
                return Some(self.fonts[k].1);
            }
            k = k + 1;
        }
        None
    }

    /// The image handle registered under `id`, if any.
    pub fn image(&self, id: &String) -> (r: Option<ImageInfo>)
        ensures
            r == spec_image_lookup(self.images@, id@, 0),
    {
        let n = self.images.len();
        let mut k: usize = 0;
        while k < n
            invariant
                n == self.images@.len(),
                k <= n,
                spec_image_lookup(self.images@, id@, 0) == spec_image_lookup(
                    self.images@,
                    id@,
                    k as int,
                ),
            decreases n - k,
        {
            if self.images[k].0 == *id {
                return Some(self.images[k].1);
            }
            k = k + 1;
        }
        None
    }
}

/// The widget-identifier well: the backend hands the tree a fresh id for
/// every widget it binds during setup.
#[derive(Debug, PartialEq, Eq, Structural, Copy, Clone)]
pub struct IdGen {
    pub next: u64,
}

impl IdGen {
    pub fn new() -> (r: IdGen)
        ensures
            r.next == 0,
    {
        IdGen { next: 0 }
    }

    /// A fresh identifier, never handed out before by this well.
    pub fn fresh(&mut self) -> (r: u64)
        requires
            old(self).next < u64::MAX,
        ensures
            r == old(self).next,
            final(self).next == old(self).next + 1,
    {
        let r = self.next;
        self.next = self.next + 1;
        r
    }
}

} // verus!
