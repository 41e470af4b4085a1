use vstd::prelude::*;

verus! {

/// An RGBA colour, one byte per channel.
#[derive(Debug, Clone, Copy, PartialEq, Eq, Structural)]
pub struct Color {
    pub r: u8,
    pub g: u8,
    pub b: u8,
    pub a: u8,
}

impl Color {
    /// An opaque colour.
    pub fn rgb(r: u8, g: u8, b: u8) -> (c: Color)
        ensures
            c == (Color { r, g, b, a: 255 }),
    {
        Color { r, g, b, a: 255 }
    }

    /// Opaque white, the colour text starts with.
    pub fn white() -> (c: Color)
        ensures
            c == (Color { r: 255, g: 255, b: 255, a: 255 }),
    {
        Color { r: 255, g: 255, b: 255, a: 255 }
    }
}

/// Which point of the text's rectangle is moved off the anchor position.
#[derive(Debug, Clone, Copy, PartialEq, Eq, Structural)]
pub enum TextAlignment {
    Centered,
    BottomLeft,
    BottomRight,
    TopLeft,
    TopRight,
    MidLeft,
    MidRight,
    MidTop,
    ModBottom,
}

/// Offset from the anchor position of a text rectangle `w` wide and `h` high.
pub open spec fn alignment_offset(alignment: TextAlignment, w: int, h: int) -> (int, int) {
    match alignment {
        TextAlignment::Centered => (w / 2, h / 2),
        TextAlignment::BottomLeft => (0, 0),
        TextAlignment::BottomRight => (w, 0),
        TextAlignment::TopLeft => (0, h),
        TextAlignment::TopRight => (w, h),
        TextAlignment::MidLeft => (0, h / 2),
        TextAlignment::MidRight => (w, h / 2),
        TextAlignment::MidTop => (w / 2, h),
        TextAlignment::ModBottom => (w / 2, 0),
    }
}

/// How a piece of text is drawn: its colour, anchor position, per-axis scale
/// and alignment.
pub ghost struct TextLayoutView {
    pub color: Color,
    pub position: (i32, i32),
    pub size: (u32, u32),
    pub alignment: TextAlignment,
}

/// Where a rendered text surface of `surface_w` by `surface_h` pixels lands:
/// `(x, y, width, height)`, or `None` where a coordinate leaves its integer
/// type. The surface is scaled by the layout's size to place it, and the
/// placed rectangle is scaled once more to give the drawn extent.
pub open spec fn text_target(l: TextLayoutView, surface_w: u32, surface_h: u32) -> Option<(i32, i32, u32, u32)> {
    let tw = surface_w * l.size.0;
    let th = surface_h * l.size.1;
    let off = alignment_offset(l.alignment, tw, th);
    let x = l.position.0 + off.0;
    let y = l.position.1 + off.1;
    let w = tw * l.size.0;
    let h = th * l.size.1;
    if tw <= i32::MAX && th <= i32::MAX && i32::MIN <= x <= i32::MAX && i32::MIN <= y <= i32::MAX
        && w <= u32::MAX && h <= u32::MAX {
        Some((x as i32, y as i32, w as u32, h as u32))
    } else {
        None
    }
}

/// The drawing state of a text instance, apart from its font and target.
pub struct TextLayout {
    color: Color,
    position: (i32, i32),
    size: (u32, u32),
    alignment: TextAlignment,
}

impl View for TextLayout {
    type V = TextLayoutView;

    closed spec fn view(&self) -> TextLayoutView {
        TextLayoutView {
            color: self.color,
            position: self.position,
            size: self.size,
            alignment: self.alignment,
        }
    }
}

impl TextLayout {
    /// White text at the origin, unscaled and centred.
    pub fn new() -> (l: TextLayout)
        ensures
            l@ == (TextLayoutView {
                color: Color { r: 255, g: 255, b: 255, a: 255 },
                position: (0i32, 0i32),
                size: (1u32, 1u32),
                alignment: TextAlignment::Centered,
            }),
    {
        TextLayout { color: Color::white(), position: (0, 0), size: (1, 1), alignment: TextAlignment::Centered }
    }

    /// Offset of a `size.0` by `size.1` rectangle from the anchor, by alignment.
    pub fn get_offset(&self, size: (u32, u32)) -> (r: (i32, i32))
        requires
            size.0 <= i32::MAX,
            size.1 <= i32::MAX,
        ensures
            r.0 == alignment_offset(self@.alignment, size.0 as int, size.1 as int).0,
            r.1 == alignment_offset(self@.alignment, size.0 as int, size.1 as int).1,
    {
        let w = size.0 as i32;
        let h = size.1 as i32;
        match self.alignment {
            TextAlignment::Centered => (w / 2, h / 2),
            TextAlignment::BottomLeft => (0, 0),
            TextAlignment::BottomRight => (w, 0),
            TextAlignment::TopLeft => (0, h),
            TextAlignment::TopRight => (w, h),
            TextAlignment::MidLeft => (0, h / 2),
            TextAlignment::MidRight => (w, h / 2),
            TextAlignment::MidTop => (w / 2, h),
            TextAlignment::ModBottom => (w / 2, 0),
        }
    }

    /// The rectangle that a rendered surface of the given size is drawn into.
    pub fn target_rect(&self, surface_w: u32, surface_h: u32) -> (r: Option<(i32, i32, u32, u32)>)
        ensures
            r == text_target(self@, surface_w, surface_h),
    {
        let tw = surface_w.checked_mul(self.size.0);
        let th = surface_h.checked_mul(self.size.1);
        match (tw, th) {
            (Some(tw), Some(th)) => {
                if tw > i32::MAX as u32 || th > i32::MAX as u32 {
                    return None;
                }
                let off = self.get_offset((tw, th));
                let x = self.position.0.checked_add(off.0);
                let y = self.position.1.checked_add(off.1);
                let w = tw.checked_mul(self.size.0);
                let h = th.checked_mul(self.size.1);
                match (x, y, w, h) {
                    (Some(x), Some(y), Some(w), Some(h)) => Some((x, y, w, h)),
                    _ => None,
                }
            },
            _ => None,
        }
    }

    pub fn set_position(&mut self, position: (i32, i32))
        ensures
            final(self)@ == (TextLayoutView { position, ..old(self)@ }),
    {
        self.position = position;
    }

    pub fn set_size(&mut self, size: (u32, u32))
        ensures
            final(self)@ == (TextLayoutView { size, ..old(self)@ }),
    {
        self.size = size;
    }

    /// The same scale on both axes.
    pub fn set_scale(&mut self, size: u32)
        ensures
            final(self)@ == (TextLayoutView { size: (size, size), ..old(self)@ }),
    {
        self.size = (size, size);
    }

    pub fn set_color(&mut self, color: Color)
        ensures
            final(self)@ == (TextLayoutView { color, ..old(self)@ }),
    {
        self.color = color;
    }

    pub fn set_alignment(&mut self, alignment: TextAlignment)
        ensures
            final(self)@ == (TextLayoutView { alignment, ..old(self)@ }),
    {
        self.alignment = alignment;
    }

    pub fn color(&self) -> (r: Color)
        ensures
            r == self@.color,
    {
        self.color
    }

    pub fn position(&self) -> (r: (i32, i32))
        ensures
            r == self@.position,
    {
        self.position
    }

    pub fn size(&self) -> (r: (u32, u32))
        ensures
            r == self@.size,
    {
        self.size
    }

    pub fn alignment(&self) -> (r: &TextAlignment)
        ensures
            *r == self@.alignment,
    {
        &self.alignment
    }
}

/// Which parts of a layout a [`TextSettings`] replaces.
pub ghost struct TextSettingsView {
    pub color: Option<Color>,
    pub position: Option<(i32, i32)>,
    pub size: Option<(u32, u32)>,
    pub alignment: Option<TextAlignment>,
}

/// The layout after the parts that `s` sets are written over `l`.
pub open spec fn apply_settings(s: TextSettingsView, l: TextLayoutView) -> TextLayoutView {
    TextLayoutView {
        color: match s.color {
            Some(c) => c,
            None => l.color,
        },
        position: match s.position {
            Some(p) => p,
            None => l.position,
        },
        size: match s.size {
            Some(z) => z,
            None => l.size,
        },
        alignment: match s.alignment {
            Some(a) => a,
            None => l.alignment,
        },
    }
}

/// A reusable set of layout changes; each part left `None` is kept as it is
/// when the settings are loaded into a layout.
pub struct TextSettings {
    color: Option<Color>,
    position: Option<(i32, i32)>,
    size: Option<(u32, u32)>,
    alignment: Option<TextAlignment>,
}

impl View for TextSettings {
    type V = TextSettingsView;

    closed spec fn view(&self) -> TextSettingsView {
        TextSettingsView {
            color: self.color,
            position: self.position,
            size: self.size,
            alignment: self.alignment,
        }
    }
}

impl TextSettings {
    /// Settings that change nothing.
    pub fn new() -> (s: TextSettings)
        ensures
            s@ == (TextSettingsView { color: None, position: None, size: None, alignment: None }),
    {
        TextSettings { color: None, position: None, size: None, alignment: None }
    }

    pub fn set_color(&mut self, color: Option<Color>)
        ensures
            final(self)@ == (TextSettingsView { color, ..old(self)@ }),
    {
        self.color = color;
    }

    pub fn set_size(&mut self, size: Option<(u32, u32)>)
        ensures
            final(self)@ == (TextSettingsView { size, ..old(self)@ }),
    {
        self.size = size;
    }

    /// The same scale on both axes.
    pub fn set_scale(&mut self, size: u32)
        ensures
            final(self)@ == (TextSettingsView { size: Some((size, size)), ..old(self)@ }),
    {
        self.size = Some((size, size));
    }

    pub fn set_position(&mut self, position: Option<(i32, i32)>)
        ensures
            final(self)@ == (TextSettingsView { position, ..old(self)@ }),
    {
        self.position = position;
    }

    pub fn set_alignment(&mut self, alignment: Option<TextAlignment>)
        ensures
            final(self)@ == (TextSettingsView { alignment, ..old(self)@ }),
    {
        self.alignment = alignment;
    }

    /// Writes each part that these settings hold over the layout.
    pub fn load_to_instance(&self, instance: &mut TextLayout)
        ensures
            final(instance)@ == apply_settings(self@, old(instance)@),
    {
        match self.color {
            Some(color) => instance.set_color(color),
            None => {},
        }
        match self.size {
            Some(size) => instance.set_size(size),
            None => {},
        }
        match self.position {
            Some(position) => instance.set_position(position),
            None => {},
        }
        match self.alignment {
            Some(alignment) => instance.set_alignment(alignment),
            None => {},
        }
    }

    /// Settings that hold every part of the layout.
    pub fn load_from_instance(instance: &TextLayout) -> (s: TextSettings)
        ensures
            s@ == (TextSettingsView {
                color: Some(instance@.color),
                position: Some(instance@.position),
                size: Some(instance@.size),
                alignment: Some(instance@.alignment),
            }),
    {
        TextSettings {
            color: Some(instance.color()),
            position: Some(instance.position()),
            size: Some(instance.size()),
            alignment: Some(*instance.alignment()),
        }
    }
}

/// Settings taken from a layout give that layout back when loaded into any
/// other.
pub proof fn lemma_settings_round_trip(from: TextLayoutView, onto: TextLayoutView)
    ensures
        apply_settings(
            TextSettingsView {
                color: Some(from.color),
                position: Some(from.position),
                size: Some(from.size),
                alignment: Some(from.alignment),
            },
            onto,
        ) == from,
{
}

} // verus!
