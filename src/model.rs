use vstd::prelude::*;

use crate::canvas::{inside, overlay, solid_block};
use crate::geometry::Rect;
use crate::render::{all_inside, paint, Renderer};
use crate::shape::{FillRect, Shape, TextRun};

verus! {

/// Length of a backlight fade, in milliseconds.
pub const FADE_DURATION_MS: u32 = 150;

/// What the backlight driver is asked to do.
#[derive(Clone, Copy, PartialEq, Eq, Structural, Debug)]
pub enum BacklightCommand {
    /// Set the level at once.
    SetLevel { level: u8 },
    /// Fade to the level over the given time.
    Fade { level: u8, duration_ms: u32 },
}

/// Placement and colors of the fatal-error screen of one hardware variant.
#[derive(Clone, Copy, PartialEq, Eq, Structural, Debug)]
pub struct ErrorLayout {
    pub background: u8,
    pub title_area: Rect,
    pub title_color: u8,
    pub message_area: Rect,
    pub message_color: u8,
    pub footer_area: Rect,
    pub footer_color: u8,
}

impl ErrorLayout {
    /// The three text boxes are well formed, lie inside `screen` and do not overlap.
    pub open spec fn fits_screen(self, screen: Rect) -> bool {
        &&& self.title_area.wf() && self.message_area.wf() && self.footer_area.wf()
        &&& inside(self.title_area, screen.width as int, screen.height as int)
        &&& inside(self.message_area, screen.width as int, screen.height as int)
        &&& inside(self.footer_area, screen.width as int, screen.height as int)
        &&& !self.title_area.spec_is_empty() && !self.message_area.spec_is_empty()
            && !self.footer_area.spec_is_empty()
        &&& !self.title_area.spec_overlaps(self.message_area)
        &&& !self.title_area.spec_overlaps(self.footer_area)
        &&& !self.message_area.spec_overlaps(self.footer_area)
    }

    /// The pixels of the fatal-error screen on a `screen`-sized surface.
    pub open spec fn pixels(self, screen: Rect) -> Seq<Seq<u8>> {
        let bg = solid_block(screen, self.background);
        let t = overlay(bg, self.title_area, solid_block(self.title_area, self.title_color));
        let m = overlay(t, self.message_area, solid_block(self.message_area, self.message_color));
        overlay(m, self.footer_area, solid_block(self.footer_area, self.footer_color))
    }
}

/// `shapes` is the fatal-error screen: the background, then the title, message and footer
/// each in its own box.
pub open spec fn error_sequence(
    shapes: Seq<Shape>,
    screen: Rect,
    layout: ErrorLayout,
    title: Seq<char>,
    msg: Seq<char>,
    footer: Seq<char>,
) -> bool {
    &&& shapes.len() == 4
    &&& shapes[0] == Shape::Fill(FillRect { area: screen, color: layout.background })
    &&& shapes[1] matches Shape::Text(t) && t.area == layout.title_area && t.text@ == title
        && t.color == layout.title_color
    &&& shapes[2] matches Shape::Text(t) && t.area == layout.message_area && t.text@ == msg
        && t.color == layout.message_color
    &&& shapes[3] matches Shape::Text(t) && t.area == layout.footer_area && t.text@ == footer
        && t.color == layout.footer_color
}

/// The screen rectangle is anchored at the origin and well formed.
pub open spec fn screen_ok(screen: Rect) -> bool {
    screen.x == 0 && screen.y == 0 && screen.wf()
}

/// Builds the shape sequence of the fatal-error screen: the background, then the title, the
/// message and the footer.
pub fn error_shapes(screen: Rect, layout: ErrorLayout, title: &str, msg: &str, footer: &str) -> (r:
    Vec<Shape>)
    ensures
        error_sequence(r@, screen, layout, title@, msg@, footer@),
{
    let mut shapes: Vec<Shape> = Vec::new();
    shapes.push(Shape::Fill(FillRect { area: screen, color: layout.background }));
    shapes.push(
        Shape::Text(
            TextRun { area: layout.title_area, text: title.to_owned(), color: layout.title_color },
        ),
    );
    shapes.push(
        Shape::Text(
            TextRun { area: layout.message_area, text: msg.to_owned(), color: layout.message_color },
        ),
    );
    shapes.push(
        Shape::Text(
            TextRun { area: layout.footer_area, text: footer.to_owned(), color: layout.footer_color },
        ),
    );
    shapes
}

/// Renders `shapes` in order onto a fresh `screen`-sized canvas of `background`; every shape
/// has been cleaned up when this returns.
pub fn show(screen: Rect, background: u8, shapes: Vec<Shape>) -> (r: Renderer)
    requires
        screen_ok(screen),
        all_inside(shapes@, screen.width as int, screen.height as int),
    ensures
        r.wf(),
        r.canvas.spec_width() == screen.width,
        r.canvas.spec_height() == screen.height,
        r.canvas@ == paint(solid_block(screen, background), shapes@),
        r.cleaned == shapes@.len(),
        r.drawn@ == shapes@,
{
    let n = shapes.len();
    let mut renderer = Renderer::new(screen.width, screen.height, background);
    assert(Rect { x: 0, y: 0, width: screen.width, height: screen.height } == screen);
    renderer.render_all(shapes);
    assert(Seq::<Shape>::empty() + shapes@ =~= shapes@);
    renderer
}

/// Renders the fatal-error screen of a variant.
pub fn show_error(screen: Rect, layout: ErrorLayout, title: &str, msg: &str, footer: &str) -> (r:
    Renderer)
    requires
        screen_ok(screen),
        layout.fits_screen(screen),
    ensures
        r.wf(),
        r.canvas.spec_width() == screen.width,
        r.canvas.spec_height() == screen.height,
        r.canvas@ == layout.pixels(screen),
        r.cleaned == 4,
        error_sequence(r.drawn@, screen, layout, title@, msg@, footer@),
{
    let shapes = error_shapes(screen, layout, title, msg, footer);
    let ghost s = shapes@;
    assert(all_inside(s, screen.width as int, screen.height as int)) by {
        assert forall|k: int| 0 <= k < s.len() implies (#[trigger] s[k]).spec_bounds().wf()
            && inside(s[k].spec_bounds(), screen.width as int, screen.height as int) by {
            if k == 0 {
                assert(s[0].spec_bounds() == screen);
            }
        }
    }
    let r = show(screen, layout.background, shapes);
    proof {
        let bg = solid_block(screen, layout.background);
        let s1 = s.subrange(0, 1);
        let s2 = s.subrange(0, 2);
        let s3 = s.subrange(0, 3);
        assert(s1.drop_last() =~= Seq::<Shape>::empty());
        assert(s2.drop_last() =~= s1);
        assert(s3.drop_last() =~= s2);
        assert(s.drop_last() =~= s3);
        assert(overlay(bg, screen, solid_block(screen, layout.background)) =~~= bg);
        assert(s1.last() == s[0]);
        assert(paint(bg, s1.drop_last()) == bg);
        assert(s[0].apply(bg) == bg);
        assert(paint(bg, s1) == bg);
        assert(paint(bg, s2) == s[1].apply(bg));
        assert(paint(bg, s3) == s[2].apply(paint(bg, s2)));
        assert(paint(bg, s) == s[3].apply(paint(bg, s3)));
    }
    r
}

/// The device-level operations and display geometry that each hardware variant supplies.
pub trait UIFeaturesCommon {
    /// The display rectangle of the variant.
    spec fn spec_screen() -> Rect;

    spec fn spec_fadein() -> BacklightCommand;

    spec fn spec_fadeout() -> BacklightCommand;

    spec fn spec_backlight_on() -> BacklightCommand;

    /// The fatal-error screen's layout.
    spec fn spec_error_layout() -> ErrorLayout;

    /// The shapes of the second boot-stage screen.
    spec fn spec_boot_stage_2() -> Seq<Shape>;

    /// The background of every screen of the variant.
    spec fn spec_background() -> u8;

    fn screen() -> (r: Rect)
        ensures
            r == Self::spec_screen(),
            screen_ok(r),
    ;

    fn fadein() -> (r: BacklightCommand)
        ensures
            r == Self::spec_fadein(),
    ;

    fn fadeout() -> (r: BacklightCommand)
        ensures
            r == Self::spec_fadeout(),
    ;

    fn backlight_on() -> (r: BacklightCommand)
        ensures
            r == Self::spec_backlight_on(),
    ;

    /// Renders the fatal-error screen; all of its shapes are drawn and cleaned up on return.
    fn screen_fatal_error(title: &str, msg: &str, footer: &str) -> (r: Renderer)
        ensures
            Self::spec_error_layout().fits_screen(Self::spec_screen()),
            r.wf(),
            r.canvas.spec_width() == Self::spec_screen().width,
            r.canvas.spec_height() == Self::spec_screen().height,
            r.canvas@ == Self::spec_error_layout().pixels(Self::spec_screen()),
            r.cleaned == 4,
            error_sequence(
                r.drawn@,
                Self::spec_screen(),
                Self::spec_error_layout(),
                title@,
                msg@,
                footer@,
            ),
    ;

    /// Renders the second boot-stage screen.
    fn screen_boot_stage_2() -> (r: Renderer)
        ensures
            r.wf(),
            r.canvas.spec_width() == Self::spec_screen().width,
            r.canvas.spec_height() == Self::spec_screen().height,
            r.canvas@ == paint(
                solid_block(Self::spec_screen(), Self::spec_background()),
                Self::spec_boot_stage_2(),
            ),
            r.cleaned == Self::spec_boot_stage_2().len(),
            r.drawn@ == Self::spec_boot_stage_2(),
    ;
}

} // verus!
