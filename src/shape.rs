use vstd::prelude::*;

use crate::cache::{
    keys_after_write, blur_applied, blur_value, blurred_block, rect_sum, window_hi, window_lo, window_sum, DrawingCache,
};
use crate::canvas::{block_shaped, inside, overlay, rows_view, solid_block, solid_rows, Canvas};
use crate::arena::{fits, ScratchArena};
use crate::geometry::Rect;
use crate::render::Renderer;

verus! {

/// A shape for the blurring of a specified rectangle area.
pub struct Blurring {
    /// Blurred area
    pub area: Rect,
    /// Blurring kernel radius
    pub radius: usize,
}

/// A rectangle filled with one intensity.
pub struct FillRect {
    pub area: Rect,
    pub color: u8,
}

/// A run of text laid out in a box; its glyphs are rendered as a solid box of `color`.
pub struct TextRun {
    pub area: Rect,
    pub text: String,
    pub color: u8,
}

/// The closed set of drawable primitives.
pub enum Shape {
    Fill(FillRect),
    Blur(Blurring),
    Text(TextRun),
}

/// A fixed region of 64 machine words for shapes that must outlive the frame that built them; its
/// memory is reclaimed only as a whole.
pub type ShapeBump = static_alloc::Bump<[usize; 64]>;

#[verifier::external_type_specification]
#[verifier::external_body]
#[verifier::reject_recursive_types(T)]
pub struct ExBump<T>(static_alloc::Bump<T>);

/// Relies on without_alloc's `LocalAllocLeakExt::alloc_t` and `Uninit::init`: when the region
/// has room, `shape` is moved into it and a reference to it is returned.
#[verifier::external_body]
fn leak_in_bump<'s>(bump: &'s ShapeBump, shape: Shape) -> (r: Option<&'s mut Shape>)
    ensures
        r matches Some(p) ==> *p == shape,
{
    let slot = without_alloc::alloc::LocalAllocLeakExt::alloc_t::<Shape>(bump)?;
    Some(slot.uninit.init(shape))
}

/// Writes `block` into `area` and drops the cache entries that the write makes stale.
fn paint_block(canvas: &mut Canvas, cache: &mut DrawingCache, area: Rect, block: &Vec<Vec<u8>>)
    requires
        old(canvas).wf(),
        area.wf(),
        inside(area, old(canvas).spec_width(), old(canvas).spec_height()),
        block_shaped(rows_view(block@), area.width as int, area.height as int),
        old(cache).valid_for(old(canvas)@),
    ensures
        final(canvas).wf(),
        final(canvas).spec_width() == old(canvas).spec_width(),
        final(canvas).spec_height() == old(canvas).spec_height(),
        final(canvas)@ == overlay(old(canvas)@, area, rows_view(block@)),
        final(cache).valid_for(final(canvas)@),
        final(cache).spec_computed() == old(cache).spec_computed(),
        keys_after_write(old(cache).keys(), final(cache).keys(), area),
{
    proof {
        assert forall|j: int| 0 <= j < area.height implies #[trigger] block@[j]@.len()
            == area.width by {
            assert(rows_view(block@)[j] == block@[j]@);
        }
    }
    let ghost src = canvas@;
    canvas.write_block(area, block);
    cache.invalidate(area);
    assert(cache.valid_for(overlay(src, area, rows_view(block@))));
}

impl Blurring {
    pub fn new(area: Rect, radius: usize) -> (r: Self)
        ensures
            r.area == area,
            r.radius == radius,
    {
        Self { area, radius }
    }

    /// Draws the blur through `renderer`, then runs its cleanup.
    pub fn render(self, renderer: &mut Renderer)
        requires
            old(renderer).wf(),
            old(renderer).cleaned < usize::MAX,
            self.area.wf(),
            inside(self.area, old(renderer).canvas.spec_width(), old(renderer).canvas.spec_height()),
        ensures
            final(renderer).wf(),
            final(renderer).canvas.spec_width() == old(renderer).canvas.spec_width(),
            final(renderer).canvas.spec_height() == old(renderer).canvas.spec_height(),
            final(renderer).canvas@ == blur_applied(old(renderer).canvas@, self.area, self.radius as int),
            final(renderer).dirty == old(renderer).dirty.spec_union(self.area),
            final(renderer).cleaned == old(renderer).cleaned + 1,
            final(renderer).drawn@ == old(renderer).drawn@.push(
                Shape::Blur(Blurring { area: self.area, radius: self.radius }),
            ),
    {
        renderer.render_shape(Shape::Blur(self));
    }

    /// Moves a field-wise copy of the blur into `bump`; `None` when the region is exhausted.
    pub fn clone_at_bump<'s>(self, bump: &'s ShapeBump) -> (r: Option<&'s mut Shape>)
        ensures
            r matches Some(p) ==> *p == Shape::Blur(Blurring { area: self.area, radius: self.radius })
                && p.spec_bounds() == self.area,
    {
        leak_in_bump(bump, Shape::Blur(Blurring { ..self }))
    }

    /// Moves a field-wise copy of the blur into `arena`; `None` when the arena is exhausted.
    pub fn clone_into_arena(self, arena: &mut ScratchArena) -> (r: Option<usize>)
        requires
            old(arena).wf(),
        ensures
            final(arena).wf(),
            fits(
                old(arena).spec_level(),
                old(arena).spec_capacity(),
                vstd::layout::size_of::<Shape>() as int,
            ) <==> r.is_some(),
            r matches Some(slot) ==> final(arena).slots()[slot as int] == Shape::Blur(
                Blurring { area: self.area, radius: self.radius },
            ) && final(arena).slots()[slot as int].spec_bounds() == self.area,
            r.is_none() ==> final(arena).slots() == old(arena).slots(),
    {
        Shape::Blur(Blurring { ..self }).clone_into_arena(arena)
    }

    pub fn bounds(&self) -> (r: Rect)
        ensures
            r == self.area,
    {
        self.area
    }

    /// Holds no cache entry of its own: nothing to release.
    pub fn cleanup(&mut self, _cache: &DrawingCache)
        ensures
            *final(self) == *old(self),
    {
    }

    pub fn draw(&self, canvas: &mut Canvas, cache: &mut DrawingCache)
        requires
            old(canvas).wf(),
            self.area.wf(),
            inside(self.area, old(canvas).spec_width(), old(canvas).spec_height()),
            old(cache).valid_for(old(canvas)@),
        ensures
            final(canvas).wf(),
            final(canvas).spec_width() == old(canvas).spec_width(),
            final(canvas).spec_height() == old(canvas).spec_height(),
            final(canvas)@ == blur_applied(old(canvas)@, self.area, self.radius as int),
            self.radius == 0 ==> final(canvas)@ == old(canvas)@,
            final(cache).valid_for(final(canvas)@),
            keys_after_write(old(cache).keys(), final(cache).keys(), self.area),
    {
        proof {
            lemma_blur_radius_zero_identity(canvas@, self.area);
        }
        if self.area.is_empty() {
            proof {
                canvas.lemma_shape();
                lemma_overlay_empty(canvas@, self.area, blurred_block(canvas@, self.area, self.radius as int));
                let ks = cache.keys();
                assert forall|k: int| 0 <= k < ks.len() implies ks.contains(#[trigger] ks[k]) by {}
            }
            return;
        }
        let ghost before = cache.keys();
        let block = cache.get_or_compute(canvas, self.area, self.radius);
        let ghost middle = cache.keys();
        paint_block(canvas, cache, self.area, &block);
        proof {
            let after = cache.keys();
            assert(self.area.spec_overlaps(self.area));
            assert forall|k: int| 0 <= k < after.len() implies before.contains(#[trigger] after[k])
                && !after[k].0.spec_overlaps(self.area) by {
                assert(middle.contains(after[k]));
                if !before.contains(after[k]) {
                    let m = choose|m: int| 0 <= m < middle.len() && middle[m] == after[k];
                    if m < before.len() {
                        assert(middle[m] == before[m]);
                    } else {
                        assert(middle[m] == (self.area, self.radius));
                    }
                }
            }
            assert forall|k: int| 0 <= k < before.len() && !(#[trigger] before[k]).0.spec_overlaps(
                self.area,
            ) implies after.contains(before[k]) by {
                assert(middle[k] == before[k]);
            }
        }
    }
}

/// A blur of radius 0 changes no pixel.
pub proof fn lemma_blur_radius_zero_identity(src: Seq<Seq<u8>>, area: Rect)
    ensures
        Shape::Blur(Blurring { area, radius: 0 }).apply(src) == src,
        blur_applied(src, area, 0) == src,
{
    let out = blur_applied(src, area, 0);
    assert forall|y: int, x: int| 0 <= y < src.len() && 0 <= x < src[y].len() && area.has_point(
        x,
        y,
    ) implies #[trigger] out[y][x] == src[y][x] by {
        assert(window_lo(area.x as int, 0, x) == x);
        assert(window_hi(area.right(), 0, x) == x + 1);
        assert(window_lo(area.y as int, 0, y) == y);
        assert(window_hi(area.bottom(), 0, y) == y + 1);
        assert(window_sum(src[y], x, x) == 0);
        assert(window_sum(src[y], x, x + 1) == window_sum(src[y], x, x) + src[y][x]);
        assert(rect_sum(src, y, y, x, x + 1) == 0);
        assert(rect_sum(src, y, y + 1, x, x + 1) == src[y][x]);
        let v = src[y][x] as int;
        assert(v / ((y + 1 - y) * (x + 1 - x)) == v) by (nonlinear_arith);
        assert(blur_value(src, area, 0, x, y) == src[y][x]);
        let j = y - area.y;
        let i = x - area.x;
        assert(blurred_block(src, area, 0)[j][i] == blur_value(src, area, 0, area.x + i, area.y + j));
    }
    assert(out =~~= src);
}

/// Writing over an empty area leaves the surface unchanged.
pub proof fn lemma_overlay_empty(src: Seq<Seq<u8>>, area: Rect, block: Seq<Seq<u8>>)
    requires
        area.spec_is_empty(),
    ensures
        overlay(src, area, block) == src,
{
    assert(overlay(src, area, block) =~~= src);
}

fn fill_area(canvas: &mut Canvas, cache: &mut DrawingCache, area: Rect, color: u8)
    requires
        old(canvas).wf(),
        area.wf(),
        inside(area, old(canvas).spec_width(), old(canvas).spec_height()),
        old(cache).valid_for(old(canvas)@),
    ensures
        final(canvas).wf(),
        final(canvas).spec_width() == old(canvas).spec_width(),
        final(canvas).spec_height() == old(canvas).spec_height(),
        final(canvas)@ == overlay(old(canvas)@, area, solid_block(area, color)),
        final(cache).valid_for(final(canvas)@),
        keys_after_write(old(cache).keys(), final(cache).keys(), area),
{
    let block = solid_rows(area.width, area.height, color);
    assert(solid_block(Rect { x: 0, y: 0, width: area.width, height: area.height }, color)
        =~~= solid_block(area, color));
    paint_block(canvas, cache, area, &block);
}

impl Shape {
    pub open spec fn spec_bounds(&self) -> Rect {
        match self {
            Shape::Fill(f) => f.area,
            Shape::Blur(b) => b.area,
            Shape::Text(t) => t.area,
        }
    }

    /// The surface `src` after this shape has been drawn on it.
    pub open spec fn apply(&self, src: Seq<Seq<u8>>) -> Seq<Seq<u8>> {
        match self {
            Shape::Fill(f) => overlay(src, f.area, solid_block(f.area, f.color)),
            Shape::Blur(b) => blur_applied(src, b.area, b.radius as int),
            Shape::Text(t) => overlay(src, t.area, solid_block(t.area, t.color)),
        }
    }

    pub fn bounds(&self) -> (r: Rect)
        ensures
            r == self.spec_bounds(),
    {
        match self {
            Shape::Fill(f) => f.area,
            Shape::Blur(b) => b.bounds(),
            Shape::Text(t) => t.area,
        }
    }

    pub fn draw(&self, canvas: &mut Canvas, cache: &mut DrawingCache)
        requires
            old(canvas).wf(),
            self.spec_bounds().wf(),
            inside(self.spec_bounds(), old(canvas).spec_width(), old(canvas).spec_height()),
            old(cache).valid_for(old(canvas)@),
        ensures
            final(canvas).wf(),
            final(canvas).spec_width() == old(canvas).spec_width(),
            final(canvas).spec_height() == old(canvas).spec_height(),
            final(canvas)@ == self.apply(old(canvas)@),
            final(cache).valid_for(final(canvas)@),
            keys_after_write(old(cache).keys(), final(cache).keys(), self.spec_bounds()),
    {
        match self {
            Shape::Fill(f) => fill_area(canvas, cache, f.area, f.color),
            Shape::Blur(b) => b.draw(canvas, cache),
            Shape::Text(t) => fill_area(canvas, cache, t.area, t.color),
        }
    }

    /// Moves the shape into `arena`; `None` when the arena is exhausted, which callers treat
    /// as "not retained".
    pub fn clone_into_arena(self, arena: &mut ScratchArena) -> (r: Option<usize>)
        requires
            old(arena).wf(),
        ensures
            final(arena).wf(),
            fits(
                old(arena).spec_level(),
                old(arena).spec_capacity(),
                vstd::layout::size_of::<Shape>() as int,
            ) <==> r.is_some(),
            r matches Some(slot) ==> slot == old(arena).slots().len() && final(arena).slots()
                == old(arena).slots().push(self) && final(arena).slots()[slot as int].spec_bounds()
                == self.spec_bounds(),
            r.is_none() ==> final(arena).slots() == old(arena).slots(),
    {
        arena.retain(self)
    }

    /// Releases what the shape holds in the cache; none of the primitives holds anything.
    pub fn cleanup(&mut self, cache: &DrawingCache)
        ensures
            *final(self) == *old(self),
    {
        match self {
            Shape::Blur(b) => b.cleanup(cache),
            _ => {},
        }
    }
}

} // verus!
