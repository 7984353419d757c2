use vstd::prelude::*;

use crate::cache::{keys_after_write, DrawingCache};
use crate::canvas::{inside, Canvas};
use crate::geometry::Rect;
use crate::shape::Shape;

verus! {

/// The surface `src` after drawing `shapes` in sequence order, later over earlier.
pub open spec fn paint(src: Seq<Seq<u8>>, shapes: Seq<Shape>) -> Seq<Seq<u8>>
    decreases shapes.len(),
{
    if shapes.len() == 0 {
        src
    } else {
        shapes.last().apply(paint(src, shapes.drop_last()))
    }
}

/// Union of `start` and the bounds of every shape of `shapes`.
pub open spec fn dirty_region(start: Rect, shapes: Seq<Shape>) -> Rect
    decreases shapes.len(),
{
    if shapes.len() == 0 {
        start
    } else {
        dirty_region(start, shapes.drop_last()).spec_union(shapes.last().spec_bounds())
    }
}

/// Every shape of `shapes` has well-formed bounds inside a `width` x `height` surface.
pub open spec fn all_inside(shapes: Seq<Shape>, width: int, height: int) -> bool {
    forall|k: int|
        0 <= k < shapes.len() ==> (#[trigger] shapes[k]).spec_bounds().wf() && inside(
            shapes[k].spec_bounds(),
            width,
            height,
        )
}

/// Painting a concatenation is painting the first part and then the second over it.
pub proof fn lemma_paint_append(src: Seq<Seq<u8>>, a: Seq<Shape>, b: Seq<Shape>)
    ensures
        paint(src, a + b) == paint(paint(src, a), b),
    decreases b.len(),
{
    if b.len() == 0 {
        assert(a + b =~= a);
    } else {
        assert((a + b).drop_last() =~= a + b.drop_last());
        lemma_paint_append(src, a, b.drop_last());
    }
}

/// Composites shapes onto a canvas, one render pass at a time.
pub struct Renderer {
    pub canvas: Canvas,
    pub cache: DrawingCache,
    /// Union of the bounds of the shapes rendered so far.
    pub dirty: Rect,
    /// Number of shapes whose cleanup has run.
    pub cleaned: usize,
    /// The shapes rendered so far, in the order they were drawn.
    pub drawn: Ghost<Seq<Shape>>,
}

impl Renderer {
    pub open spec fn wf(&self) -> bool {
        &&& self.canvas.wf()
        &&& self.cache.valid_for(self.canvas@)
        &&& self.dirty.wf()
    }

    /// A renderer over a fresh `width` x `height` canvas of `background`.
    pub fn new(width: u16, height: u16, background: u8) -> (r: Renderer)
        requires
            width <= i16::MAX,
            height <= i16::MAX,
        ensures
            r.wf(),
            r.canvas.spec_width() == width,
            r.canvas.spec_height() == height,
            r.canvas@ == crate::canvas::solid_block(Rect { x: 0, y: 0, width, height }, background),
            r.cache.keys().len() == 0,
            r.dirty.spec_is_empty(),
            r.cleaned == 0,
            r.drawn@ == Seq::<Shape>::empty(),
    {
        Renderer {
            canvas: Canvas::new(width, height, background),
            cache: DrawingCache::new(),
            dirty: Rect { x: 0, y: 0, width: 0, height: 0 },
            cleaned: 0,
            drawn: Ghost(Seq::empty()),
        }
    }

    /// Begins an independent render pass: cached blurs are dropped, since the pixels they were
    /// computed from may have changed, and the dirty region starts empty.
    pub fn start_pass(&mut self)
        requires
            old(self).wf(),
        ensures
            final(self).wf(),
            final(self).canvas == old(self).canvas,
            final(self).cache.keys().len() == 0,
            final(self).dirty.spec_is_empty(),
            final(self).cleaned == old(self).cleaned,
            final(self).drawn == old(self).drawn,
    {
        self.cache.clear();
        self.dirty = Rect { x: 0, y: 0, width: 0, height: 0 };
    }

    /// Draws one shape, then runs its cleanup.
    pub fn render_shape(&mut self, shape: Shape)
        requires
            old(self).wf(),
            old(self).cleaned < usize::MAX,
            shape.spec_bounds().wf(),
            inside(shape.spec_bounds(), old(self).canvas.spec_width(), old(self).canvas.spec_height()),
        ensures
            final(self).wf(),
            final(self).canvas.spec_width() == old(self).canvas.spec_width(),
            final(self).canvas.spec_height() == old(self).canvas.spec_height(),
            final(self).canvas@ == shape.apply(old(self).canvas@),
            final(self).dirty == old(self).dirty.spec_union(shape.spec_bounds()),
            final(self).cleaned == old(self).cleaned + 1,
            final(self).drawn@ == old(self).drawn@.push(shape),
            keys_after_write(old(self).cache.keys(), final(self).cache.keys(), shape.spec_bounds()),
    {
        let ghost g = shape;
        let mut shape = shape;
        let bounds = shape.bounds();
        shape.draw(&mut self.canvas, &mut self.cache);
        shape.cleanup(&self.cache);
        self.dirty = self.dirty.union(&bounds);
        self.cleaned = self.cleaned + 1;
        self.drawn = Ghost(self.drawn@.push(g));
    }

    /// Renders `shapes` in sequence order; each shape is drawn and then cleaned up, empty
    /// ones included.
    pub fn render_all(&mut self, shapes: Vec<Shape>)
        requires
            old(self).wf(),
            old(self).cleaned + shapes@.len() <= usize::MAX,
            all_inside(shapes@, old(self).canvas.spec_width(), old(self).canvas.spec_height()),
        ensures
            final(self).wf(),
            final(self).canvas.spec_width() == old(self).canvas.spec_width(),
            final(self).canvas.spec_height() == old(self).canvas.spec_height(),
            final(self).canvas@ == paint(old(self).canvas@, shapes@),
            final(self).dirty == dirty_region(old(self).dirty, shapes@),
            final(self).cleaned == old(self).cleaned + shapes@.len(),
            final(self).drawn@ == old(self).drawn@ + shapes@,
    {
        let ghost all = shapes@;
        let ghost src = self.canvas@;
        let mut shapes = shapes;
        let mut done: usize = 0;
        assert(all.subrange(0, 0) =~= Seq::<Shape>::empty());
        while shapes.len() > 0
            invariant
                self.wf(),
                self.canvas.spec_width() == old(self).canvas.spec_width(),
                self.canvas.spec_height() == old(self).canvas.spec_height(),
                all_inside(all, self.canvas.spec_width(), self.canvas.spec_height()),
                done + shapes@.len() == all.len(),
                shapes@ == all.subrange(done as int, all.len() as int),
                self.canvas@ == paint(src, all.subrange(0, done as int)),
                self.dirty == dirty_region(old(self).dirty, all.subrange(0, done as int)),
                self.cleaned == old(self).cleaned + done,
                self.drawn@ == old(self).drawn@ + all.subrange(0, done as int),
                old(self).cleaned + all.len() <= usize::MAX,
            decreases shapes@.len(),
        {
            let ghost prefix = all.subrange(0, done as int);
            let ghost next = all.subrange(0, done + 1);
            let shape = shapes.remove(0);
            assert(shape == all[done as int]);
            assert(next.drop_last() =~= prefix);
            assert(next =~= prefix + seq![shape]);
            let ghost d0 = self.drawn@;
            self.render_shape(shape);
            proof {
                lemma_paint_append(src, prefix, seq![shape]);
                assert(seq![shape].drop_last() =~= Seq::<Shape>::empty());
                assert(old(self).drawn@ + next =~= d0.push(shape));
            }
            done = done + 1;
        }
        assert(all.subrange(0, done as int) =~= all);
    }
}

} // verus!
