use vstd::prelude::*;

use crate::geometry::Rect;

verus! {

/// The pixels of `src` inside `area` replaced by `block`, addressed relative to the
/// top-left corner of `area`; every other pixel kept.
pub open spec fn overlay(src: Seq<Seq<u8>>, area: Rect, block: Seq<Seq<u8>>) -> Seq<Seq<u8>> {
    Seq::new(
        src.len(),
        |y: int|
            Seq::new(
                src[y].len(),
                |x: int|
                    if area.has_point(x, y) {
                        block[y - area.y][x - area.x]
                    } else {
                        src[y][x]
                    },
            ),
    )
}

/// The rows of a row-major pixel block, as sequences.
pub open spec fn rows_view(v: Seq<Vec<u8>>) -> Seq<Seq<u8>> {
    v.map_values(|r: Vec<u8>| r@)
}

/// A block of `area`'s size holding one value.
pub open spec fn solid_block(area: Rect, color: u8) -> Seq<Seq<u8>> {
    Seq::new(area.height as nat, |j: int| Seq::new(area.width as nat, |i: int| color))
}

/// Every row of `block` has `width` pixels and there are `height` rows.
pub open spec fn block_shaped(block: Seq<Seq<u8>>, width: int, height: int) -> bool {
    block.len() == height && forall|j: int| 0 <= j < height ==> #[trigger] block[j].len() == width
}

/// `area` lies inside a `width` x `height` surface anchored at the origin.
pub open spec fn inside(area: Rect, width: int, height: int) -> bool {
    0 <= area.x && 0 <= area.y && area.right() <= width && area.bottom() <= height
}

/// A `width` x `height` block with every pixel set to `color`.
pub fn solid_rows(width: u16, height: u16, color: u8) -> (rows: Vec<Vec<u8>>)
    ensures
        rows_view(rows@) == solid_block(Rect { x: 0, y: 0, width, height }, color),
        rows@.len() == height,
        forall|j: int| 0 <= j < height ==> #[trigger] rows@[j]@.len() == width,
{
    let mut rows: Vec<Vec<u8>> = Vec::new();
    let mut j: u16 = 0;
    while j < height
        invariant
            j <= height,
            rows@.len() == j,
            forall|k: int| 0 <= k < j ==> #[trigger] rows@[k]@ == Seq::new(width as nat, |i: int| color),
        decreases height - j,
    {
        let mut row: Vec<u8> = Vec::new();
        let mut i: u16 = 0;
        while i < width
            invariant
                i <= width,
                row@ == Seq::new(i as nat, |k: int| color),
            decreases width - i,
        {
            row.push(color);
            i = i + 1;
            assert(row@ =~= Seq::new(i as nat, |k: int| color));
        }
        rows.push(row);
        j = j + 1;
    }
    assert(rows_view(rows@) =~= solid_block(Rect { x: 0, y: 0, width, height }, color));
    rows
}

/// An off-screen or on-screen pixel surface of 8-bit intensities, stored row by row.
pub struct Canvas {
    width: u16,
    height: u16,
    rows: Vec<Vec<u8>>,
}

impl View for Canvas {
    type V = Seq<Seq<u8>>;

    closed spec fn view(&self) -> Seq<Seq<u8>> {
        self.rows@.map_values(|r: Vec<u8>| r@)
    }
}

impl Canvas {
    pub closed spec fn spec_width(&self) -> int {
        self.width as int
    }

    pub closed spec fn spec_height(&self) -> int {
        self.height as int
    }

    pub closed spec fn wf(&self) -> bool {
        &&& self.width <= i16::MAX
        &&& self.height <= i16::MAX
        &&& self.rows@.len() == self.height
        &&& forall|y: int| 0 <= y < self.height ==> #[trigger] self.rows@[y]@.len() == self.width
    }

    pub proof fn lemma_shape(&self)
        requires
            self.wf(),
        ensures
            block_shaped(self@, self.spec_width(), self.spec_height()),
            0 <= self.spec_width() <= i16::MAX,
            0 <= self.spec_height() <= i16::MAX,
    {
    }

    /// A `width` x `height` surface with every pixel set to `color`.
    pub fn new(width: u16, height: u16, color: u8) -> (c: Canvas)
        requires
            width <= i16::MAX,
            height <= i16::MAX,
        ensures
            c.wf(),
            c.spec_width() == width,
            c.spec_height() == height,
            c@ == solid_block(Rect { x: 0, y: 0, width, height }, color),
    {
        let rows = solid_rows(width, height, color);
        let c = Canvas { width, height, rows };
        assert(c@ =~= solid_block(Rect { x: 0, y: 0, width, height }, color));
        c
    }

    pub fn width(&self) -> (r: u16)
        ensures
            r == self.spec_width(),
    {
        self.width
    }

    pub fn height(&self) -> (r: u16)
        ensures
            r == self.spec_height(),
    {
        self.height
    }

    /// The rectangle that the whole surface occupies.
    pub fn bounds(&self) -> (r: Rect)
        requires
            self.wf(),
        ensures
            r == (Rect { x: 0, y: 0, width: self.spec_width() as u16, height: self.spec_height() as u16 }),
            r.wf(),
    {
        Rect { x: 0, y: 0, width: self.width, height: self.height }
    }

    pub fn pixel(&self, x: u16, y: u16) -> (r: u8)
        requires
            self.wf(),
            x < self.spec_width(),
            y < self.spec_height(),
        ensures
            r == self@[y as int][x as int],
    {
        self.rows[y as usize][x as usize]
    }

    /// One row of pixels.
    pub fn row(&self, y: u16) -> (r: &Vec<u8>)
        requires
            self.wf(),
            y < self.spec_height(),
        ensures
            r@ == self@[y as int],
            r@.len() == self.spec_width(),
    {
        &self.rows[y as usize]
    }

    pub fn set_pixel(&mut self, x: u16, y: u16, v: u8)
        requires
            old(self).wf(),
            x < old(self).spec_width(),
            y < old(self).spec_height(),
        ensures
            final(self).wf(),
            final(self).spec_width() == old(self).spec_width(),
            final(self).spec_height() == old(self).spec_height(),
            final(self)@ == old(self)@.update(y as int, old(self)@[y as int].update(x as int, v)),
    {
        let ghost before = self@;
        let mut row = self.rows[y as usize].clone();
        row.set(x as usize, v);
        self.rows.set(y as usize, row);
        assert(self@ =~= before.update(y as int, before[y as int].update(x as int, v)));
    }

    /// Replaces the pixels inside `area` by `block`.
    pub fn write_block(&mut self, area: Rect, block: &Vec<Vec<u8>>)
        requires
            old(self).wf(),
            area.wf(),
            inside(area, old(self).spec_width(), old(self).spec_height()),
            block@.len() == area.height,
            forall|j: int| 0 <= j < area.height ==> #[trigger] block@[j]@.len() == area.width,
        ensures
            final(self).wf(),
            final(self).spec_width() == old(self).spec_width(),
            final(self).spec_height() == old(self).spec_height(),
            final(self)@ == overlay(old(self)@, area, rows_view(block@)),
    {
        let ghost src = self@;
        let ghost blk = rows_view(block@);
        let mut j: u16 = 0;
        proof {
            self.lemma_shape();
        }
        assert(self@ =~~= overlay(src, Rect { height: 0, ..area }, blk));
        while j < area.height
            invariant
                self.wf(),
                self.width == old(self).width,
                self.height == old(self).height,
                j <= area.height,
                area.wf(),
                inside(area, self.width as int, self.height as int),
                src == old(self)@,
                block_shaped(src, self.width as int, self.height as int),
                blk == rows_view(block@),
                block@.len() == area.height,
                forall|jj: int| 0 <= jj < area.height ==> #[trigger] block@[jj]@.len() == area.width,
                self@ == overlay(src, Rect { height: j, ..area }, blk),
            decreases area.height - j,
        {
            let y: usize = (area.y as i32 + j as i32) as usize;
            let mut row = self.rows[y].clone();
            let brow = &block[j as usize];
            assert(row@ == self@[y as int]);
            assert(forall|x: int| 0 <= x < self.width ==> #[trigger] row@[x] == src[y as int][x]);
            let mut i: u16 = 0;
            while i < area.width
                invariant
                    i <= area.width,
                    row@.len() == self.width,
                    brow@.len() == area.width,
                    brow@ == blk[j as int],
                    area.wf(),
                    inside(area, self.width as int, self.height as int),
                    y == area.y + j,
                    src == old(self)@,
                    block_shaped(src, self.width as int, self.height as int),
                    self@ == overlay(src, Rect { height: j, ..area }, blk),
                    j < area.height,
                    self.rows@.len() == self.height,
                    forall|x: int|
                        0 <= x < self.width ==> #[trigger] row@[x] == if area.x <= x < area.x + i {
                            blk[j as int][x - area.x]
                        } else {
                            src[y as int][x]
                        },
                decreases area.width - i,
            {
                let x: usize = (area.x as i32 + i as i32) as usize;
                row.set(x, brow[i as usize]);
                i = i + 1;
            }
            let ghost prev = self@;
            self.rows.set(y, row);
            j = j + 1;
            proof {
                let next = overlay(src, Rect { height: j, ..area }, blk);
                assert(self@ =~= prev.update(y as int, row@));
                assert(row@ =~= next[y as int]);
                assert forall|yy: int| 0 <= yy < self.height && yy != y implies #[trigger] prev[yy]
                    =~= next[yy] by {}
                assert(self@ =~= next);
            }
        }
        assert(Rect { height: area.height, ..area } == area);
    }
}

} // verus!
