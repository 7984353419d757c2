use vstd::prelude::*;

use crate::canvas::{block_shaped, inside, overlay, rows_view, Canvas};
use crate::geometry::Rect;

verus! {

/// Sum of `row[lo..hi]`.
pub open spec fn window_sum(row: Seq<u8>, lo: int, hi: int) -> int
    decreases hi - lo,
{
    if hi <= lo {
        0
    } else {
        window_sum(row, lo, hi - 1) + row[hi - 1]
    }
}

/// Sum of the pixels of `src` in rows `ylo..yhi` and columns `xlo..xhi`.
pub open spec fn rect_sum(src: Seq<Seq<u8>>, ylo: int, yhi: int, xlo: int, xhi: int) -> int
    decreases yhi - ylo,
{
    if yhi <= ylo {
        0
    } else {
        rect_sum(src, ylo, yhi - 1, xlo, xhi) + window_sum(src[yhi - 1], xlo, xhi)
    }
}

/// First line of the blur window of line `c`, clipped to lines from `start` on.
pub open spec fn window_lo(start: int, radius: int, c: int) -> int {
    if c - radius > start {
        c - radius
    } else {
        start
    }
}

/// One past the last line of the blur window of line `c`, clipped to lines before `end`.
pub open spec fn window_hi(end: int, radius: int, c: int) -> int {
    if c + radius + 1 < end {
        c + radius + 1
    } else {
        end
    }
}

/// Box-blurred value of pixel (`x`, `y`): the mean, rounded down, of the pixels of `area`
/// whose row and column are each within `radius` of it.
pub open spec fn blur_value(src: Seq<Seq<u8>>, area: Rect, radius: int, x: int, y: int) -> u8 {
    let xlo = window_lo(area.x as int, radius, x);
    let xhi = window_hi(area.right(), radius, x);
    let ylo = window_lo(area.y as int, radius, y);
    let yhi = window_hi(area.bottom(), radius, y);
    (rect_sum(src, ylo, yhi, xlo, xhi) / ((yhi - ylo) * (xhi - xlo))) as u8
}

/// The blurred pixels of `area` of the surface `src`, relative to the corner of `area`.
pub open spec fn blurred_block(src: Seq<Seq<u8>>, area: Rect, radius: int) -> Seq<Seq<u8>> {
    Seq::new(
        area.height as nat,
        |j: int|
            Seq::new(
                area.width as nat,
                |i: int| blur_value(src, area, radius, area.x + i, area.y + j),
            ),
    )
}

/// The surface `src` after blurring `area` with the given kernel radius.
pub open spec fn blur_applied(src: Seq<Seq<u8>>, area: Rect, radius: int) -> Seq<Seq<u8>> {
    overlay(src, area, blurred_block(src, area, radius))
}

/// The window sum reads only `row[lo..hi]`.
pub proof fn lemma_window_sum_frame(a: Seq<u8>, b: Seq<u8>, lo: int, hi: int)
    requires
        forall|k: int| lo <= k < hi ==> a[k] == b[k],
    ensures
        window_sum(a, lo, hi) == window_sum(b, lo, hi),
    decreases hi - lo,
{
    if lo < hi {
        lemma_window_sum_frame(a, b, lo, hi - 1);
    }
}

/// The rectangle sum reads only the pixels of its rectangle.
pub proof fn lemma_rect_sum_frame(
    a: Seq<Seq<u8>>,
    b: Seq<Seq<u8>>,
    ylo: int,
    yhi: int,
    xlo: int,
    xhi: int,
)
    requires
        forall|y: int, x: int| ylo <= y < yhi && xlo <= x < xhi ==> #[trigger] a[y][x] == b[y][x],
    ensures
        rect_sum(a, ylo, yhi, xlo, xhi) == rect_sum(b, ylo, yhi, xlo, xhi),
    decreases yhi - ylo,
{
    if ylo < yhi {
        lemma_rect_sum_frame(a, b, ylo, yhi - 1, xlo, xhi);
        let y = yhi - 1;
        assert forall|k: int| xlo <= k < xhi implies a[y][k] == b[y][k] by {
            assert(a[y][k] == b[y][k]);
        }
        lemma_window_sum_frame(a[y], b[y], xlo, xhi);
    }
}

/// Blurring `area` depends only on the pixels inside `area`.
pub proof fn lemma_blurred_block_frame(a: Seq<Seq<u8>>, b: Seq<Seq<u8>>, area: Rect, radius: int)
    requires
        radius >= 0,
        forall|x: int, y: int| #[trigger] area.has_point(x, y) ==> a[y][x] == b[y][x],
    ensures
        blurred_block(a, area, radius) == blurred_block(b, area, radius),
{
    assert forall|j: int, i: int| 0 <= j < area.height && 0 <= i < area.width implies
        #[trigger] blurred_block(a, area, radius)[j][i] == blurred_block(b, area, radius)[j][i] by {
        let y = area.y + j;
        let x = area.x + i;
        let xlo = window_lo(area.x as int, radius, x);
        let xhi = window_hi(area.right(), radius, x);
        let ylo = window_lo(area.y as int, radius, y);
        let yhi = window_hi(area.bottom(), radius, y);
        assert forall|yy: int, xx: int| ylo <= yy < yhi && xlo <= xx < xhi implies #[trigger] a[yy][xx]
            == b[yy][xx] by {
            assert(area.has_point(xx, yy));
        }
        lemma_rect_sum_frame(a, b, ylo, yhi, xlo, xhi);
    }
    assert(blurred_block(a, area, radius) =~~= blurred_block(b, area, radius));
}

/// Every point of `area` is a pixel of `src`.
pub open spec fn covers(src: Seq<Seq<u8>>, area: Rect) -> bool {
    &&& 0 <= area.x
    &&& 0 <= area.y
    &&& area.bottom() <= src.len()
    &&& forall|y: int| area.y <= y < area.bottom() ==> area.right() <= #[trigger] src[y].len()
}

/// Sums one row of a blur window.
fn row_sum(row: &Vec<u8>, xlo: usize, xhi: usize) -> (r: u64)
    requires
        xlo <= xhi <= row@.len(),
        xhi - xlo <= 65535,
    ensures
        r == window_sum(row@, xlo as int, xhi as int),
        r <= 255 * (xhi - xlo),
{
    let mut sum: u64 = 0;
    let mut k: usize = xlo;
    while k < xhi
        invariant
            xlo <= k <= xhi,
            xhi <= row@.len(),
            xhi - xlo <= 65535,
            sum == window_sum(row@, xlo as int, k as int),
            sum <= 255 * (k - xlo),
        decreases xhi - k,
    {
        let p: u8 = row[k];
        assert(window_sum(row@, xlo as int, k + 1) == window_sum(row@, xlo as int, k as int) + p);
        sum = sum + p as u64;
        k = k + 1;
    }
    sum
}

/// The blurred value of pixel (`x`, `y`) of `canvas`, inside `area`.
fn blur_pixel(canvas: &Canvas, area: Rect, radius: usize, x: u16, y: u16) -> (r: u8)
    requires
        canvas.wf(),
        area.wf(),
        inside(area, canvas.spec_width(), canvas.spec_height()),
        area.has_point(x as int, y as int),
    ensures
        r == blur_value(canvas@, area, radius as int, x as int, y as int),
{
    let rad: i64 = if radius > 65535 { 65535 } else { radius as i64 };
    let x64: i64 = x as i64;
    let y64: i64 = y as i64;
    let ax: i64 = area.x as i64;
    let ay: i64 = area.y as i64;
    let ar: i64 = area.x as i64 + area.width as i64;
    let ab: i64 = area.y as i64 + area.height as i64;
    let xlo: i64 = if x64 - rad > ax { x64 - rad } else { ax };
    let xhi: i64 = if x64 + rad + 1 < ar { x64 + rad + 1 } else { ar };
    let ylo: i64 = if y64 - rad > ay { y64 - rad } else { ay };
    let yhi: i64 = if y64 + rad + 1 < ab { y64 + rad + 1 } else { ab };
    assert(xlo == window_lo(area.x as int, radius as int, x as int));
    assert(xhi == window_hi(area.right(), radius as int, x as int));
    assert(ylo == window_lo(area.y as int, radius as int, y as int));
    assert(yhi == window_hi(area.bottom(), radius as int, y as int));
    let xlo: usize = xlo as usize;
    let xhi: usize = xhi as usize;
    let ylo: u16 = ylo as u16;
    let yhi: u16 = yhi as u16;
    let w: u64 = (xhi - xlo) as u64;
    proof {
        canvas.lemma_shape();
    }
    let mut sum: u64 = 0;
    let mut cnt: u64 = 0;
    let mut k: u16 = ylo;
    while k < yhi
        invariant
            canvas.wf(),
            ylo <= k <= yhi,
            yhi <= canvas.spec_height(),
            xlo < xhi <= canvas.spec_width(),
            w == xhi - xlo,
            w <= 65535,
            yhi - ylo <= 65535,
            sum == rect_sum(canvas@, ylo as int, k as int, xlo as int, xhi as int),
            cnt == (k - ylo) * w,
            sum <= 255 * cnt,
            cnt <= (k - ylo) * 65535,
        decreases yhi - k,
    {
        let row = canvas.row(k);
        let part = row_sum(row, xlo, xhi);
        assert(rect_sum(canvas@, ylo as int, k + 1, xlo as int, xhi as int) == rect_sum(
            canvas@,
            ylo as int,
            k as int,
            xlo as int,
            xhi as int,
        ) + window_sum(canvas@[k as int], xlo as int, xhi as int));
        assert((k + 1 - ylo) * w == (k - ylo) * w + w) by (nonlinear_arith);
        assert((k + 1 - ylo) * 65535 == (k - ylo) * 65535 + 65535) by (nonlinear_arith);
        assert(cnt <= 65535 * 65535) by (nonlinear_arith)
            requires
                cnt <= (k - ylo) * 65535,
                k - ylo <= 65535,
        ;
        sum = sum + part;
        cnt = cnt + w;
        k = k + 1;
    }
    assert(cnt > 0) by (nonlinear_arith)
        requires
            cnt == (yhi - ylo) * w,
            yhi > ylo,
            w > 0,
    ;
    let v: u64 = sum / cnt;
    assert(v <= 255) by (nonlinear_arith)
        requires
            sum <= 255 * cnt,
            cnt > 0,
            v == sum / cnt,
    ;
    v as u8
}

/// Computes the blurred pixels of `area` of `canvas`.
pub fn compute_blur(canvas: &Canvas, area: Rect, radius: usize) -> (r: Vec<Vec<u8>>)
    requires
        canvas.wf(),
        area.wf(),
        inside(area, canvas.spec_width(), canvas.spec_height()),
    ensures
        rows_view(r@) == blurred_block(canvas@, area, radius as int),
        block_shaped(rows_view(r@), area.width as int, area.height as int),
{
    let ghost spec_block = blurred_block(canvas@, area, radius as int);
    let mut out: Vec<Vec<u8>> = Vec::new();
    let mut j: u16 = 0;
    while j < area.height
        invariant
            canvas.wf(),
            area.wf(),
            inside(area, canvas.spec_width(), canvas.spec_height()),
            j <= area.height,
            spec_block == blurred_block(canvas@, area, radius as int),
            out@.len() == j,
            forall|jj: int| 0 <= jj < j ==> #[trigger] out@[jj]@ == spec_block[jj],
        decreases area.height - j,
    {
        let y: u16 = (area.y as i32 + j as i32) as u16;
        let mut line: Vec<u8> = Vec::new();
        let mut i: u16 = 0;
        while i < area.width
            invariant
                canvas.wf(),
                area.wf(),
                inside(area, canvas.spec_width(), canvas.spec_height()),
                i <= area.width,
                j < area.height,
                y == area.y + j,
                spec_block == blurred_block(canvas@, area, radius as int),
                line@.len() == i,
                forall|ii: int| 0 <= ii < i ==> #[trigger] line@[ii] == spec_block[j as int][ii],
            decreases area.width - i,
        {
            let x: u16 = (area.x as i32 + i as i32) as u16;
            let v = blur_pixel(canvas, area, radius, x, y);
            line.push(v);
            i = i + 1;
        }
        assert(line@ =~= spec_block[j as int]);
        out.push(line);
        j = j + 1;
    }
    assert(rows_view(out@) =~= spec_block);
    out
}

fn copy_block(b: &Vec<Vec<u8>>) -> (r: Vec<Vec<u8>>)
    ensures
        rows_view(r@) == rows_view(b@),
{
    let mut r: Vec<Vec<u8>> = Vec::new();
    let mut j: usize = 0;
    while j < b.len()
        invariant
            j <= b@.len(),
            r@.len() == j,
            forall|jj: int| 0 <= jj < j ==> #[trigger] r@[jj]@ == b@[jj]@,
        decreases b@.len() - j,
    {
        r.push(b[j].clone());
        j = j + 1;
    }
    assert(rows_view(r@) =~= rows_view(b@));
    r
}

/// The keys `after` a write over `region` are those of `before` that do not overlap it.
pub open spec fn keys_after_write(
    before: Seq<(Rect, usize)>,
    after: Seq<(Rect, usize)>,
    region: Rect,
) -> bool {
    &&& forall|k: int|
        0 <= k < after.len() ==> before.contains(#[trigger] after[k]) && !after[k].0.spec_overlaps(
            region,
        )
    &&& forall|k: int|
        0 <= k < before.len() && !(#[trigger] before[k]).0.spec_overlaps(region) ==> after.contains(
            before[k],
        )
}

/// What a lookup of (`area`, `radius`) on the surface `src` returns and does to the cache:
/// the result is the fresh blur; a held key is served without computing, a missing one is
/// computed once and kept.
pub open spec fn lookup_post(
    before: DrawingCache,
    after: DrawingCache,
    src: Seq<Seq<u8>>,
    area: Rect,
    radius: usize,
    result: Seq<Seq<u8>>,
) -> bool {
    &&& result == blurred_block(src, area, radius as int)
    &&& after.valid_for(src)
    &&& after.has_key(area, radius)
    &&& before.has_key(area, radius) ==> after.keys() == before.keys() && after.spec_computed()
        == before.spec_computed()
    &&& !before.has_key(area, radius) ==> after.keys() == before.keys().push((area, radius))
        && after.spec_computed() == if before.spec_computed() < u64::MAX {
        before.spec_computed() + 1
    } else {
        before.spec_computed() as int
    }
}

/// Two lookups of one key on an unchanged surface return the same pixels, and at most the
/// first of them computes the blur.
pub proof fn lemma_repeated_lookup(
    c0: DrawingCache,
    c1: DrawingCache,
    c2: DrawingCache,
    src: Seq<Seq<u8>>,
    area: Rect,
    radius: usize,
    r1: Seq<Seq<u8>>,
    r2: Seq<Seq<u8>>,
)
    requires
        lookup_post(c0, c1, src, area, radius, r1),
        lookup_post(c1, c2, src, area, radius, r2),
    ensures
        r1 == r2,
        c2.spec_computed() == c1.spec_computed(),
        c2.spec_computed() <= c0.spec_computed() + 1,
        c2.keys() == c1.keys(),
{
}

/// A previously computed blur of one region.
pub struct CacheEntry {
    pub area: Rect,
    pub radius: usize,
    pub data: Vec<Vec<u8>>,
}

/// Blurred regions computed during one render pass, reused while the pixels they were
/// computed from stay unchanged.
pub struct DrawingCache {
    entries: Vec<CacheEntry>,
    computed: u64,
}

impl DrawingCache {
    /// Keys currently held, as (area, radius).
    pub closed spec fn keys(&self) -> Seq<(Rect, usize)> {
        self.entries@.map_values(|e: CacheEntry| (e.area, e.radius))
    }

    /// Number of blurs computed from scratch (saturating).
    pub closed spec fn spec_computed(&self) -> u64 {
        self.computed
    }

    pub open spec fn has_key(&self, area: Rect, radius: usize) -> bool {
        self.keys().contains((area, radius))
    }

    /// Every held entry lies on `src` and equals a fresh blur of it.
    pub closed spec fn valid_for(&self, src: Seq<Seq<u8>>) -> bool {
        forall|k: int|
            0 <= k < self.entries@.len() ==> covers(src, #[trigger] self.entries@[k].area)
                && rows_view(self.entries@[k].data@) == blurred_block(
                src,
                self.entries@[k].area,
                self.entries@[k].radius as int,
            )
    }

    pub fn new() -> (c: DrawingCache)
        ensures
            c.keys() == Seq::<(Rect, usize)>::empty(),
            c.spec_computed() == 0,
            forall|src: Seq<Seq<u8>>| c.valid_for(src),
    {
        let c = DrawingCache { entries: Vec::new(), computed: 0 };
        assert(c.keys() =~= Seq::<(Rect, usize)>::empty());
        c
    }

    pub fn computed(&self) -> (r: u64)
        ensures
            r == self.spec_computed(),
    {
        self.computed
    }

    pub fn len(&self) -> (r: usize)
        ensures
            r == self.keys().len(),
    {
        self.entries.len()
    }

    /// Drops every entry; used at the boundary between two render passes.
    pub fn clear(&mut self)
        ensures
            final(self).keys() == Seq::<(Rect, usize)>::empty(),
            final(self).spec_computed() == old(self).spec_computed(),
            forall|src: Seq<Seq<u8>>| final(self).valid_for(src),
    {
        self.entries = Vec::new();
        assert(self.keys() =~= Seq::<(Rect, usize)>::empty());
    }

    /// The blurred pixels of `area`: taken from the cache when held, else computed and kept.
    pub fn get_or_compute(&mut self, canvas: &Canvas, area: Rect, radius: usize) -> (r: Vec<
        Vec<u8>,
    >)
        requires
            canvas.wf(),
            area.wf(),
            inside(area, canvas.spec_width(), canvas.spec_height()),
            old(self).valid_for(canvas@),
        ensures
            lookup_post(*old(self), *final(self), canvas@, area, radius, rows_view(r@)),
            block_shaped(rows_view(r@), area.width as int, area.height as int),
    {
        let mut k: usize = 0;
        while k < self.entries.len()
            invariant
                self.entries@ == old(self).entries@,
                self.computed == old(self).computed,
                self.valid_for(canvas@),
                k <= self.entries@.len(),
                forall|kk: int| 0 <= kk < k ==> #[trigger] self.keys()[kk] != (area, radius),
            decreases self.entries@.len() - k,
        {
            let e = &self.entries[k];
            if e.area == area && e.radius == radius {
                assert(self.keys()[k as int] == (area, radius));
                let data = copy_block(&e.data);
                proof {
                    assert(rows_view(self.entries@[k as int].data@) == blurred_block(
                        canvas@,
                        area,
                        radius as int,
                    ));
                    let b = blurred_block(canvas@, area, radius as int);
                    assert forall|jj: int| 0 <= jj < area.height implies #[trigger] b[jj].len() == area.width by {}
                }
                return data;
            }
            assert(self.keys()[k as int] != (area, radius));
            k = k + 1;
        }
        assert(!self.has_key(area, radius));
        let data = compute_blur(canvas, area, radius);
        proof {
            canvas.lemma_shape();
            assert(covers(canvas@, area));
        }
        let ghost old_keys = self.keys();
        let ghost old_entries = self.entries@;
        self.entries.push(CacheEntry { area, radius, data: copy_block(&data) });
        assert(self.keys() =~= old_keys.push((area, radius)));
        assert(self.keys()[old_keys.len() as int] == (area, radius));
        assert forall|kk: int| 0 <= kk < self.entries@.len() implies covers(
            canvas@,
            #[trigger] self.entries@[kk].area,
        ) && rows_view(self.entries@[kk].data@) == blurred_block(
            canvas@,
            self.entries@[kk].area,
            self.entries@[kk].radius as int,
        ) by {
            if kk < old_entries.len() {
                assert(self.entries@[kk] == old_entries[kk]);
            }
        }
        if self.computed < u64::MAX {
            self.computed = self.computed + 1;
        }
        data
    }

    /// Drops every entry whose area overlaps `region`, whose pixels are about to change.
    pub fn invalidate(&mut self, region: Rect)
        ensures
            final(self).spec_computed() == old(self).spec_computed(),
            keys_after_write(old(self).keys(), final(self).keys(), region),
            forall|src: Seq<Seq<u8>>| #[trigger]
                old(self).valid_for(src) ==> final(self).valid_for(src),
            forall|src: Seq<Seq<u8>>, blk: Seq<Seq<u8>>|
                old(self).valid_for(src) ==> #[trigger] final(self).valid_for(
                    overlay(src, region, blk),
                ),
    {
        let ghost old_entries = self.entries@;
        let mut k: usize = 0;
        while k < self.entries.len()
            invariant
                self.computed == old(self).computed,
                old_entries == old(self).entries@,
                k <= self.entries@.len(),
                forall|kk: int|
                    0 <= kk < self.entries@.len() ==> old_entries.contains(
                        #[trigger] self.entries@[kk],
                    ),
                forall|kk: int|
                    0 <= kk < k ==> !(#[trigger] self.entries@[kk]).area.spec_overlaps(region),
                forall|m: int|
                    0 <= m < old_entries.len() && !(#[trigger] old_entries[m]).area.spec_overlaps(
                        region,
                    ) ==> self.entries@.contains(old_entries[m]),
            decreases self.entries@.len() - k,
        {
            if self.entries[k].area.overlaps(&region) {
                let ghost prev = self.entries@;
                let ghost gone = prev[k as int];
                self.entries.remove(k);
                proof {
                    assert forall|m: int|
                        0 <= m < old_entries.len() && !(#[trigger] old_entries[m]).area.spec_overlaps(
                            region,
                        ) implies self.entries@.contains(old_entries[m]) by {
                        let idx = choose|idx: int| 0 <= idx < prev.len() && prev[idx] == old_entries[m];
                        if idx < k {
                            assert(self.entries@[idx] == old_entries[m]);
                        } else {
                            assert(idx != k);
                            assert(self.entries@[idx - 1] == old_entries[m]);
                        }
                    }
                    assert forall|kk: int| 0 <= kk < self.entries@.len() implies old_entries.contains(
                        #[trigger] self.entries@[kk],
                    ) by {
                        if kk < k {
                            assert(self.entries@[kk] == prev[kk]);
                        } else {
                            assert(self.entries@[kk] == prev[kk + 1]);
                        }
                    }
                }
            } else {
                k = k + 1;
            }
        }
        proof {
            let old_keys = old(self).keys();
            let new_keys = self.keys();
            assert forall|kk: int| 0 <= kk < new_keys.len() implies old_keys.contains(
                #[trigger] new_keys[kk],
            ) && !new_keys[kk].0.spec_overlaps(region) by {
                let e = self.entries@[kk];
                let m = choose|m: int| 0 <= m < old_entries.len() && old_entries[m] == e;
                assert(old_keys[m] == new_keys[kk]);
            }
            assert forall|m: int|
                0 <= m < old_keys.len() && !(#[trigger] old_keys[m]).0.spec_overlaps(region)
                implies new_keys.contains(old_keys[m]) by {
                let e = old_entries[m];
                assert(self.entries@.contains(e));
                let kk = choose|kk: int| 0 <= kk < self.entries@.len() && self.entries@[kk] == e;
                assert(new_keys[kk] == old_keys[m]);
            }
            assert forall|src: Seq<Seq<u8>>| #[trigger] old(self).valid_for(src) implies self.valid_for(
                src,
            ) by {
                assert forall|kk: int| 0 <= kk < self.entries@.len() implies rows_view(
                    #[trigger] self.entries@[kk].data@,
                ) == blurred_block(src, self.entries@[kk].area, self.entries@[kk].radius as int) by {
                    let e = self.entries@[kk];
                    let m = choose|m: int| 0 <= m < old_entries.len() && old_entries[m] == e;
                    assert(covers(src, old_entries[m].area));
                }
            }
            assert forall|src: Seq<Seq<u8>>, blk: Seq<Seq<u8>>|
                old(self).valid_for(src) implies #[trigger] self.valid_for(
                    overlay(src, region, blk),
                ) by {
                let dst = overlay(src, region, blk);
                assert forall|kk: int| 0 <= kk < self.entries@.len() implies covers(
                    dst,
                    #[trigger] self.entries@[kk].area,
                ) && rows_view(self.entries@[kk].data@) == blurred_block(
                    dst,
                    self.entries@[kk].area,
                    self.entries@[kk].radius as int,
                ) by {
                    let e = self.entries@[kk];
                    let m = choose|m: int| 0 <= m < old_entries.len() && old_entries[m] == e;
                    assert(covers(src, old_entries[m].area));
                    assert(!e.area.spec_overlaps(region));
                    assert forall|x: int, y: int| #[trigger] e.area.has_point(x, y) implies src[y][x]
                        == dst[y][x] by {
                        assert(!region.has_point(x, y));
                    }
                    lemma_blurred_block_frame(src, dst, e.area, e.radius as int);
                }
            }
        }
    }
}

} // verus!
