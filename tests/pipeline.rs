use shape_render::arena::ScratchArena;
use shape_render::cache::{compute_blur, DrawingCache};
use shape_render::canvas::Canvas;
use shape_render::geometry::Rect;
use shape_render::render::Renderer;
use shape_render::shape::{Blurring, FillRect, Shape, ShapeBump, TextRun};

fn gradient(width: u16, height: u16) -> Canvas {
    let mut c = Canvas::new(width, height, 0);
    for y in 0..height {
        for x in 0..width {
            c.set_pixel(x, y, ((x * 30 + y * 7) % 256) as u8);
        }
    }
    c
}

fn snapshot(c: &Canvas) -> Vec<Vec<u8>> {
    (0..c.height())
        .map(|y| (0..c.width()).map(|x| c.pixel(x, y)).collect())
        .collect()
}

#[test]
fn rect_union_covers_both() {
    let a = Rect::new(2, 3, 4, 5);
    let b = Rect::new(-1, 6, 2, 10);
    let u = a.union(&b);
    assert_eq!(u, Rect::new(-1, 3, 7, 13));
    assert!(u.contains_rect(&a));
    assert!(u.contains_rect(&b));
}

#[test]
fn rect_union_ignores_empty() {
    let a = Rect::new(2, 3, 4, 5);
    let e = Rect::new(100, 100, 0, 7);
    assert_eq!(a.union(&e), a);
    assert_eq!(e.union(&a), a);
}

#[test]
fn rect_overlap_and_containment() {
    let a = Rect::new(0, 0, 10, 10);
    assert!(a.overlaps(&Rect::new(9, 9, 5, 5)));
    assert!(!a.overlaps(&Rect::new(10, 0, 5, 5)));
    assert!(!a.overlaps(&Rect::new(2, 2, 0, 5)));
    assert!(a.contains_rect(&Rect::new(0, 0, 10, 10)));
    assert!(!a.contains_rect(&Rect::new(1, 1, 10, 1)));
    assert!(a.contains_rect(&Rect::new(50, 50, 0, 0)));
}

#[test]
fn canvas_new_and_set_pixel() {
    let mut c = Canvas::new(3, 2, 9);
    assert_eq!(snapshot(&c), vec![vec![9, 9, 9], vec![9, 9, 9]]);
    c.set_pixel(2, 1, 4);
    assert_eq!(snapshot(&c), vec![vec![9, 9, 9], vec![9, 9, 4]]);
    assert_eq!(c.bounds(), Rect::new(0, 0, 3, 2));
}

#[test]
fn canvas_write_block_only_inside_area() {
    let mut c = Canvas::new(4, 3, 0);
    c.write_block(Rect::new(1, 1, 2, 2), &vec![vec![1, 2], vec![3, 4]]);
    assert_eq!(snapshot(&c), vec![vec![0, 0, 0, 0], vec![0, 1, 2, 0], vec![0, 3, 4, 0]]);
}

#[test]
fn blur_box_mean_exact_values() {
    let mut c = Canvas::new(3, 1, 0);
    c.set_pixel(1, 0, 30);
    c.set_pixel(2, 0, 60);
    let b = compute_blur(&c, Rect::new(0, 0, 3, 1), 1);
    // windows clipped to the area: [0,30] [0,30,60] [30,60]
    assert_eq!(b, vec![vec![15, 30, 45]]);
}

#[test]
fn blur_radius_zero_is_identity() {
    let mut r = Renderer::new(8, 6, 0);
    r.canvas = gradient(8, 6);
    let before = snapshot(&r.canvas);
    Blurring::new(Rect::new(1, 1, 6, 4), 0).render(&mut r);
    assert_eq!(snapshot(&r.canvas), before);
    assert_eq!(r.cleaned, 1);
    assert_eq!(r.dirty, Rect::new(1, 1, 6, 4));
}

#[test]
fn blur_positive_radius_changes_non_uniform_area() {
    let mut r = Renderer::new(8, 6, 0);
    r.canvas = gradient(8, 6);
    let before = snapshot(&r.canvas);
    let area = Rect::new(1, 1, 6, 4);
    Blurring::new(area, 2).render(&mut r);
    let after = snapshot(&r.canvas);
    let mut changed_inside = false;
    for y in 0..6usize {
        for x in 0..8usize {
            let inside = (1..7).contains(&x) && (1..5).contains(&y);
            if inside {
                changed_inside |= after[y][x] != before[y][x];
            } else {
                assert_eq!(after[y][x], before[y][x]);
            }
        }
    }
    assert!(changed_inside);
}

#[test]
fn blur_uniform_area_unchanged() {
    let mut r = Renderer::new(5, 5, 77);
    Blurring::new(Rect::new(0, 0, 5, 5), 3).render(&mut r);
    assert_eq!(snapshot(&r.canvas), vec![vec![77u8; 5]; 5]);
}

#[test]
fn cache_second_lookup_reuses_result() {
    let c = gradient(6, 4);
    let mut cache = DrawingCache::new();
    let area = Rect::new(0, 1, 6, 2);
    let first = cache.get_or_compute(&c, area, 1);
    assert_eq!(cache.computed(), 1);
    let second = cache.get_or_compute(&c, area, 1);
    assert_eq!(first, second);
    assert_eq!(cache.computed(), 1);
    assert_eq!(cache.len(), 1);
    let other = cache.get_or_compute(&c, area, 2);
    assert_eq!(cache.computed(), 2);
    assert_eq!(other, compute_blur(&c, area, 2));
}

#[test]
fn cache_invalidate_drops_only_overlapping() {
    let c = gradient(6, 6);
    let mut cache = DrawingCache::new();
    cache.get_or_compute(&c, Rect::new(0, 0, 3, 3), 1);
    cache.get_or_compute(&c, Rect::new(3, 3, 3, 3), 1);
    cache.invalidate(Rect::new(0, 0, 2, 2));
    assert_eq!(cache.len(), 1);
    cache.get_or_compute(&c, Rect::new(3, 3, 3, 3), 1);
    assert_eq!(cache.computed(), 2);
    cache.clear();
    assert_eq!(cache.len(), 0);
}

#[test]
fn render_follows_sequence_order() {
    let a = Rect::new(0, 0, 3, 3);
    let b = Rect::new(1, 1, 3, 3);
    let mut r1 = Renderer::new(5, 5, 0);
    r1.render_all(vec![
        Shape::Fill(FillRect { area: a, color: 10 }),
        Shape::Fill(FillRect { area: b, color: 20 }),
    ]);
    let mut r2 = Renderer::new(5, 5, 0);
    r2.render_all(vec![
        Shape::Fill(FillRect { area: b, color: 20 }),
        Shape::Fill(FillRect { area: a, color: 10 }),
    ]);
    assert_eq!(r1.canvas.pixel(2, 2), 20);
    assert_eq!(r2.canvas.pixel(2, 2), 10);
    assert_eq!(r1.canvas.pixel(0, 0), 10);
    assert_eq!(r1.canvas.pixel(3, 3), 20);
    assert_eq!(r1.dirty, Rect::new(0, 0, 4, 4));
    assert_eq!(r1.cleaned, 2);
}

#[test]
fn render_cleans_up_empty_shape() {
    let mut r = Renderer::new(4, 4, 1);
    r.render_all(vec![
        Shape::Blur(Blurring::new(Rect::new(2, 2, 0, 0), 4)),
        Shape::Text(TextRun { area: Rect::new(0, 0, 2, 1), text: String::from("hi"), color: 5 }),
    ]);
    assert_eq!(r.cleaned, 2);
    assert_eq!(r.canvas.pixel(1, 0), 5);
    assert_eq!(r.canvas.pixel(2, 0), 1);
}

#[test]
fn arena_fills_then_fails_then_resets() {
    let mut arena = ScratchArena::new(10);
    assert_eq!(arena.reserve(4), Some(0));
    assert_eq!(arena.reserve(4), Some(4));
    assert_eq!(arena.reserve(4), None);
    assert_eq!(arena.level(), 8);
    assert_eq!(arena.reserve(2), Some(8));
    assert_eq!(arena.reserve(1), None);
    arena.reset();
    assert_eq!(arena.level(), 0);
    assert_eq!(arena.reserve(4), Some(0));
}

#[test]
fn arena_retains_exactly_capacity_over_size() {
    let s = std::mem::size_of::<Shape>();
    let mut arena = ScratchArena::new(3 * s);
    for i in 0..3 {
        let slot = Blurring::new(Rect::new(i as i16, 0, 2, 2), i).clone_into_arena(&mut arena);
        assert_eq!(slot, Some(i));
    }
    assert_eq!(Blurring::new(Rect::new(0, 0, 1, 1), 1).clone_into_arena(&mut arena), None);
    assert_eq!(arena.len(), 3);
    assert_eq!(arena.level(), 3 * s);
    arena.reset();
    assert_eq!(arena.level(), 0);
    assert_eq!(arena.len(), 0);
    assert!(arena.get(0).is_none());
    assert_eq!(Blurring::new(Rect::new(0, 0, 1, 1), 1).clone_into_arena(&mut arena), Some(0));
    assert_eq!(arena.level(), s);
}

#[test]
fn clone_into_arena_keeps_bounds() {
    let area = Rect::new(3, 4, 5, 6);
    let blur = Blurring::new(area, 2);
    assert_eq!(blur.bounds(), area);
    assert_eq!(blur.bounds(), blur.bounds());
    let mut arena = ScratchArena::new(1024);
    let slot = blur.clone_into_arena(&mut arena).unwrap();
    let kept = arena.get(slot).unwrap();
    assert_eq!(kept.bounds(), area);
    match kept {
        Shape::Blur(b) => assert_eq!(b.radius, 2),
        _ => panic!("wrong variant"),
    }
}

#[test]
fn start_pass_drops_cache_and_dirty_region() {
    let mut r = Renderer::new(6, 6, 0);
    r.canvas = gradient(6, 6);
    Blurring::new(Rect::new(0, 0, 3, 3), 1).render(&mut r);
    r.cache.get_or_compute(&r.canvas, Rect::new(3, 3, 3, 3), 1);
    assert_eq!(r.cache.len(), 1);
    r.start_pass();
    assert_eq!(r.cache.len(), 0);
    assert!(r.dirty.is_empty());
    assert_eq!(r.cleaned, 1);
}

#[test]
fn clone_at_bump_keeps_bounds_until_region_is_full() {
    let bump = ShapeBump::uninit();
    let area = Rect::new(1, 2, 3, 4);
    let first = Blurring::new(area, 5).clone_at_bump(&bump).unwrap();
    assert_eq!(first.bounds(), area);
    match first {
        Shape::Blur(b) => assert_eq!(b.radius, 5),
        _ => panic!("wrong variant"),
    }
    let mut kept = 1usize;
    while Blurring::new(area, 1).clone_at_bump(&bump).is_some() {
        kept += 1;
        assert!(kept <= std::mem::size_of::<[usize; 64]>() / std::mem::size_of::<Shape>());
    }
    assert!(kept >= 1);
}

#[test]
fn blur_mixes_rows() {
    let mut c = Canvas::new(1, 2, 0);
    c.set_pixel(0, 1, 255);
    assert_eq!(compute_blur(&c, Rect::new(0, 0, 1, 2), 1), vec![vec![127], vec![127]]);
}

#[test]
fn blur_changes_source_varying_only_by_row() {
    let mut r = Renderer::new(6, 6, 0);
    for y in 0..6u16 {
        for x in 0..6u16 {
            r.canvas.set_pixel(x, y, (y * 40) as u8);
        }
    }
    let before = snapshot(&r.canvas);
    Blurring::new(Rect::new(0, 0, 6, 6), 1).render(&mut r);
    let after = snapshot(&r.canvas);
    assert_ne!(after, before);
    // top row: mean of rows 0 and 1 is 20
    assert_eq!(after[0][3], 20);
    // middle row 2: mean of rows 1, 2 and 3 is 80
    assert_eq!(after[2][3], 80);
}

#[test]
fn blur_two_dimensional_window_exact() {
    let mut c = Canvas::new(3, 3, 0);
    c.set_pixel(1, 1, 90);
    let b = compute_blur(&c, Rect::new(0, 0, 3, 3), 1);
    // corner windows hold 4 pixels, edge windows 6, the center window 9
    assert_eq!(b, vec![vec![22, 15, 22], vec![15, 10, 15], vec![22, 15, 22]]);
}
