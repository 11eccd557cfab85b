use fixed::types::I10F118;
use mandelbrot::high_precision::HighPrecision;
use mandelbrot::producer::naive::{checked_pixel_grid, divergence_iteration, pixel_grid, range, NaiveProducer};
use mandelbrot::producer::offset::Offset;
use mandelbrot::producer::simd::SimdProducer;
use mandelbrot::producer::threaded::ThreadedProducer;
use mandelbrot::producer::zoom::Zoom;
use mandelbrot::renderer::texture_renderer::producer::ProducerTextureRenderer;
use mandelbrot::types::{Dimensions, Pos, Size, View};

fn hp(v: f64) -> HighPrecision {
    HighPrecision::from_bits(I10F118::from_num(v).to_bits())
}

#[test]
fn naive_and_simd_producers_keep_iterations() {
    let p = NaiveProducer::<f64>::new(400);
    assert_eq!(p.max_iterations(), 400);
    assert_eq!(p.clone().max_iterations(), 400);
    let s = SimdProducer::<f32, 8>::new(123);
    assert_eq!(s.max_iterations(), 123);
    assert_eq!(s.clone().max_iterations(), 123);
}

#[test]
fn range_of_integers_and_fixed_point() {
    assert_eq!(range(3i64, 2, 4), vec![3, 5, 7, 9]);
    assert_eq!(range(3i64, 2, 0), Vec::<i64>::new());
    let r = range(hp(-1.0), hp(0.25), 5);
    assert_eq!(r, vec![hp(-1.0), hp(-0.75), hp(-0.5), hp(-0.25), hp(0.0)]);
}

#[test]
fn threaded_sections_tile_rows() {
    let p = ThreadedProducer::new(3, || 0u8);
    assert_eq!(p.thread_count(), 3);
    assert_eq!(p.section(10, 0), (0, 4));
    assert_eq!(p.section(10, 1), (4, 3));
    assert_eq!(p.section(10, 2), (7, 3));
    let p = ThreadedProducer::new(4, || 0u8);
    assert_eq!(p.section(2, 0), (0, 1));
    assert_eq!(p.section(2, 1), (1, 1));
    assert_eq!(p.section(2, 2), (2, 0));
    assert_eq!(p.section(2, 3), (2, 0));
    let mut p = ThreadedProducer::new(1, || 7u8);
    assert_eq!(p.section(600, 0), (0, 600));
    assert_eq!((p.make_producer_mut())(), 7);
}

#[test]
fn zoom_keeps_centre() {
    let mut z = Zoom::new(5u8, hp(2.0));
    assert_eq!(z.zoom(), hp(2.0));
    let size = Size { w: hp(1.0), h: hp(0.5) };
    assert_eq!(z.get_zoom_size(&size), Size { w: hp(2.0), h: hp(1.0) });
    let v = z.zoom_view(Pos { x: hp(0.0), y: hp(1.0) }, size);
    assert_eq!(v.size, Size { w: hp(2.0), h: hp(1.0) });
    assert_eq!(v.start, Pos { x: hp(-0.5), y: hp(0.75) });
    *z.zoom_mut() = hp(0.5);
    assert_eq!(z.zoom(), hp(0.5));
    assert_eq!(*z.producer_mut(), 5);
}

#[test]
fn offset_moves_start() {
    let mut o = Offset::new(1u8, Pos { x: hp(0.5), y: hp(-0.25) });
    assert_eq!(*o.offset(), Pos { x: hp(0.5), y: hp(-0.25) });
    let s = o.shifted_start(Pos { x: hp(1.0), y: hp(1.0) });
    assert_eq!(s, Pos { x: hp(1.5), y: hp(0.75) });
    o.offset_mut().x = hp(0.0);
    assert_eq!(o.offset().x, hp(0.0));
    assert_eq!(*o.producer_mut(), 1);
}

#[test]
fn producer_texture_renderer_parts() {
    let mut r = ProducerTextureRenderer::new(3u8, |v: u8| v + 1);
    assert_eq!(*r.producer_mut(), 3);
    assert_eq!((r.colorizer_mut())(4), 5);
}

#[test]
fn divergence_iteration_counts() {
    // the origin is a fixed point: inside
    assert_eq!(divergence_iteration(0.0f64, 0.0, 400, 0.0, 2.0, 4.0), 400);
    // -1 cycles between 0 and -1: inside after all iterations
    assert_eq!(divergence_iteration(-1.0f64, 0.0, 400, 0.0, 2.0, 4.0), 400);
    // 2 + 2i escapes after the third check
    assert_eq!(divergence_iteration(2.0f64, 2.0, 400, 0.0, 2.0, 4.0), 3);
    assert_eq!(divergence_iteration(2.0f32, 2.0, 400, 0.0, 2.0, 4.0), 3);
    // no iterations at all
    assert_eq!(divergence_iteration(2.0f64, 2.0, 0, 0.0, 2.0, 4.0), 1);
    assert_eq!(divergence_iteration(0.0f64, 0.0, 1, 0.0, 2.0, 4.0), 1);
    // in fixed point too
    assert_eq!(divergence_iteration(hp(2.0), hp(2.0), 400, hp(0.0), hp(2.0), hp(4.0)), 3);
    assert_eq!(divergence_iteration(hp(-1.0), hp(0.0), 50, hp(0.0), hp(2.0), hp(4.0)), 50);
}

#[test]
fn pixel_grid_steps() {
    let view = View { start: Pos { x: hp(-2.0), y: hp(-1.0) }, size: Size { w: hp(3.0), h: hp(2.0) } };
    let (xs, ys) = pixel_grid(&view, Dimensions { w: 4, h: 2 });
    assert_eq!(xs, vec![hp(-2.0), hp(-1.25), hp(-0.5), hp(0.25)]);
    assert_eq!(ys, vec![hp(-1.0), hp(0.0)]);
    assert_eq!(checked_pixel_grid(&view, Dimensions { w: 4, h: 2 }), Some((xs, ys)));
    assert_eq!(checked_pixel_grid(&view, Dimensions { w: 0, h: 2 }), None);
    assert_eq!(checked_pixel_grid(&view, Dimensions { w: 512, h: 2 }), None);
    // the point one step past the last pixel is computed too, and must fit
    let edge = View { start: Pos { x: hp(511.0), y: hp(0.0) }, size: Size { w: hp(4.0), h: hp(1.0) } };
    assert_eq!(checked_pixel_grid(&edge, Dimensions { w: 1, h: 1 }), None);
    let inner = View { start: Pos { x: hp(507.0), y: hp(0.0) }, size: Size { w: hp(4.0), h: hp(1.0) } };
    assert!(checked_pixel_grid(&inner, Dimensions { w: 1, h: 1 }).is_some());
    assert!(checked_pixel_grid(&inner, Dimensions { w: 2, h: 1 }).is_some());
    let past = View { start: Pos { x: hp(508.0), y: hp(0.0) }, size: Size { w: hp(4.0), h: hp(1.0) } };
    assert_eq!(checked_pixel_grid(&past, Dimensions { w: 1, h: 1 }), None);
}

#[test]
fn checked_zoom_and_offset() {
    let z = Zoom::new(0u8, hp(2.0));
    let size = Size { w: hp(1.0), h: hp(0.5) };
    let start = Pos { x: hp(0.0), y: hp(1.0) };
    assert_eq!(z.checked_zoom_view(start, size), Some(z.zoom_view(start, size)));
    let big = Zoom::new(0u8, hp(400.0));
    assert_eq!(big.checked_zoom_view(start, Size { w: hp(2.0), h: hp(1.0) }), None);
    let o = Offset::new(0u8, Pos { x: hp(500.0), y: hp(0.0) });
    assert_eq!(o.checked_shifted_start(Pos { x: hp(1.0), y: hp(1.0) }), Some(Pos { x: hp(501.0), y: hp(1.0) }));
    assert_eq!(o.checked_shifted_start(Pos { x: hp(20.0), y: hp(1.0) }), None);
}
