use fixed::types::I10F118;
use mandelbrot::explorer::Explorer;
use mandelbrot::high_precision::HighPrecision;
use mandelbrot::renderer::macroquad::{checked_handle_move, checked_handle_zoom, handle_move, handle_zoom, ControlKeys};
use mandelbrot::types::{Pos, Size};

fn hp(v: f64) -> HighPrecision {
    HighPrecision::from_bits(I10F118::from_num(v).to_bits())
}

fn explorer() -> Explorer {
    Explorer::new(hp(1.0), Pos { x: hp(0.0), y: hp(0.0) })
}

#[test]
fn zoom_keys() {
    let mut e = explorer();
    let keys = ControlKeys { minus: true, ..Default::default() };
    assert!(handle_zoom(&mut e, hp(0.5), &keys));
    assert_eq!(e.zoom, hp(1.5));

    let mut e = explorer();
    let keys = ControlKeys { equal: true, left_shift: true, ..Default::default() };
    assert!(handle_zoom(&mut e, hp(0.25), &keys));
    assert_eq!(e.zoom, hp(0.5));

    let mut e = explorer();
    assert!(!handle_zoom(&mut e, hp(0.25), &ControlKeys::default()));
    assert_eq!(e.zoom, hp(1.0));
}

#[test]
fn move_keys() {
    let size = Size { w: hp(2.0), h: hp(1.0) };
    let mut e = explorer();
    let keys = ControlKeys { d: true, w: true, ..Default::default() };
    assert!(handle_move(&mut e, &size, hp(0.5), &keys));
    assert_eq!(e.offset, Pos { x: hp(0.5), y: hp(-0.25) });

    let mut e = explorer();
    let keys = ControlKeys { a: true, s: true, left_shift: true, ..Default::default() };
    assert!(handle_move(&mut e, &size, hp(0.5), &keys));
    assert_eq!(e.offset, Pos { x: hp(-1.0), y: hp(0.5) });

    let mut e = explorer();
    let keys = ControlKeys { a: true, d: true, ..Default::default() };
    assert!(handle_move(&mut e, &size, hp(0.5), &keys));
    assert_eq!(e.offset, Pos { x: hp(0.0), y: hp(0.0) });

    let mut e = explorer();
    assert!(!handle_move(&mut e, &size, hp(0.5), &ControlKeys::default()));
    assert_eq!(e.offset, Pos { x: hp(0.0), y: hp(0.0) });
}

#[test]
fn checked_controls() {
    let mut e = explorer();
    let keys = ControlKeys { minus: true, ..Default::default() };
    assert_eq!(checked_handle_zoom(&mut e, hp(0.5), &keys), Some(true));
    assert_eq!(e.zoom, hp(1.5));

    let mut e = Explorer::new(hp(300.0), Pos { x: hp(0.0), y: hp(0.0) });
    assert_eq!(checked_handle_zoom(&mut e, hp(1.0), &keys), None);
    assert_eq!(e.zoom, hp(300.0));

    let size = Size { w: hp(2.0), h: hp(1.0) };
    let mut e = explorer();
    let keys = ControlKeys { d: true, w: true, ..Default::default() };
    assert_eq!(checked_handle_move(&mut e, &size, hp(0.5), &keys), Some(true));
    assert_eq!(e.offset, Pos { x: hp(0.5), y: hp(-0.25) });

    let mut e = Explorer::new(hp(1.0), Pos { x: hp(511.5), y: hp(0.0) });
    assert_eq!(checked_handle_move(&mut e, &size, hp(1.0), &keys), None);
    assert_eq!(e.offset, Pos { x: hp(511.5), y: hp(0.0) });
}
