use fixed::types::I10F118;
use mandelbrot::explorer::Explorer;
use mandelbrot::high_precision::HighPrecision;
use mandelbrot::types::{Dimensions, Pos, Size};

fn hp(v: f64) -> HighPrecision {
    HighPrecision::from_bits(I10F118::from_num(v).to_bits())
}

fn origin() -> Pos {
    Pos { x: hp(0.0), y: hp(0.0) }
}

#[test]
fn ratio_size_wide_and_tall() {
    let e = Explorer::new(hp(1.0), origin());
    let r = e.ratio_size(&Dimensions { w: 400, h: 300 });
    assert_eq!(r.w, hp(1.0));
    assert_eq!(r.h, hp(0.75));
    let r = e.ratio_size(&Dimensions { w: 300, h: 400 });
    assert_eq!(r.w, hp(0.75));
    assert_eq!(r.h, hp(1.0));
    let r = e.ratio_size(&Dimensions { w: 200, h: 200 });
    assert_eq!(r.w, hp(1.0));
    assert_eq!(r.h, hp(1.0));
    let r = e.ratio_size(&Dimensions { w: 0, h: 3 });
    assert_eq!(r.w, hp(0.0));
    assert_eq!(r.h, hp(1.0));
}

#[test]
fn ratio_size_rounds_down() {
    let e = Explorer::new(hp(1.0), origin());
    let r = e.ratio_size(&Dimensions { w: 3, h: 1 });
    let third = ((1i128 << 118) / 3) as i128;
    assert_eq!(r.h.to_bits(), third);
}

#[test]
fn view_at_zoom_one_is_the_ratio_box() {
    let e = Explorer::new(hp(1.0), origin());
    let v = e.view(&Dimensions { w: 400, h: 300 });
    assert_eq!(v.size, Size { w: hp(1.0), h: hp(0.75) });
    assert_eq!(v.start, origin());
}

#[test]
fn view_zoomed_stays_centred() {
    let e = Explorer::new(hp(2.0), Pos { x: hp(-0.5), y: hp(0.25) });
    let v = e.view(&Dimensions { w: 400, h: 300 });
    assert_eq!(v.size, Size { w: hp(2.0), h: hp(1.5) });
    assert_eq!(v.start, Pos { x: hp(-1.0), y: hp(-0.125) });
    // the centre is offset + ratio / 2 whatever the zoom
    let centre_x = v.start.x + v.size.w / hp(2.0);
    let centre_y = v.start.y + v.size.h / hp(2.0);
    assert_eq!(centre_x, hp(0.0));
    assert_eq!(centre_y, hp(0.625));
}

#[test]
fn zoom_size_and_start() {
    let e = Explorer::new(hp(0.5), origin());
    let ratio = Size { w: hp(1.0), h: hp(0.5) };
    let zoomed = e.zoom_size(&ratio);
    assert_eq!(zoomed, Size { w: hp(0.5), h: hp(0.25) });
    let start = e.start(&ratio, &zoomed);
    assert_eq!(start, Pos { x: hp(0.25), y: hp(0.125) });
}

#[test]
fn checked_view_agrees_or_refuses() {
    let e = Explorer::new(hp(2.0), Pos { x: hp(-0.5), y: hp(0.25) });
    let dims = Dimensions { w: 400, h: 300 };
    assert_eq!(e.checked_view(&dims), Some(e.view(&dims)));
    assert_eq!(e.checked_view(&Dimensions { w: 800, h: 600 }), None);
    assert_eq!(e.checked_view(&Dimensions { w: 0, h: 0 }), None);
    let far = Explorer::new(hp(-511.0), Pos { x: hp(300.0), y: hp(0.0) });
    assert_eq!(far.checked_view(&dims), None);
}
