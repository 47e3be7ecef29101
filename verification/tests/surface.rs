use ptymux::event::Action;
use ptymux::surface::{Coord, ResizeWatch, Surface};

#[test]
fn coord_from_signed_pair() {
    assert_eq!(Coord::from((80i16, 24i16)), Coord { x: 80, y: 24 });
    assert_eq!(Coord::from((0i16, 0i16)), Coord { x: 0, y: 0 });
    assert_eq!(Coord::from((-1i16, 1i16)), Coord { x: usize::MAX, y: 1 });
    assert_eq!(Coord::from((i16::MAX, i16::MIN)), Coord { x: 32767, y: i16::MIN as usize });
    assert_eq!(Coord::from((-2i16, -300i16)), Coord { x: usize::MAX - 1, y: usize::MAX - 299 });
}

#[test]
fn coord_from_reference_is_a_copy() {
    let c = Coord { x: 7, y: 9 };
    assert_eq!(Coord::from(&c), c);
}

#[test]
fn surface_from_size() {
    assert_eq!(Surface::from_size(Some((120, 40))).dimensions, Coord { x: 120, y: 40 });
    assert_eq!(Surface::from_size(None).dimensions, Coord { x: 0, y: 0 });
    assert_eq!(Surface::from_size(Some((u16::MAX, 0))).dimensions, Coord { x: 65535, y: 0 });
}

#[test]
fn surface_new_fits_sixteen_bits() {
    let s = Surface::new();
    assert!(s.dimensions.x <= 65535);
    assert!(s.dimensions.y <= 65535);
}

#[test]
fn resize_watch_asks_only_on_a_change() {
    let mut watch = ResizeWatch::new(3, Coord { x: 80, y: 24 });
    assert_eq!(watch.observe(Some((80, 24))), None);
    assert_eq!(watch.observe(None), None);
    assert_eq!(watch.seen(), Coord { x: 80, y: 24 });
    assert_eq!(watch.observe(Some((100, 24))), Some(Action::PtyResize(3, Coord { x: 100, y: 24 })));
    assert_eq!(watch.seen(), Coord { x: 100, y: 24 });
    assert_eq!(watch.observe(Some((100, 24))), None);
    assert_eq!(watch.observe(None), None);
    assert_eq!(watch.observe(Some((100, 30))), Some(Action::PtyResize(3, Coord { x: 100, y: 30 })));
    assert_eq!(watch.observe(Some((80, 24))), Some(Action::PtyResize(3, Coord { x: 80, y: 24 })));
}

#[test]
fn resize_watch_poll_names_what_it_has_seen() {
    let mut watch = ResizeWatch::new(1, Coord { x: 0, y: 0 });
    match watch.poll() {
        Some(action) => assert_eq!(action, Action::PtyResize(1, watch.seen())),
        None => assert_eq!(watch.seen(), Coord { x: 0, y: 0 }),
    }
}
