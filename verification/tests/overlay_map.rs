use keyboard_diag::color::Rgb;
use keyboard_diag::overlay::ColorOverlay;

#[test]
fn set_get_unset_round_trip() {
    let mut overlay = ColorOverlay::new();
    assert!(overlay.is_empty());
    assert_eq!(overlay.get(0, 0), None);

    overlay.set(0, 0, Rgb::new(255, 0, 0));
    overlay.set(2, 5, Rgb::new(0, 255, 0));
    assert_eq!(overlay.get(0, 0), Some(Rgb::new(255, 0, 0)));
    assert_eq!(overlay.get(2, 5), Some(Rgb::new(0, 255, 0)));
    assert_eq!(overlay.get(5, 2), None);
    assert!(!overlay.is_empty());

    overlay.set(0, 0, Rgb::new(0, 0, 255));
    assert_eq!(overlay.get(0, 0), Some(Rgb::new(0, 0, 255)));

    overlay.unset(0, 0);
    assert_eq!(overlay.get(0, 0), None);
    assert_eq!(overlay.get(2, 5), Some(Rgb::new(0, 255, 0)));

    overlay.unset(9, 9);
    assert_eq!(overlay.get(2, 5), Some(Rgb::new(0, 255, 0)));

    overlay.clear();
    assert!(overlay.is_empty());
    assert_eq!(overlay.get(2, 5), None);
}
