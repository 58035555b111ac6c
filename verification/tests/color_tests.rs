use ppm_canvas::color::Color;

fn test_colors() -> (Color, Color) {
    (
        Color::new(900_000, 600_000, 750_000),
        Color::new(700_000, 100_000, 250_000),
    )
}

#[test]
fn access_color_component() {
    let c = Color::new(-500_000, 400_000, 1_700_000);
    assert_eq!(c.red, -500_000);
    assert_eq!(c.green, 400_000);
    assert_eq!(c.blue, 1_700_000);
}

#[test]
fn color_add_colors() {
    let res = Color::new(1_600_000, 700_000, 1_000_000);
    let c = test_colors().0.add(test_colors().1);
    assert_eq!(c, res);
}

#[test]
fn color_sub_colors() {
    assert_eq!(
        test_colors().0.sub(test_colors().1),
        Color::new(200_000, 500_000, 500_000)
    );
}

#[test]
fn mul_scalar() {
    assert_eq!(
        Color::new(200_000, 300_000, 400_000).scale(2_000_000),
        Color::new(400_000, 600_000, 800_000)
    );
}

#[test]
fn mul_colors() {
    assert_eq!(
        test_colors().0.multiply(test_colors().1),
        Color::new(630_000, 60_000, 187_500)
    );
}

#[test]
fn add_commutes() {
    let (a, b) = test_colors();
    let ab = a.add(b);
    let ba = b.add(a);
    assert_eq!(ab.red, ba.red);
    assert_eq!(ab.green, ba.green);
    assert_eq!(ab.blue, ba.blue);
}

#[test]
fn add_scaled_by_zero_is_identity() {
    let (a, b) = test_colors();
    let zero = b.scale(0);
    assert_eq!(zero.red, 0);
    assert_eq!(zero.green, 0);
    assert_eq!(zero.blue, 0);
    let c = a.add(zero);
    assert_eq!(c.red, a.red);
    assert_eq!(c.green, a.green);
    assert_eq!(c.blue, a.blue);
}

#[test]
fn byte_triplet_clamps() {
    let c = Color::new(1_500_000, -500_000, 500_000);
    assert_eq!(c.to_byte_triplet(), (255, 0, 128));
}

#[test]
fn equality_tolerance() {
    let a = Color::new(0, 0, 0);
    assert_eq!(a, Color::new(9, -9, 0));
    assert_ne!(a, Color::new(10, 0, 0));
}

#[test]
fn pixel_token_string() {
    let c = Color::new(1_000_000, 800_000, 600_000);
    assert_eq!(c.ppm(), "255 204 153");
    assert_eq!(Color::new(0, 0, 0).ppm(), "0 0 0");
}
