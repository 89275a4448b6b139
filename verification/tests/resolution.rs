use mistery::resolution::{ScreenResolution, ScreenResolutionRatio};

#[test]
fn test_screen_resolution_from_tuple() {
    // input, expected output
    let cases: &[((u16, u16), ScreenResolution)] = &[
        ((1920, 1080), ScreenResolution::new(16, 9, 120)),
        ((1024, 768), ScreenResolution::new(4, 3, 256)),
        ((1000, 1000), ScreenResolution::new(1, 1, 1000)),
        ((4, 3), ScreenResolution::new(4, 3, 1)),
    ];

    for (resolution, expected_result) in cases {
        let result: ScreenResolution = ScreenResolution::from_tuple(resolution);
        assert_eq!(&result, expected_result);
        assert_eq!(resolution, &(result.width(), result.height()));
    }
}

#[test]
fn new_keeps_its_arguments() {
    let resolution = ScreenResolution::new(16, 9, 80);
    assert_eq!(resolution.ratio, ScreenResolutionRatio { width: 16, height: 9 });
    assert_eq!(resolution.scale, 80);
    assert_eq!(resolution.width(), 1280);
    assert_eq!(resolution.height(), 720);
}

#[test]
fn a_ratio_in_lowest_terms_stays() {
    assert_eq!(ScreenResolution::from_tuple(&(16, 9)), ScreenResolution::new(16, 9, 1));
    assert_eq!(ScreenResolution::from_tuple(&(1, 1)), ScreenResolution::new(1, 1, 1));
    assert_eq!(ScreenResolution::from_tuple(&(7, 65535)), ScreenResolution::new(7, 65535, 1));
}

#[test]
fn the_largest_screen() {
    let resolution = ScreenResolution::from_tuple(&(65535, 65535));
    assert_eq!(resolution, ScreenResolution::new(1, 1, 65535));
    assert_eq!(resolution.width(), 65535);
    assert_eq!(resolution.height(), 65535);
    let resolution = ScreenResolution::from_tuple(&(65535, 21845));
    assert_eq!(resolution, ScreenResolution::new(3, 1, 21845));
}

#[test]
fn from_tuple_reduces_what_it_is_given() {
    // 2560 x 1440 is neither in lowest terms nor square.
    let resolution = ScreenResolution::from_tuple(&(2560, 1440));
    assert_eq!(resolution, ScreenResolution::new(16, 9, 160));
    assert_ne!(resolution.ratio, ScreenResolutionRatio { width: 2560, height: 1440 });
    let resolution = ScreenResolution::from_tuple(&(1080, 1920));
    assert_eq!(resolution, ScreenResolution::new(9, 16, 120));
}
