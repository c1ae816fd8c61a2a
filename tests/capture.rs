use base64::Engine;
use lighthouse::capture::{
    capture_width, png_data_url, screenshot_result, take_screenshot, HideGuard, HideStyle,
    ScreenCapture, WindowStep,
};

#[test]
fn fade_hides_in_steps_and_restores_on_error() {
    let (guard, steps) = HideGuard::begin(HideStyle::Fade);
    assert_eq!(
        steps,
        vec![
            WindowStep::SetOpacity(50),
            WindowStep::Pause(80),
            WindowStep::SetOpacity(0),
            WindowStep::Pause(80)
        ]
    );
    let (back, outcome) = guard.restore::<u8>(Err(String::from("capture failed")));
    assert_eq!(
        back,
        vec![
            WindowStep::Show,
            WindowStep::SetOpacity(50),
            WindowStep::Pause(80),
            WindowStep::SetOpacity(100)
        ]
    );
    assert_eq!(outcome, Err(String::from("capture failed")));
}

#[test]
fn instant_hide_restores_on_success() {
    let (guard, steps) = HideGuard::begin(HideStyle::Instant);
    assert_eq!(steps, vec![WindowStep::Hide]);
    let (back, outcome) = guard.restore(Ok(5u8));
    assert_eq!(back, vec![WindowStep::Show, WindowStep::SetOpacity(100)]);
    assert_eq!(outcome, Ok(5));
}

#[test]
fn data_url_carries_base64_of_the_image() {
    assert_eq!(png_data_url(&vec![1, 2, 3]), "data:image/png;base64,AQID");
    assert_eq!(png_data_url(&vec![]), "data:image/png;base64,");
    assert_eq!(png_data_url(&vec![0xff, 0xee]), "data:image/png;base64,/+4=");
}

#[test]
fn screenshot_result_restores_either_way() {
    let (guard, _) = HideGuard::begin(HideStyle::Instant);
    let (back, r) = screenshot_result(guard, Ok(vec![104, 105]));
    assert_eq!(back, vec![WindowStep::Show, WindowStep::SetOpacity(100)]);
    assert_eq!(r, Ok(String::from("data:image/png;base64,aGk=")));
    let (guard, _) = HideGuard::begin(HideStyle::Fade);
    let (back, r) = screenshot_result(guard, Err(String::from("No screens found")));
    assert_eq!(back.last(), Some(&WindowStep::SetOpacity(100)));
    assert_eq!(r, Err(String::from("No screens found")));
}

#[test]
fn capture_covers_the_left_three_quarters() {
    assert_eq!(capture_width(1920), 1440);
    assert_eq!(capture_width(5), 3);
    assert_eq!(capture_width(0), 0);
    assert_eq!(capture_width(u32::MAX), 3221225471);
}

fn decode_data_url(url: &str) -> screenshots::image::RgbaImage {
    let b64 = url.strip_prefix("data:image/png;base64,").unwrap();
    let png = base64::engine::general_purpose::STANDARD.decode(b64).unwrap();
    screenshots::image::load_from_memory(&png).unwrap().to_rgba8()
}

#[test]
fn screenshot_keeps_the_left_three_quarters() {
    let (width, height) = (4u32, 2u32);
    let mut pixels = Vec::new();
    for y in 0..height {
        for x in 0..width {
            pixels.extend_from_slice(&[x as u8 * 10, y as u8 * 10, 7, 255]);
        }
    }
    let (guard, _) = HideGuard::begin(HideStyle::Instant);
    let (back, r) = take_screenshot(guard, Ok(ScreenCapture { width, height, pixels }));
    assert_eq!(back, vec![WindowStep::Show, WindowStep::SetOpacity(100)]);
    let img = decode_data_url(&r.unwrap());
    assert_eq!(img.dimensions(), (3, 2));
    assert_eq!(img.get_pixel(2, 1).0, [20, 10, 7, 255]);
    assert_eq!(img.get_pixel(0, 0).0, [0, 0, 7, 255]);
}

#[test]
fn screenshot_error_is_passed_on_and_window_restored() {
    let (guard, _) = HideGuard::begin(HideStyle::Fade);
    let (back, r) = take_screenshot(guard, Err(String::from("No screens found")));
    assert_eq!(back.first(), Some(&WindowStep::Show));
    assert_eq!(r, Err(String::from("No screens found")));
}

#[test]
fn screenshot_of_a_one_pixel_wide_screen_fails_to_encode() {
    let (guard, _) = HideGuard::begin(HideStyle::Instant);
    let capture = ScreenCapture { width: 1, height: 1, pixels: vec![1, 2, 3, 4] };
    let (back, r) = take_screenshot(guard, Ok(capture));
    assert_eq!(back, vec![WindowStep::Show, WindowStep::SetOpacity(100)]);
    assert!(r.is_err());
}
