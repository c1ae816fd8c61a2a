use base64::Engine;
use vstd::prelude::*;

verus! {

/// How the main window gets out of the way of a screenshot.
#[derive(Clone, Copy, PartialEq, Eq, Structural, Debug)]
pub enum HideStyle {
    /// Hide at once, show at once (at full opacity).
    Instant,
    /// Step the opacity down to nothing, and back up afterwards.
    Fade,
}

/// One thing to do to the main window.
#[derive(Clone, Copy, PartialEq, Eq, Structural, Debug)]
pub enum WindowStep {
    Hide,
    Show,
    /// Set the opacity, in percent.
    SetOpacity(u8),
    /// Wait, in milliseconds, for the change to settle on screen.
    Pause(u32),
}

/// How the main window looks: whether it is shown, and its opacity in percent.
#[derive(Clone, Copy, PartialEq, Eq, Structural, Debug)]
pub struct Look {
    pub visible: bool,
    pub opacity: u8,
}

pub open spec fn apply_step(l: Look, s: WindowStep) -> Look {
    match s {
        WindowStep::Hide => Look { visible: false, ..l },
        WindowStep::Show => Look { visible: true, ..l },
        WindowStep::SetOpacity(p) => Look { opacity: p, ..l },
        WindowStep::Pause(_) => l,
    }
}

pub open spec fn apply_steps(l: Look, steps: Seq<WindowStep>) -> Look
    decreases steps.len(),
{
    if steps.len() == 0 {
        l
    } else {
        apply_step(apply_steps(l, steps.drop_last()), steps.last())
    }
}

/// Whether the window can be seen at all.
pub open spec fn seen(l: Look) -> bool {
    l.visible && l.opacity > 0
}

/// Whether the window is back as it normally is.
pub open spec fn fully_shown(l: Look) -> bool {
    l.visible && l.opacity == 100
}

/// Milliseconds between two opacity steps of a fade.
pub const FADE_STEP_MS: u32 = 80;

pub open spec fn hide_steps(style: HideStyle) -> Seq<WindowStep> {
    match style {
        HideStyle::Instant => seq![WindowStep::Hide],
        HideStyle::Fade => seq![
            WindowStep::SetOpacity(50),
            WindowStep::Pause(FADE_STEP_MS),
            WindowStep::SetOpacity(0),
            WindowStep::Pause(FADE_STEP_MS),
        ],
    }
}

pub open spec fn restore_steps(style: HideStyle) -> Seq<WindowStep> {
    match style {
        HideStyle::Instant => seq![WindowStep::Show, WindowStep::SetOpacity(100)],
        HideStyle::Fade => seq![
            WindowStep::Show,
            WindowStep::SetOpacity(50),
            WindowStep::Pause(FADE_STEP_MS),
            WindowStep::SetOpacity(100),
        ],
    }
}

/// Proof that the main window is out of the way. It is given up only through
/// `restore`, which hands back the steps that bring the window back whatever
/// became of the capture.
pub struct HideGuard {
    style: HideStyle,
}

impl HideGuard {
    pub closed spec fn style_spec(&self) -> HideStyle {
        self.style
    }

    /// Starts hiding the window: the steps to perform before capturing.
    pub fn begin(style: HideStyle) -> (r: (HideGuard, Vec<WindowStep>))
        ensures
            r.0.style_spec() == style,
            r.1@ == hide_steps(style),
            forall|l: Look| !seen(#[trigger] apply_steps(l, r.1@)),
    {
        let steps = match style {
            HideStyle::Instant => vec![WindowStep::Hide],
            HideStyle::Fade => vec![
                WindowStep::SetOpacity(50),
                WindowStep::Pause(FADE_STEP_MS),
                WindowStep::SetOpacity(0),
                WindowStep::Pause(FADE_STEP_MS),
            ],
        };
        proof {
            assert(steps@ =~= hide_steps(style));
            assert forall|l: Look| !seen(#[trigger] apply_steps(l, steps@)) by {
                lemma_hidden_after(style, l);
            }
        }
        (HideGuard { style }, steps)
    }

    /// Ends the hiding: the steps that bring the window back, and the outcome
    /// of the capture, passed on untouched. The steps do not depend on the
    /// outcome, so an error restores the window just as a success does.
    pub fn restore<T>(self, outcome: Result<T, String>) -> (r: (Vec<WindowStep>, Result<T, String>))
        ensures
            r.0@ == restore_steps(self.style_spec()),
            r.1 == outcome,
            forall|l: Look| fully_shown(#[trigger] apply_steps(l, r.0@)),
    {
        let steps = match self.style {
            HideStyle::Instant => vec![WindowStep::Show, WindowStep::SetOpacity(100)],
            HideStyle::Fade => vec![
                WindowStep::Show,
                WindowStep::SetOpacity(50),
                WindowStep::Pause(FADE_STEP_MS),
                WindowStep::SetOpacity(100),
            ],
        };
        proof {
            assert(steps@ =~= restore_steps(self.style));
            assert forall|l: Look| fully_shown(#[trigger] apply_steps(l, steps@)) by {
                lemma_shown_after(self.style, l);
            }
        }
        (steps, outcome)
    }
}

proof fn lemma_hidden_after(style: HideStyle, l: Look)
    ensures
        !seen(apply_steps(l, hide_steps(style))),
{
    let s = hide_steps(style);
    reveal_with_fuel(apply_steps, 5);
    if style == HideStyle::Fade {
        assert(s.drop_last().drop_last().drop_last().drop_last() =~= Seq::<WindowStep>::empty());
    } else {
        assert(s.drop_last() =~= Seq::<WindowStep>::empty());
    }
}

proof fn lemma_shown_after(style: HideStyle, l: Look)
    ensures
        fully_shown(apply_steps(l, restore_steps(style))),
{
    let s = restore_steps(style);
    reveal_with_fuel(apply_steps, 5);
    if style == HideStyle::Fade {
        assert(s.drop_last().drop_last().drop_last().drop_last() =~= Seq::<WindowStep>::empty());
        assert(s.drop_last().drop_last().drop_last().last() == WindowStep::Show);
        assert(s.last() == WindowStep::SetOpacity(100));
    } else {
        assert(s.drop_last().drop_last() =~= Seq::<WindowStep>::empty());
    }
}

/// A capture hides the window and then restores it. Whatever state the window
/// started in, it cannot be seen while the capture runs, and it ends up shown
/// at full opacity. `HideGuard::restore` hands out the same steps on success
/// and on error, so this holds on both paths.
pub proof fn lemma_capture_restores_window(style: HideStyle, start: Look)
    ensures
        !seen(apply_steps(start, hide_steps(style))),
        fully_shown(apply_steps(apply_steps(start, hide_steps(style)), restore_steps(style))),
{
    lemma_hidden_after(style, start);
    lemma_shown_after(style, apply_steps(start, hide_steps(style)));
}

/// Width of the part of the screen that is captured: the left three quarters,
/// rounded down.
pub fn capture_width(screen_width: u32) -> (r: u32)
    ensures
        r == screen_width as int * 3 / 4,
{
    (screen_width as u64 * 3 / 4) as u32
}

/// The character of the standard base64 alphabet for the six-bit value `v`.
pub open spec fn base64_digit(v: int) -> char {
    if v < 26 {
        ((v + 65) as u8) as char
    } else if v < 52 {
        ((v - 26 + 97) as u8) as char
    } else if v < 62 {
        ((v - 52 + 48) as u8) as char
    } else if v == 62 {
        '+'
    } else {
        '/'
    }
}

/// The standard base64 encoding of `bytes`: each group of three bytes becomes
/// four characters of six bits each; a last group of one or two bytes is
/// padded with zero bits and filled up to four characters with `=`.
pub open spec fn base64_of(bytes: Seq<u8>) -> Seq<char>
    decreases bytes.len(),
{
    if bytes.len() == 0 {
        Seq::empty()
    } else if bytes.len() == 1 {
        let b0 = bytes[0] as int;
        seq![base64_digit(b0 / 4), base64_digit((b0 % 4) * 16), '=', '=']
    } else if bytes.len() == 2 {
        let b0 = bytes[0] as int;
        let b1 = bytes[1] as int;
        seq![
            base64_digit(b0 / 4),
            base64_digit((b0 % 4) * 16 + b1 / 16),
            base64_digit((b1 % 16) * 4),
            '=',
        ]
    } else {
        let b0 = bytes[0] as int;
        let b1 = bytes[1] as int;
        let b2 = bytes[2] as int;
        seq![
            base64_digit(b0 / 4),
            base64_digit((b0 % 4) * 16 + b1 / 16),
            base64_digit((b1 % 16) * 4 + b2 / 64),
            base64_digit(b2 % 64),
        ] + base64_of(bytes.subrange(3, bytes.len() as int))
    }
}

/// Relies on base64's `Engine::encode` for the `STANDARD` engine: the
/// standard alphabet, with `=` padding to a multiple of four characters. It
/// panics only when that length overflows `usize`, which the bound rules out.
#[verifier::external_body]
fn encode_base64(bytes: &Vec<u8>) -> (r: String)
    requires
        bytes@.len() <= usize::MAX / 2,
    ensures
        r@ == base64_of(bytes@),
{
    base64::engine::general_purpose::STANDARD.encode(bytes)
}

pub open spec fn png_data_url_spec(png: Seq<u8>) -> Seq<char> {
    "data:image/png;base64,"@ + base64_of(png)
}

/// A `data:` URL that carries the PNG image `png`.
pub fn png_data_url(png: &Vec<u8>) -> (r: String)
    requires
        png@.len() <= usize::MAX / 2,
    ensures
        r@ == png_data_url_spec(png@),
{
    let mut url = String::from_str("data:image/png;base64,");
    let encoded = encode_base64(png);
    url.append(encoded.as_str());
    url
}

/// What a screenshot command returns, once the window is restored: the data
/// URL of the captured image, or the error that stopped the capture.
pub fn screenshot_result(guard: HideGuard, png: Result<Vec<u8>, String>) -> (r: (
    Vec<WindowStep>,
    Result<String, String>,
))
    requires
        png matches Ok(b) ==> b@.len() <= usize::MAX / 2,
    ensures
        r.0@ == restore_steps(guard.style_spec()),
        forall|l: Look| fully_shown(#[trigger] apply_steps(l, r.0@)),
        match png {
            Ok(b) => r.1 matches Ok(u) && u@ == png_data_url_spec(b@),
            Err(e) => r.1 == Err::<String, String>(e),
        },
{
    let outcome = match png {
        Ok(b) => Ok(png_data_url(&b)),
        Err(e) => Err(e),
    };
    guard.restore(outcome)
}

/// A raw screen capture: `width` by `height` pixels, row by row, four bytes
/// (red, green, blue, alpha) each.
pub struct ScreenCapture {
    pub width: u32,
    pub height: u32,
    pub pixels: Vec<u8>,
}

/// The pixels of the left `width` columns of an image `image_width` pixels
/// wide and `height` tall, row by row, four bytes each.
pub open spec fn left_columns(pixels: Seq<u8>, image_width: nat, width: nat, height: nat) -> Seq<
    u8,
> {
    Seq::new(
        4 * width * height,
        |i: int| pixels[4 * ((i / 4) / (width as int) * image_width + (i / 4) % (width as int)) + i % 4],
    )
}

/// Relies on the `image` crate (as re-exported by screenshots):
/// `ImageBuffer::from_raw` takes the pixels as they are when there are at
/// least four bytes for each of `image_width * height` pixels,
/// `imageops::crop_imm` at the origin keeps the left `width` columns and every
/// row when `width` is at most the image's width, and `SubImage::to_image`
/// copies those pixels, row by row, into a new buffer.
#[verifier::external_body]
fn crop_left(image_width: u32, height: u32, pixels: Vec<u8>, width: u32) -> (r: Option<Vec<u8>>)
    requires
        pixels@.len() == 4 * image_width * height,
        width <= image_width,
    ensures
        r.is_some(),
        r.unwrap()@ == left_columns(pixels@, image_width as nat, width as nat, height as nat),
{
    match screenshots::image::RgbaImage::from_raw(image_width, height, pixels) {
        Some(img) => Some(
            screenshots::image::imageops::crop_imm(&img, 0, 0, width, height).to_image().into_raw(),
        ),
        None => None,
    }
}

/// What the `image` crate's PNG encoder makes of an RGBA image: the PNG
/// file, or `None` where it refuses the image.
pub uninterp spec fn png_outcome(width: u32, height: u32, pixels: Seq<u8>) -> Option<Seq<u8>>;

/// Relies on the `image` crate (as re-exported by screenshots):
/// `ImageBuffer::write_to` with `ImageFormat::Png` into a buffer in memory.
/// Whether it succeeds, and the bytes it writes, depend on the image's size
/// and pixels alone.
#[verifier::external_body]
fn encode_png(width: u32, height: u32, pixels: Vec<u8>) -> (r: Result<Vec<u8>, String>)
    requires
        pixels@.len() == 4 * width * height,
    ensures
        r.is_ok() == png_outcome(width, height, pixels@).is_some(),
        r.is_ok() ==> r.unwrap()@ == png_outcome(width, height, pixels@).unwrap(),
{
    let mut bytes: Vec<u8> = Vec::new();
    let img = match screenshots::image::RgbaImage::from_raw(width, height, pixels) {
        Some(img) => img,
        None => return Err(String::new()),
    };
    let written = img.write_to(
        &mut std::io::Cursor::new(&mut bytes),
        screenshots::image::ImageFormat::Png,
    );
    match written {
        Ok(()) => Ok(bytes),
        Err(e) => Err(e.to_string()),
    }
}

/// What the encoder makes of the left three quarters of the capture `c`.
pub open spec fn screenshot_png_spec(c: ScreenCapture) -> Option<Seq<u8>> {
    let w = (c.width * 3 / 4) as u32;
    png_outcome(w, c.height, left_columns(c.pixels@, c.width as nat, w as nat, c.height as nat))
}

/// Finishes a screenshot: crops and encodes the capture, and hands back the
/// steps that bring the main window back, whether the capture, the encoding
/// or neither failed. A capture error is passed on as it is. Otherwise the
/// result is the data URL of the left three quarters of the capture, as PNG,
/// exactly when the encoder takes the image and its file is small enough to
/// write out in base64.
pub fn take_screenshot(guard: HideGuard, capture: Result<ScreenCapture, String>) -> (r: (
    Vec<WindowStep>,
    Result<String, String>,
))
    requires
        capture matches Ok(c) ==> c.pixels@.len() == 4 * c.width * c.height,
    ensures
        r.0@ == restore_steps(guard.style_spec()),
        forall|l: Look| fully_shown(#[trigger] apply_steps(l, r.0@)),
        match capture {
            Err(e) => r.1 == Err::<String, String>(e),
            Ok(c) => {
                &&& r.1.is_ok() <==> (screenshot_png_spec(c) matches Some(png) && png.len()
                    <= usize::MAX / 2)
                &&& r.1 matches Ok(u) ==> u@ == png_data_url_spec(screenshot_png_spec(c).unwrap())
            },
        },
{
    let png = match capture {
        Err(e) => Err(e),
        Ok(c) => {
            let width = capture_width(c.width);
            match crop_left(c.width, c.height, c.pixels, width) {
                Some(cropped) => {
                    match encode_png(width, c.height, cropped) {
                        Ok(b) => {
                            if b.len() <= usize::MAX / 2 {
                                Ok(b)
                            } else {
                                Err(String::from_str("Screenshot too large"))
                            }
                        },
                        Err(e) => Err(e),
                    }
                },
                None => Err(String::new()),
            }
        },
    };
    screenshot_result(guard, png)
}

} // verus!
