//! The crosshair: a filled circle in the middle of the screen.
//!
//! The picture is 80 by 80 pixels. A pixel is as opaque as the share of its sixteen sample
//! points that lie within the circle. The centre of the circle is the centre of the
//! picture, a corner shared by four pixels, so that circles of all diameters are
//! concentric.

use vstd::prelude::*;

verus! {

/// Pixels on each side of the window.
pub const WINDOW_SIZE: i32 = 80;

/// Pixels of the picture.
pub const PIXEL_COUNT: usize = 6400;

/// How often the state is looked at, in milliseconds.
pub const UPDATE_INTERVAL_MS: u32 = 20;

/// The largest diameter that leaves a margin of one pixel.
pub const LARGEST_DIAMETER: u32 = 78;

/// A diameter that can be drawn.
pub open spec fn drawable(diameter: u32) -> u32 {
    if diameter < 1 {
        1
    } else if diameter > LARGEST_DIAMETER {
        LARGEST_DIAMETER
    } else {
        diameter
    }
}

/// How far a sample point lies from the centre along one side, in eighths of a pixel:
/// the point at a quarter and a half quarter of the pixel at `place`.
pub open spec fn offset(place: int, sample: int) -> int {
    8 * place + 2 * sample + 1 - 320
}

/// Whether a sample point lies within the circle of `diameter`: its distance from the
/// centre is at most half the diameter.
pub open spec fn covered(x: int, y: int, sample_x: int, sample_y: int, diameter: int) -> bool {
    offset(x, sample_x) * offset(x, sample_x) + offset(y, sample_y) * offset(y, sample_y) <= 16
        * diameter * diameter
}

pub open spec fn covered_one(x: int, y: int, sample_x: int, sample_y: int, diameter: int) -> int {
    if covered(x, y, sample_x, sample_y, diameter) {
        1
    } else {
        0
    }
}

/// How many of the four sample points in a row lie within the circle.
pub open spec fn covered_in_row(x: int, y: int, sample_y: int, diameter: int) -> int {
    covered_one(x, y, 0, sample_y, diameter) + covered_one(x, y, 1, sample_y, diameter)
        + covered_one(x, y, 2, sample_y, diameter) + covered_one(x, y, 3, sample_y, diameter)
}

/// How many of a pixel's sample points lie within the circle.
pub open spec fn covered_points(x: int, y: int, diameter: int) -> int {
    covered_in_row(x, y, 0, diameter) + covered_in_row(x, y, 1, diameter) + covered_in_row(
        x,
        y,
        2,
        diameter,
    ) + covered_in_row(x, y, 3, diameter)
}

/// The opacity of a pixel, up to 255, to the nearest.
pub open spec fn opacity(points: int) -> int {
    (points * 255 + 8) / 16
}

/// A colour channel scaled by the opacity, to the nearest.
pub open spec fn premultiplied(channel: int, alpha: int) -> int {
    (channel * alpha + 127) / 255
}

pub open spec fn red(rgb: u32) -> int {
    (rgb / 0x1_0000 % 0x100) as int
}

pub open spec fn green(rgb: u32) -> int {
    (rgb / 0x100 % 0x100) as int
}

pub open spec fn blue(rgb: u32) -> int {
    (rgb % 0x100) as int
}

/// A pixel of the picture: opacity, red, green and blue, from the highest byte down;
/// nothing at all where no sample point lies within the circle.
pub open spec fn pixel(rgb: u32, points: int) -> int {
    if points == 0 {
        0
    } else {
        let alpha = opacity(points);
        alpha * 0x100_0000 + premultiplied(red(rgb), alpha) * 0x1_0000 + premultiplied(
            green(rgb),
            alpha,
        ) * 0x100 + premultiplied(blue(rgb), alpha)
    }
}

/// The pixel in column `x` of row `y`.
pub open spec fn pixel_at(rgb: u32, diameter: u32, x: int, y: int) -> int {
    pixel(rgb, covered_points(x, y, drawable(diameter) as int))
}

proof fn lemma_scaled(channel: int, alpha: int)
    requires
        0 <= channel <= 255,
        0 <= alpha <= 255,
    ensures
        0 <= channel * alpha <= 255 * alpha,
        0 <= premultiplied(channel, alpha) <= alpha,
{
    assert(0 <= channel * alpha <= 255 * alpha) by (nonlinear_arith)
        requires
            0 <= channel <= 255,
            0 <= alpha <= 255,
    ;
}

fn sample_offset(place: i32, sample: i32) -> (r: i32)
    requires
        0 <= place < 80,
        0 <= sample < 4,
    ensures
        r == offset(place as int, sample as int),
        -320 < r < 320,
{
    8 * place + 2 * sample + 1 - 320
}

/// Whether a sample point lies within the circle.
fn is_covered(dx: i32, dy: i32, diameter: u32) -> (inside: bool)
    requires
        -320 < dx < 320,
        -320 < dy < 320,
        diameter <= LARGEST_DIAMETER,
    ensures
        inside == (dx * dx + dy * dy <= 16 * diameter * diameter),
{
    proof {
        assert(0 <= dx * dx <= 102_400) by (nonlinear_arith)
            requires
                -320 < dx < 320,
        ;
        assert(0 <= dy * dy <= 102_400) by (nonlinear_arith)
            requires
                -320 < dy < 320,
        ;
        assert(0 <= 16 * diameter * diameter <= 97_344) by (nonlinear_arith)
            requires
                0 <= diameter <= 78,
        ;
    }
    let d: i32 = diameter as i32;
    dx * dx + dy * dy <= 16 * d * d
}

fn row_points(x: i32, dy: i32, diameter: u32) -> (points: u32)
    requires
        0 <= x < 80,
        -320 < dy < 320,
        diameter <= LARGEST_DIAMETER,
    ensures
        forall|y: int, sample_y: int|
            dy == #[trigger] offset(y, sample_y) ==> points == covered_in_row(
                x as int,
                y,
                sample_y,
                diameter as int,
            ),
        points <= 4,
{
    let mut points: u32 = 0;
    if is_covered(sample_offset(x, 0), dy, diameter) {
        points = points + 1;
    }
    if is_covered(sample_offset(x, 1), dy, diameter) {
        points = points + 1;
    }
    if is_covered(sample_offset(x, 2), dy, diameter) {
        points = points + 1;
    }
    if is_covered(sample_offset(x, 3), dy, diameter) {
        points = points + 1;
    }
    points
}

/// How many of a pixel's sample points lie within the circle.
fn count_points(x: i32, y: i32, diameter: u32) -> (points: u32)
    requires
        0 <= x < 80,
        0 <= y < 80,
        diameter <= LARGEST_DIAMETER,
    ensures
        points == covered_points(x as int, y as int, diameter as int),
        points <= 16,
{
    row_points(x, sample_offset(y, 0), diameter) + row_points(x, sample_offset(y, 1), diameter)
        + row_points(x, sample_offset(y, 2), diameter) + row_points(
        x,
        sample_offset(y, 3),
        diameter,
    )
}

fn scale_channel(channel: u32, alpha: u32) -> (scaled: u32)
    requires
        channel <= 255,
        alpha <= 255,
    ensures
        scaled == premultiplied(channel as int, alpha as int),
        scaled <= alpha,
{
    proof {
        lemma_scaled(channel as int, alpha as int);
    }
    (channel * alpha + 127) / 255
}

/// The pixel of which so many sample points lie within the circle.
fn shade(rgb: u32, points: u32) -> (value: u32)
    requires
        points <= 16,
    ensures
        value == pixel(rgb, points as int),
{
    if points == 0 {
        return 0;
    }
    let alpha: u32 = (points * 255 + 8) / 16;
    let r: u32 = scale_channel(rgb / 0x1_0000 % 0x100, alpha);
    let g: u32 = scale_channel(rgb / 0x100 % 0x100, alpha);
    let b: u32 = scale_channel(rgb % 0x100, alpha);
    alpha * 0x100_0000 + r * 0x1_0000 + g * 0x100 + b
}

/// Draws the crosshair: 80 rows of 80 pixels from the top left corner on, in the colour
/// `rgb`, which holds red, green and blue from the third lowest byte down.
pub fn render_crosshair(rgb: u32, diameter: u32) -> (pixels: Vec<u32>)
    ensures
        pixels@.len() == PIXEL_COUNT,
        forall|i: int|
            0 <= i < PIXEL_COUNT ==> #[trigger] pixels@[i] == pixel_at(
                rgb,
                diameter,
                i % 80,
                i / 80,
            ),
{
    let drawn: u32 = if diameter < 1 {
        1
    } else if diameter > LARGEST_DIAMETER {
        LARGEST_DIAMETER
    } else {
        diameter
    };
    let mut pixels: Vec<u32> = Vec::new();
    let mut i: usize = 0;
    while i < PIXEL_COUNT
        invariant
            i <= PIXEL_COUNT,
            pixels@.len() == i,
            drawn == drawable(diameter),
            forall|j: int|
                0 <= j < i ==> #[trigger] pixels@[j] == pixel_at(rgb, diameter, j % 80, j / 80),
        decreases PIXEL_COUNT - i,
    {
        let x: i32 = (i % 80) as i32;
        let y: i32 = (i / 80) as i32;
        let points: u32 = count_points(x, y, drawn);
        pixels.push(shade(rgb, points));
        i = i + 1;
    }
    pixels
}

/// The four bytes of a number are what it is put together from.
proof fn lemma_bytes(a: int, r: int, g: int, b: int)
    requires
        0 <= a < 0x100,
        0 <= r < 0x100,
        0 <= g < 0x100,
        0 <= b < 0x100,
    ensures
        ({
            let value = a * 0x100_0000 + r * 0x1_0000 + g * 0x100 + b;
            &&& 0 <= value <= u32::MAX
            &&& value / 0x100_0000 == a
            &&& value / 0x1_0000 % 0x100 == r
            &&& value / 0x100 % 0x100 == g
            &&& value % 0x100 == b
        }),
{
    let value = a * 0x100_0000 + r * 0x1_0000 + g * 0x100 + b;
    assert(value / 0x100 == a * 0x1_0000 + r * 0x100 + g);
    assert(value / 0x1_0000 == a * 0x100 + r);
}

/// The highest byte of a pixel is its opacity, and no colour channel is above it, as
/// premultiplied pixels are to be. A pixel that lies within the circle has the colour
/// itself, and one outside is nothing.
pub proof fn law_pixels_are_premultiplied(rgb: u32, points: int)
    requires
        0 <= points <= 16,
    ensures
        ({
            let value = pixel(rgb, points);
            let alpha = value / 0x100_0000;
            &&& 0 <= value <= u32::MAX
            &&& 0 <= alpha <= 255
            &&& value / 0x1_0000 % 0x100 <= alpha
            &&& value / 0x100 % 0x100 <= alpha
            &&& value % 0x100 <= alpha
            &&& points == 0 ==> value == 0
            &&& points == 16 ==> value == 0xff00_0000 + red(rgb) * 0x1_0000 + green(rgb) * 0x100
                + blue(rgb)
        }),
{
    if points > 0 {
        let alpha = opacity(points);
        lemma_scaled(red(rgb), alpha);
        lemma_scaled(green(rgb), alpha);
        lemma_scaled(blue(rgb), alpha);
        lemma_bytes(
            alpha,
            premultiplied(red(rgb), alpha),
            premultiplied(green(rgb), alpha),
            premultiplied(blue(rgb), alpha),
        );
        if points == 16 {
            lemma_full(red(rgb));
            lemma_full(green(rgb));
            lemma_full(blue(rgb));
        }
    }
}

proof fn lemma_full(channel: int)
    ensures
        premultiplied(channel, 255) == channel,
{
}

proof fn lemma_mirror(x: int, y: int, sample_x: int, sample_y: int, diameter: int)
    ensures
        covered(79 - x, y, 3 - sample_x, sample_y, diameter) == covered(
            x,
            y,
            sample_x,
            sample_y,
            diameter,
        ),
        covered(y, x, sample_y, sample_x, diameter) == covered(x, y, sample_x, sample_y, diameter),
{
    let a = offset(x, sample_x);
    assert(offset(79 - x, 3 - sample_x) == -a);
    assert((-a) * (-a) == a * a) by (nonlinear_arith);
}

proof fn lemma_mirrored_row(x: int, y: int, sample_y: int, diameter: int)
    ensures
        covered_in_row(79 - x, y, sample_y, diameter) == covered_in_row(x, y, sample_y, diameter),
{
    lemma_mirror(x, y, 0, sample_y, diameter);
    lemma_mirror(x, y, 1, sample_y, diameter);
    lemma_mirror(x, y, 2, sample_y, diameter);
    lemma_mirror(x, y, 3, sample_y, diameter);
}

proof fn lemma_transposed(x: int, y: int, diameter: int)
    ensures
        covered_points(y, x, diameter) == covered_points(x, y, diameter),
{
    assert forall|sample_x: int, sample_y: int|
        covered_one(y, x, sample_y, sample_x, diameter) == #[trigger] covered_one(
            x,
            y,
            sample_x,
            sample_y,
            diameter,
        ) by {
        lemma_mirror(x, y, sample_x, sample_y, diameter);
    }
    assert(covered_in_row(y, x, 0, diameter) == covered_one(x, y, 0, 0, diameter) + covered_one(
        x,
        y,
        0,
        1,
        diameter,
    ) + covered_one(x, y, 0, 2, diameter) + covered_one(x, y, 0, 3, diameter));
    assert(covered_in_row(y, x, 1, diameter) == covered_one(x, y, 1, 0, diameter) + covered_one(
        x,
        y,
        1,
        1,
        diameter,
    ) + covered_one(x, y, 1, 2, diameter) + covered_one(x, y, 1, 3, diameter));
    assert(covered_in_row(y, x, 2, diameter) == covered_one(x, y, 2, 0, diameter) + covered_one(
        x,
        y,
        2,
        1,
        diameter,
    ) + covered_one(x, y, 2, 2, diameter) + covered_one(x, y, 2, 3, diameter));
    assert(covered_in_row(y, x, 3, diameter) == covered_one(x, y, 3, 0, diameter) + covered_one(
        x,
        y,
        3,
        1,
        diameter,
    ) + covered_one(x, y, 3, 2, diameter) + covered_one(x, y, 3, 3, diameter));
}

/// The picture is the same from all four sides and in the mirror, whatever the diameter:
/// all circles have their centre in the middle of the window.
pub proof fn law_circles_are_concentric(rgb: u32, diameter: u32, x: int, y: int)
    ensures
        pixel_at(rgb, diameter, 79 - x, y) == pixel_at(rgb, diameter, x, y),
        pixel_at(rgb, diameter, x, 79 - y) == pixel_at(rgb, diameter, x, y),
        pixel_at(rgb, diameter, y, x) == pixel_at(rgb, diameter, x, y),
{
    let d = drawable(diameter) as int;
    lemma_mirrored_row(x, y, 0, d);
    lemma_mirrored_row(x, y, 1, d);
    lemma_mirrored_row(x, y, 2, d);
    lemma_mirrored_row(x, y, 3, d);
    lemma_transposed(x, y, d);
    lemma_transposed(x, 79 - y, d);
    lemma_mirrored_row(y, x, 0, d);
    lemma_mirrored_row(y, x, 1, d);
    lemma_mirrored_row(y, x, 2, d);
    lemma_mirrored_row(y, x, 3, d);
}

/// A larger circle covers what a smaller one covers.
pub proof fn law_larger_circle_covers_more(
    x: int,
    y: int,
    smaller: int,
    larger: int,
    sample_x: int,
    sample_y: int,
)
    requires
        0 <= smaller <= larger,
    ensures
        covered(x, y, sample_x, sample_y, smaller) ==> covered(x, y, sample_x, sample_y, larger),
{
    assert(16 * smaller * smaller <= 16 * larger * larger) by (nonlinear_arith)
        requires
            0 <= smaller <= larger,
    ;
}

/// Half of a screen, cut towards zero.
pub open spec fn half(length: i32) -> int {
    if length >= 0 {
        length as int / 2
    } else {
        -((-length) / 2)
    }
}

fn half_of(length: i32) -> (r: i32)
    ensures
        r == half(length),
        -0x4000_0000 <= r <= 0x3fff_ffff,
{
    if length >= 0 {
        length / 2
    } else {
        let positive: i64 = -(length as i64);
        -((positive / 2) as i32)
    }
}

/// A window of 80 pixels that starts at `start` has as much of the screen before it as behind it, but
/// for one pixel that a screen of an odd length has left.
pub open spec fn centered(length: i32, start: i32) -> bool {
    let behind = length - (start + 80);
    -1 <= behind - start <= 1 && (length >= 0 ==> behind >= start)
}

/// Where the top left corner of the window goes on a screen of so many pixels, so that the
/// window is in its middle.
pub fn centered_window_position(screen_width: i32, screen_height: i32) -> (corner: (i32, i32))
    ensures
        corner.0 == half(screen_width) - 40,
        corner.1 == half(screen_height) - 40,
        centered(screen_width, corner.0),
        centered(screen_height, corner.1),
{
    (half_of(screen_width) - WINDOW_SIZE / 2, half_of(screen_height) - WINDOW_SIZE / 2)
}

/// A key with this state is held down.
pub open spec fn held(state: i16) -> bool {
    state < 0
}

/// Whether a key is held down: the machine says so in the highest bit.
pub fn key_is_down(state: i16) -> (down: bool)
    ensures
        down == (state < 0),
        down == held(state),
{
    state < 0
}

/// What is to become of the window.
#[derive(Clone, Copy, Debug, PartialEq, Eq, Structural)]
pub enum Visibility {
    Keep,
    Show,
    Hide,
}

/// What the timer is to do.
#[derive(Clone, Copy, Debug, PartialEq, Eq)]
pub enum TimerAction {
    /// The program ends: destroy the window.
    Destroy,
    Update {
        /// Draw anew in this colour and this diameter.
        render: Option<(u32, u32)>,
        visibility: Visibility,
    },
}

/// The colour and the diameter that are on the screen.
#[derive(Clone, Copy, Debug, PartialEq, Eq, Structural)]
pub struct CrosshairStyle {
    pub color: u32,
    pub size: u32,
}

impl CrosshairStyle {
    /// Nothing has been drawn yet.
    pub fn none() -> (style: CrosshairStyle)
        ensures
            style == (CrosshairStyle { color: u32::MAX, size: u32::MAX }),
    {
        CrosshairStyle { color: u32::MAX, size: u32::MAX }
    }

    /// What the timer does where the program is in this state.
    pub open spec fn timer_action(
        self,
        should_exit: bool,
        enabled: bool,
        right_button_down: bool,
        visible: bool,
        color: u32,
        size: u32,
    ) -> TimerAction {
        if should_exit {
            TimerAction::Destroy
        } else {
            TimerAction::Update {
                render: if (CrosshairStyle { color, size }) == self {
                    None
                } else {
                    Some((color, size))
                },
                visibility: if enabled && !right_button_down {
                    if visible {
                        Visibility::Keep
                    } else {
                        Visibility::Show
                    }
                } else if visible {
                    Visibility::Hide
                } else {
                    Visibility::Keep
                },
            }
        }
    }

    /// The style on the screen after an attempt to draw another one.
    pub open spec fn after_drawing(self, color: u32, size: u32, succeeded: bool) -> CrosshairStyle {
        if succeeded {
            CrosshairStyle { color, size }
        } else {
            self
        }
    }

    /// Looks at the state of the program: draws anew only where the style has changed, and
    /// shows the crosshair where it is switched on and the right button is not held down.
    pub fn on_timer(
        &self,
        should_exit: bool,
        enabled: bool,
        right_button_down: bool,
        visible: bool,
        color: u32,
        size: u32,
    ) -> (action: TimerAction)
        ensures
            action == (if should_exit {
                TimerAction::Destroy
            } else {
                TimerAction::Update {
                    render: if color != self.color || size != self.size {
                        Some((color, size))
                    } else {
                        None
                    },
                    visibility: if (enabled && !right_button_down) == visible {
                        Visibility::Keep
                    } else if visible {
                        Visibility::Hide
                    } else {
                        Visibility::Show
                    },
                }
            }),
            action == self.timer_action(should_exit, enabled, right_button_down, visible, color, size),
    {
        if should_exit {
            return TimerAction::Destroy;
        }
        let should_show = enabled && !right_button_down;
        let style_changed = color != self.color || size != self.size;
        TimerAction::Update {
            render: if style_changed {
                Some((color, size))
            } else {
                None
            },
            visibility: if should_show {
                if visible {
                    Visibility::Keep
                } else {
                    Visibility::Show
                }
            } else if visible {
                Visibility::Hide
            } else {
                Visibility::Keep
            },
        }
    }

    /// Takes in whether drawing worked; only then is the style the one on the screen.
    pub fn rendered(&mut self, color: u32, size: u32, succeeded: bool)
        ensures
            *final(self) == (if succeeded {
                CrosshairStyle { color, size }
            } else {
                *old(self)
            }),
            *final(self) == old(self).after_drawing(color, size, succeeded),
    {
        if succeeded {
            self.color = color;
            self.size = size;
        }
    }
}

/// The messages that the window answers itself.
#[derive(Clone, Copy, Debug, PartialEq, Eq, Structural)]
pub enum CrosshairMessage {
    HitTest,
    EraseBackground,
    DisplayChange,
    Timer,
    Destroy,
    Other,
}

/// How the window answers.
#[derive(Clone, Copy, Debug, PartialEq, Eq, Structural)]
pub enum CrosshairReply {
    /// The mouse goes through the window.
    Transparent,
    /// The background needs no erasing.
    Erased,
    /// Draw anew in the middle of the changed screen.
    Redraw,
    /// Look at the state of the program.
    Tick,
    /// End the message loop.
    Quit,
    /// Leave it to the system.
    Standard,
}

pub fn crosshair_wnd_proc(message: CrosshairMessage) -> (reply: CrosshairReply)
    ensures
        reply == (match message {
            CrosshairMessage::HitTest => CrosshairReply::Transparent,
            CrosshairMessage::EraseBackground => CrosshairReply::Erased,
            CrosshairMessage::DisplayChange => CrosshairReply::Redraw,
            CrosshairMessage::Timer => CrosshairReply::Tick,
            CrosshairMessage::Destroy => CrosshairReply::Quit,
            CrosshairMessage::Other => CrosshairReply::Standard,
        }),
{
    match message {
        CrosshairMessage::HitTest => CrosshairReply::Transparent,
        CrosshairMessage::EraseBackground => CrosshairReply::Erased,
        CrosshairMessage::DisplayChange => CrosshairReply::Redraw,
        CrosshairMessage::Timer => CrosshairReply::Tick,
        CrosshairMessage::Destroy => CrosshairReply::Quit,
        CrosshairMessage::Other => CrosshairReply::Standard,
    }
}

/// Whether the window can be seen after it was dealt with.
pub open spec fn seen_after(visible: bool, visibility: Visibility) -> bool {
    match visibility {
        Visibility::Keep => visible,
        Visibility::Show => true,
        Visibility::Hide => false,
    }
}

/// The timer brings the screen up to date: afterwards the crosshair can be seen exactly where it is
/// switched on and the right button is not held down, and it is in the colour and the size that are
/// set wherever drawing worked. Where it did not work, the next timer draws again. Where all is as it
/// should be nothing is done, and where the program ends nothing but that.
pub proof fn law_timer_brings_the_screen_up_to_date(
    style: CrosshairStyle,
    enabled: bool,
    right_button_down: bool,
    visible: bool,
    color: u32,
    size: u32,
    worked: bool,
)
    ensures
        style.timer_action(true, enabled, right_button_down, visible, color, size)
            == TimerAction::Destroy,
        ({
            &&& style.timer_action(
                false,
                enabled,
                right_button_down,
                visible,
                color,
                size,
            ) matches TimerAction::Update { render, visibility }
            &&& seen_after(visible, visibility) == (enabled && !right_button_down)
            &&& visible == (enabled && !right_button_down) ==> visibility == Visibility::Keep
            &&& render is None <==> style.color == color && style.size == size
            &&& render is Some ==> render == Some((color, size))
            &&& {
                let after = style.after_drawing(color, size, worked);
                let next = after.timer_action(
                    false,
                    enabled,
                    right_button_down,
                    seen_after(visible, visibility),
                    color,
                    size,
                );
                &&& worked ==> next == (TimerAction::Update {
                    render: None,
                    visibility: Visibility::Keep,
                })
                &&& !worked ==> next == (TimerAction::Update { render, visibility: Visibility::Keep })
            }
        }),
{
}

/// A key is held down exactly where the highest bit of its state is set, whatever the other bits are.
pub proof fn law_highest_bit_tells_of_a_held_key(state: i16)
    ensures
        held(state) <==> (state as u16) & 0x8000 != 0,
{
    assert(state < 0 <==> (state as u16) & 0x8000 != 0) by (bit_vector);
}

/// Half of a screen is the same length on both sides of zero, and two halves make the whole but for
/// one pixel.
pub proof fn law_halves_make_the_whole(length: i32, opposite: i32)
    requires
        opposite == -length,
    ensures
        half(opposite) == -half(length),
        length >= 0 ==> 0 <= length - 2 * half(length) <= 1,
{
}

/// Opacities and colours are rounded to the nearest: no whole number is nearer to the share of the
/// sample points, and none is nearer to the share of the colour.
pub proof fn law_shades_are_the_nearest(points: int, channel: int, alpha: int)
    requires
        0 <= points <= 16,
        0 <= channel <= 255,
        0 <= alpha <= 255,
    ensures
        -8 <= 16 * opacity(points) - 255 * points <= 8,
        -127 <= 255 * premultiplied(channel, alpha) - channel * alpha <= 127,
        premultiplied(channel, 255) == channel,
        premultiplied(channel, 0) == 0,
        opacity(0) == 0,
        opacity(16) == 255,
{
    let product = channel * alpha;
    assert(-127 <= 255 * ((product + 127) / 255) - product <= 127);
}

/// A diameter from 1 to 78 is drawn as it is, and any other as the nearest of these.
pub proof fn law_diameters_go_to_the_nearest(diameter: u32)
    ensures
        1 <= drawable(diameter) <= 78,
        1 <= diameter <= 78 ==> drawable(diameter) == diameter,
        diameter > 78 ==> drawable(diameter) == 78,
        diameter < 1 ==> drawable(diameter) == 1,
{
}

/// A colour is made up of its three bytes, red before green before blue.
pub proof fn law_colors_are_made_of_bytes(r: u32, g: u32, b: u32, rest: u32)
    requires
        r <= 255,
        g <= 255,
        b <= 255,
        rest <= 255,
    ensures
        ({
            let rgb = (rest * 0x100_0000 + r * 0x1_0000 + g * 0x100 + b) as u32;
            red(rgb) == r && green(rgb) == g && blue(rgb) == b
        }),
{
    lemma_bytes(rest as int, r as int, g as int, b as int);
}

} // verus!
