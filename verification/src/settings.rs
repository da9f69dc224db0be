//! The settings window: its controls, what they show, and what happens when they are used.

use vstd::prelude::*;

use crate::arithmetic::{
    difference_is, integer_is, product_is, quotient_is, rounded_is, sum_is, Arithmetic,
};
use crate::config::{
    clamp_integer, within, Config, LimiterParams, COLOR_COUNT, LARGEST_CROSSHAIR,
    LONGEST_PEAK_RELEASE_MS, LONGEST_TIME_MS, SHORTEST_PEAK_RELEASE_MS, SHORTEST_TIME_MS,
    SMALLEST_CROSSHAIR,
};
use crate::runtime_params::RuntimeLimiterParams;
use crate::single::{single, Single};
use crate::text::{
    append_decimal, append_text, decimal, number_in, parse_number, trim_text, trimmed,
};

verus! {

pub const ID_INPUT: i32 = 101;

pub const ID_OUTPUT: i32 = 102;

pub const ID_REFRESH: i32 = 103;

pub const ID_THRESHOLD: i32 = 110;

pub const ID_ATTACK: i32 = 111;

pub const ID_RELEASE: i32 = 112;

pub const ID_PRE_GAIN: i32 = 113;

pub const ID_PEAK_RELEASE: i32 = 114;

pub const ID_THRESHOLD_VALUE: i32 = 210;

pub const ID_ATTACK_VALUE: i32 = 211;

pub const ID_RELEASE_VALUE: i32 = 212;

pub const ID_PRE_GAIN_VALUE: i32 = 213;

pub const ID_PEAK_RELEASE_VALUE: i32 = 214;

pub const ID_CROSSHAIR: i32 = 120;

pub const ID_COLOR: i32 = 121;

pub const ID_SIZE: i32 = 122;

pub const ID_START_STOP: i32 = 130;

pub const ID_SAVE: i32 = 131;

/// How often the window looks whether limiting is on, in milliseconds.
pub const UI_TIMER_MS: u32 = 250;

pub const SETTINGS_WIDTH: i32 = 400;

pub const SETTINGS_HEIGHT: i32 = 470;

/// Bit pattern of 60.
pub const SIXTY: u32 = 0x4270_0000;

/// Bit pattern of 10.
pub const TEN: u32 = 0x4120_0000;

/// The last position of the threshold slider, which counts tenths of a decibel from -60.
pub const LAST_THRESHOLD_POSITION: u32 = 600;

/// The last position of the pre-gain slider, which counts tenths of a decibel from 0.
pub const LAST_PRE_GAIN_POSITION: u32 = 120;

/// What kind of control it is.
#[derive(Clone, Copy, Debug, PartialEq, Eq, Structural)]
pub enum ControlKind {
    Label,
    Combo,
    Button,
    CheckBox,
    Number,
    Slider,
}

/// A control and its place in the window. Labels that never change have the identity zero.
#[derive(Clone, Copy, Debug, PartialEq, Eq)]
pub struct Placement {
    pub kind: ControlKind,
    pub text: &'static str,
    pub id: i32,
    pub x: i32,
    pub y: i32,
    pub width: i32,
    pub height: i32,
}

impl Placement {
    pub open spec fn is(
        self,
        kind: ControlKind,
        text: Seq<char>,
        id: i32,
        x: int,
        y: int,
        width: int,
        height: int,
    ) -> bool {
        &&& self.kind == kind
        &&& self.text@ == text
        &&& self.id == id
        &&& self.x == x
        &&& self.y == y
        &&& self.width == width
        &&& self.height == height
    }

    /// The control lies within the window.
    pub open spec fn inside(self) -> bool {
        &&& 0 <= self.x
        &&& 0 < self.width
        &&& self.x + self.width <= SETTINGS_WIDTH
        &&& 0 <= self.y
        &&& 0 < self.height
        &&& self.y + self.height <= SETTINGS_HEIGHT
    }
}

/// The row of a slider: its label, the slider, and the label for its value.
pub open spec fn is_slider_row(
    placements: Seq<Placement>,
    at: int,
    text: Seq<char>,
    id: i32,
    value_id: i32,
    y: int,
) -> bool {
    &&& placements[at].is(ControlKind::Label, text, 0, 18, y + 8, 92, 24)
    &&& placements[at + 1].is(ControlKind::Slider, ""@, id, 105, y, 195, 32)
    &&& placements[at + 2].is(ControlKind::Label, ""@, value_id, 302, y + 8, 76, 24)
}

/// The controls of the window, in the order in which they are made.
pub open spec fn is_layout(placements: Seq<Placement>) -> bool {
    &&& placements.len() == 27
    &&& placements[0].is(ControlKind::Label, "Sound Lock 全频降音"@, 0, 18, 12, 340, 28)
    &&& placements[1].is(ControlKind::Label, "输入设备"@, 0, 18, 52, 80, 24)
    &&& placements[2].is(ControlKind::Combo, ""@, ID_INPUT, 100, 48, 260, 240)
    &&& placements[3].is(ControlKind::Label, "输出设备"@, 0, 18, 88, 80, 24)
    &&& placements[4].is(ControlKind::Combo, ""@, ID_OUTPUT, 100, 84, 260, 240)
    &&& placements[5].is(ControlKind::Button, "刷新设备"@, ID_REFRESH, 275, 120, 85, 28)
    &&& is_slider_row(placements, 6, "RMS 阈值"@, ID_THRESHOLD, ID_THRESHOLD_VALUE, 154)
    &&& is_slider_row(placements, 9, "RMS 触发"@, ID_ATTACK, ID_ATTACK_VALUE, 190)
    &&& is_slider_row(placements, 12, "RMS 释放"@, ID_RELEASE, ID_RELEASE_VALUE, 226)
    &&& is_slider_row(placements, 15, "Pre-Gain"@, ID_PRE_GAIN, ID_PRE_GAIN_VALUE, 262)
    &&& is_slider_row(placements, 18, "Peak 释放"@, ID_PEAK_RELEASE, ID_PEAK_RELEASE_VALUE, 298)
    &&& placements[21].is(ControlKind::CheckBox, "开启屏幕准星"@, ID_CROSSHAIR, 18, 338, 135, 26)
    &&& placements[22].is(ControlKind::Button, "切换颜色"@, ID_COLOR, 160, 336, 90, 28)
    &&& placements[23].is(ControlKind::Label, "大小(px)"@, 0, 260, 340, 58, 24)
    &&& placements[24].is(ControlKind::Number, ""@, ID_SIZE, 320, 337, 40, 26)
    &&& placements[25].is(ControlKind::Button, "启动限制"@, ID_START_STOP, 18, 382, 160, 38)
    &&& placements[26].is(ControlKind::Button, "保存设置"@, ID_SAVE, 200, 382, 160, 38)
}

fn place(
    kind: ControlKind,
    text: &'static str,
    id: i32,
    x: i32,
    y: i32,
    width: i32,
    height: i32,
) -> (placement: Placement)
    ensures
        placement.is(kind, text@, id, x as int, y as int, width as int, height as int),
{
    Placement { kind, text, id, x, y, width, height }
}

fn slider_row(placements: &mut Vec<Placement>, text: &'static str, id: i32, value_id: i32, y: i32)
    requires
        0 <= y < 1000,
    ensures
        final(placements)@.len() == old(placements)@.len() + 3,
        forall|i: int|
            0 <= i < old(placements)@.len() ==> #[trigger] final(placements)@[i]
                == old(placements)@[i],
        is_slider_row(
            final(placements)@,
            old(placements)@.len() as int,
            text@,
            id,
            value_id,
            y as int,
        ),
{
    placements.push(place(ControlKind::Label, text, 0, 18, y + 8, 92, 24));
    placements.push(place(ControlKind::Slider, "", id, 105, y, 195, 32));
    placements.push(place(ControlKind::Label, "", value_id, 302, y + 8, 76, 24));
}

/// The controls of the window.
pub fn create_controls() -> (placements: Vec<Placement>)
    ensures
        is_layout(placements@),
{
    let mut p: Vec<Placement> = Vec::new();
    p.push(place(ControlKind::Label, "Sound Lock 全频降音", 0, 18, 12, 340, 28));
    p.push(place(ControlKind::Label, "输入设备", 0, 18, 52, 80, 24));
    p.push(place(ControlKind::Combo, "", ID_INPUT, 100, 48, 260, 240));
    p.push(place(ControlKind::Label, "输出设备", 0, 18, 88, 80, 24));
    p.push(place(ControlKind::Combo, "", ID_OUTPUT, 100, 84, 260, 240));
    p.push(place(ControlKind::Button, "刷新设备", ID_REFRESH, 275, 120, 85, 28));
    slider_row(&mut p, "RMS 阈值", ID_THRESHOLD, ID_THRESHOLD_VALUE, 154);
    slider_row(&mut p, "RMS 触发", ID_ATTACK, ID_ATTACK_VALUE, 190);
    slider_row(&mut p, "RMS 释放", ID_RELEASE, ID_RELEASE_VALUE, 226);
    slider_row(&mut p, "Pre-Gain", ID_PRE_GAIN, ID_PRE_GAIN_VALUE, 262);
    slider_row(&mut p, "Peak 释放", ID_PEAK_RELEASE, ID_PEAK_RELEASE_VALUE, 298);
    p.push(place(ControlKind::CheckBox, "开启屏幕准星", ID_CROSSHAIR, 18, 338, 135, 26));
    p.push(place(ControlKind::Button, "切换颜色", ID_COLOR, 160, 336, 90, 28));
    p.push(place(ControlKind::Label, "大小(px)", 0, 260, 340, 58, 24));
    p.push(place(ControlKind::Number, "", ID_SIZE, 320, 337, 40, 26));
    p.push(place(ControlKind::Button, "启动限制", ID_START_STOP, 18, 382, 160, 38));
    p.push(place(ControlKind::Button, "保存设置", ID_SAVE, 200, 382, 160, 38));
    p
}

/// All controls lie within the window, and no two that can be told apart have the same
/// identity.
pub proof fn law_controls_fit_and_differ(placements: Seq<Placement>, a: int, b: int)
    requires
        is_layout(placements),
        0 <= a < placements.len(),
        0 <= b < placements.len(),
    ensures
        placements[a].inside(),
        placements[a].id == placements[b].id && placements[a].id != 0 ==> a == b,
{
}

/// How a slider is set up.
#[derive(Clone, Copy, Debug, PartialEq, Eq, Structural)]
pub struct SliderSetup {
    pub id: i32,
    pub minimum: u16,
    pub maximum: u16,
    pub position: u32,
    pub tick_frequency: usize,
    pub page_size: usize,
}

impl SliderSetup {
    /// The slider goes from `low` to `high`, has a tick every `ticks`, and pages by ten.
    pub open spec fn spans(self, low: u32, high: u32, ticks: int) -> bool {
        &&& self.minimum == low
        &&& self.maximum == high
        &&& self.tick_frequency == ticks
        &&& self.page_size == 10
    }

    /// The number that holds both ends of the range.
    pub open spec fn packed(self) -> int {
        self.minimum + 0x1_0000 * self.maximum
    }

    /// Both ends of the range in one number: the lower one in the lower half.
    pub fn packed_range(&self) -> (range: u32)
        ensures
            range == self.minimum + 0x1_0000 * self.maximum,
            range == self.packed(),
    {
        self.minimum as u32 + 0x1_0000 * self.maximum as u32
    }
}

/// `count`, or the largest number of 32 bits where `count` exceeds it.
pub open spec fn narrowed(count: u64) -> u32 {
    if count > u32::MAX {
        u32::MAX
    } else {
        count as u32
    }
}

fn narrow(count: u64) -> (r: u32)
    ensures
        r == narrowed(count),
{
    if count > u32::MAX as u64 {
        u32::MAX
    } else {
        count as u32
    }
}

/// `position` is an answer for where the threshold slider stands at `db`.
pub open spec fn threshold_position_is<A: Arithmetic>(db: Single, position: u32) -> bool {
    exists|shifted: Single, tenths: Single, count: u64|
        #![trigger sum_is::<A>(db, single(SIXTY), shifted), product_is::<A>(shifted, single(TEN), tenths), rounded_is::<A>(tenths, count)]
        {
            &&& sum_is::<A>(db, single(SIXTY), shifted)
            &&& product_is::<A>(shifted, single(TEN), tenths)
            &&& rounded_is::<A>(tenths, count)
            &&& position == narrowed(count)
        }
}

fn threshold_position<A: Arithmetic>(db: Single) -> (position: u32)
    ensures
        threshold_position_is::<A>(db, position),
{
    let shifted = A::sum(db, Single::from_bits(SIXTY));
    let tenths = A::product(shifted, Single::from_bits(TEN));
    let count: u64 = A::rounded(tenths);
    assert(sum_is::<A>(db, single(SIXTY), shifted));
    assert(product_is::<A>(shifted, single(TEN), tenths));
    assert(rounded_is::<A>(tenths, count));
    narrow(count)
}

/// `position` is an answer for where the pre-gain slider stands at `db`.
pub open spec fn pre_gain_position_is<A: Arithmetic>(db: Single, position: u32) -> bool {
    exists|tenths: Single, count: u64|
        #![trigger product_is::<A>(db, single(TEN), tenths), rounded_is::<A>(tenths, count)]
        {
            &&& product_is::<A>(db, single(TEN), tenths)
            &&& rounded_is::<A>(tenths, count)
            &&& position == narrowed(count)
        }
}

fn pre_gain_position<A: Arithmetic>(db: Single) -> (position: u32)
    ensures
        pre_gain_position_is::<A>(db, position),
{
    let tenths = A::product(db, Single::from_bits(TEN));
    let count: u64 = A::rounded(tenths);
    assert(product_is::<A>(db, single(TEN), tenths));
    assert(rounded_is::<A>(tenths, count));
    narrow(count)
}

/// The sliders stand where a configuration has them: the five settings in the order of the window,
/// each on the slider of its own identity.
pub open spec fn sliders_show<A: Arithmetic>(config: Config, sliders: Seq<SliderSetup>) -> bool {
    &&& sliders.len() == 5
    &&& sliders[0].id == ID_THRESHOLD
    &&& threshold_position_is::<A>(config.threshold_db, sliders[0].position)
    &&& sliders[1].id == ID_ATTACK
    &&& sliders[1].position == config.attack_ms
    &&& sliders[2].id == ID_RELEASE
    &&& sliders[2].position == config.release_ms
    &&& sliders[3].id == ID_PRE_GAIN
    &&& pre_gain_position_is::<A>(config.pre_gain_db, sliders[3].position)
    &&& sliders[4].id == ID_PEAK_RELEASE
    &&& sliders[4].position == config.peak_release_ms
    &&& sliders[0].spans(0, LAST_THRESHOLD_POSITION, 50)
    &&& sliders[1].spans(SHORTEST_TIME_MS, LONGEST_TIME_MS, 25)
    &&& sliders[2].spans(SHORTEST_TIME_MS, LONGEST_TIME_MS, 25)
    &&& sliders[3].spans(0, LAST_PRE_GAIN_POSITION, 10)
    &&& sliders[4].spans(SHORTEST_PEAK_RELEASE_MS, LONGEST_PEAK_RELEASE_MS, 10)
}

/// How the five sliders are set up for a configuration.
pub fn load_config_into_controls<A: Arithmetic>(config: &Config) -> (sliders: Vec<SliderSetup>)
    ensures
        sliders_show::<A>(*config, sliders@),
        sliders@.len() == 5,
        threshold_position_is::<A>(config.threshold_db, sliders@[0].position),
        pre_gain_position_is::<A>(config.pre_gain_db, sliders@[3].position),
        sliders@[0] == (SliderSetup {
            id: ID_THRESHOLD,
            minimum: 0,
            maximum: 600,
            position: sliders@[0].position,
            tick_frequency: 50,
            page_size: 10,
        }),
        sliders@[1] == (SliderSetup {
            id: ID_ATTACK,
            minimum: 1,
            maximum: 300,
            position: config.attack_ms,
            tick_frequency: 25,
            page_size: 10,
        }),
        sliders@[2] == (SliderSetup {
            id: ID_RELEASE,
            minimum: 1,
            maximum: 300,
            position: config.release_ms,
            tick_frequency: 25,
            page_size: 10,
        }),
        sliders@[3] == (SliderSetup {
            id: ID_PRE_GAIN,
            minimum: 0,
            maximum: 120,
            position: sliders@[3].position,
            tick_frequency: 10,
            page_size: 10,
        }),
        sliders@[4] == (SliderSetup {
            id: ID_PEAK_RELEASE,
            minimum: 20,
            maximum: 150,
            position: config.peak_release_ms,
            tick_frequency: 10,
            page_size: 10,
        }),
{
    let mut sliders: Vec<SliderSetup> = Vec::new();
    sliders.push(
        SliderSetup {
            id: ID_THRESHOLD,
            minimum: 0,
            maximum: 600,
            position: threshold_position::<A>(config.threshold_db),
            tick_frequency: 50,
            page_size: 10,
        },
    );
    sliders.push(
        SliderSetup {
            id: ID_ATTACK,
            minimum: 1,
            maximum: 300,
            position: config.attack_ms,
            tick_frequency: 25,
            page_size: 10,
        },
    );
    sliders.push(
        SliderSetup {
            id: ID_RELEASE,
            minimum: 1,
            maximum: 300,
            position: config.release_ms,
            tick_frequency: 25,
            page_size: 10,
        },
    );
    sliders.push(
        SliderSetup {
            id: ID_PRE_GAIN,
            minimum: 0,
            maximum: 120,
            position: pre_gain_position::<A>(config.pre_gain_db),
            tick_frequency: 10,
            page_size: 10,
        },
    );
    sliders.push(
        SliderSetup {
            id: ID_PEAK_RELEASE,
            minimum: 20,
            maximum: 150,
            position: config.peak_release_ms,
            tick_frequency: 10,
            page_size: 10,
        },
    );
    sliders
}

/// The position of a slider, of which the machine said `answer`.
pub fn slider_position(answer: isize) -> (position: u32)
    ensures
        position == (if answer < 0 {
            0
        } else {
            answer as int % 0x1_0000_0000
        }),
{
    if answer < 0 {
        0
    } else {
        (answer as u64 % 0x1_0000_0000) as u32
    }
}

/// A number of tenths, with one digit behind the point.
pub open spec fn tenths_text(tenths: int) -> Seq<char> {
    let distance = if tenths < 0 {
        -tenths
    } else {
        tenths
    };
    (if tenths < 0 {
        "-"@
    } else {
        Seq::empty()
    }) + decimal((distance / 10) as nat) + "."@ + decimal((distance % 10) as nat)
}

/// What stands beside the threshold slider.
pub fn threshold_label(position: u32) -> (label: String)
    requires
        position <= LAST_THRESHOLD_POSITION,
    ensures
        label@ == tenths_text(position - 600) + " dB"@,
{
    let mut label = String::new();
    let distance: u32 = LAST_THRESHOLD_POSITION - position;
    if distance > 0 {
        append_text(&mut label, "-");
    }
    append_decimal(&mut label, (distance / 10) as u64);
    append_text(&mut label, ".");
    append_decimal(&mut label, (distance % 10) as u64);
    append_text(&mut label, " dB");
    proof {
        assert(label@ =~= tenths_text(position - 600) + " dB"@);
    }
    label
}

/// What stands beside the pre-gain slider.
pub fn pre_gain_label(position: u32) -> (label: String)
    requires
        position <= LAST_PRE_GAIN_POSITION,
    ensures
        label@ == "+"@ + tenths_text(position as int) + " dB"@,
{
    let mut label = String::new();
    append_text(&mut label, "+");
    append_decimal(&mut label, (position / 10) as u64);
    append_text(&mut label, ".");
    append_decimal(&mut label, (position % 10) as u64);
    append_text(&mut label, " dB");
    proof {
        assert(label@ =~= "+"@ + tenths_text(position as int) + " dB"@);
    }
    label
}

/// What stands beside a slider that counts milliseconds.
pub fn milliseconds_label(position: u32) -> (label: String)
    ensures
        label@ == decimal(position as nat) + " ms"@,
{
    let mut label = String::new();
    append_decimal(&mut label, position as u64);
    append_text(&mut label, " ms");
    proof {
        assert(label@ =~= decimal(position as nat) + " ms"@);
    }
    label
}

/// `db` is an answer for the threshold at a position of its slider.
pub open spec fn threshold_at_is<A: Arithmetic>(position: u32, db: Single) -> bool {
    exists|tenths: Single, shifted: Single|
        #![trigger integer_is::<A>(position as u64, tenths), quotient_is::<A>(tenths, single(TEN), shifted)]
        {
            &&& integer_is::<A>(position as u64, tenths)
            &&& quotient_is::<A>(tenths, single(TEN), shifted)
            &&& difference_is::<A>(shifted, single(SIXTY), db)
        }
}

fn threshold_at<A: Arithmetic>(position: u32) -> (db: Single)
    ensures
        threshold_at_is::<A>(position, db),
{
    let tenths = A::from_integer(position as u64);
    let shifted = A::quotient(tenths, Single::from_bits(TEN));
    assert(integer_is::<A>(position as u64, tenths));
    assert(quotient_is::<A>(tenths, single(TEN), shifted));
    A::difference(shifted, Single::from_bits(SIXTY))
}

/// `db` is an answer for the pre-gain at a position of its slider.
pub open spec fn pre_gain_at_is<A: Arithmetic>(position: u32, db: Single) -> bool {
    exists|tenths: Single| #[trigger]
        integer_is::<A>(position as u64, tenths) && quotient_is::<A>(tenths, single(TEN), db)
}

fn pre_gain_at<A: Arithmetic>(position: u32) -> (db: Single)
    ensures
        pre_gain_at_is::<A>(position, db),
{
    let tenths = A::from_integer(position as u64);
    assert(integer_is::<A>(position as u64, tenths));
    A::quotient(tenths, Single::from_bits(TEN))
}

/// What the controls say.
pub struct Controls {
    pub size_text: String,
    pub threshold: u32,
    pub attack: u32,
    pub release: u32,
    pub pre_gain: u32,
    pub peak_release: u32,
    /// The selected entries of the two device lists; a place that no list has where none
    /// is selected.
    pub input: usize,
    pub output: usize,
    pub crosshair_enabled: bool,
    pub crosshair_color: u32,
}

/// The device that an entry of a list stands for; the one before where no entry is
/// selected.
pub open spec fn chosen(ids: Seq<String>, at: usize, before: Option<String>) -> Option<String> {
    if at < ids.len() {
        Some(ids[at as int])
    } else {
        before
    }
}

fn choose_device(ids: &Vec<String>, at: usize, device: &mut Option<String>)
    ensures
        *final(device) == chosen(ids@, at, *old(device)),
{
    if at < ids.len() {
        *device = Some(ids[at].clone());
    }
}

impl Controls {
    /// `next` is `config` with what the controls say, the crosshair being `size` across.
    pub open spec fn applied<A: Arithmetic>(
        self,
        size: u32,
        inputs: Seq<String>,
        outputs: Seq<String>,
        config: Config,
        next: Config,
    ) -> bool {
        &&& threshold_at_is::<A>(self.threshold, next.threshold_db)
        &&& next.attack_ms == within(self.attack, SHORTEST_TIME_MS, LONGEST_TIME_MS)
        &&& next.release_ms == within(self.release, SHORTEST_TIME_MS, LONGEST_TIME_MS)
        &&& pre_gain_at_is::<A>(self.pre_gain, next.pre_gain_db)
        &&& next.peak_release_ms == within(
            self.peak_release,
            SHORTEST_PEAK_RELEASE_MS,
            LONGEST_PEAK_RELEASE_MS,
        )
        &&& next.target_input_device_id == chosen(
            inputs,
            self.input,
            config.target_input_device_id,
        )
        &&& next.target_output_device_id == chosen(
            outputs,
            self.output,
            config.target_output_device_id,
        )
        &&& next.crosshair_enabled == self.crosshair_enabled
        &&& next.crosshair_color == self.crosshair_color % COLOR_COUNT
        &&& next.crosshair_size == size
    }

    /// Takes over what the controls say, where the size reads as `number`; gives back the
    /// size of the crosshair. Where the size is not a number, nothing is taken over.
    pub fn apply_number<A: Arithmetic>(
        &self,
        number: Option<u32>,
        inputs: &Vec<String>,
        outputs: &Vec<String>,
        config: &mut Config,
    ) -> (size: Result<u32, &'static str>)
        ensures
            match number {
                Some(number) => {
                    let size_now = within(number, SMALLEST_CROSSHAIR, LARGEST_CROSSHAIR);
                    &&& size == Ok::<u32, &'static str>(size_now)
                    // Each device comes from its own list.
                    &&& self.input < inputs@.len() ==> final(config).target_input_device_id
                        == Some(inputs@[self.input as int])
                    &&& self.input >= inputs@.len() ==> final(config).target_input_device_id
                        == old(config).target_input_device_id
                    &&& self.output < outputs@.len() ==> final(config).target_output_device_id
                        == Some(outputs@[self.output as int])
                    &&& self.output >= outputs@.len() ==> final(config).target_output_device_id
                        == old(config).target_output_device_id
                    &&& self.applied::<A>(
                        size_now,
                        inputs@,
                        outputs@,
                        *old(config),
                        *final(config),
                    )
                },
                None => {
                    &&& size matches Err(message)
                    &&& message@ == "准星大小 格式不正确"@
                    &&& *final(config) == *old(config)
                },
            },
    {
        match number {
            None => Err("准星大小 格式不正确"),
            Some(number) => {
                let size: u32 = clamp_integer(number, SMALLEST_CROSSHAIR, LARGEST_CROSSHAIR);
                config.threshold_db = threshold_at::<A>(self.threshold);
                config.attack_ms = clamp_integer(self.attack, SHORTEST_TIME_MS, LONGEST_TIME_MS);
                config.release_ms = clamp_integer(self.release, SHORTEST_TIME_MS, LONGEST_TIME_MS);
                config.pre_gain_db = pre_gain_at::<A>(self.pre_gain);
                config.peak_release_ms =
                clamp_integer(
                    self.peak_release,
                    SHORTEST_PEAK_RELEASE_MS,
                    LONGEST_PEAK_RELEASE_MS,
                );
                choose_device(inputs, self.input, &mut config.target_input_device_id);
                choose_device(outputs, self.output, &mut config.target_output_device_id);
                config.crosshair_enabled = self.crosshair_enabled;
                config.crosshair_color = self.crosshair_color % COLOR_COUNT;
                config.crosshair_size = size;
                Ok(size)
            },
        }
    }

    /// Takes over what the controls say; gives back the size of the crosshair. Where the
    /// size is not a number, nothing is taken over.
    pub fn apply_controls<A: Arithmetic>(
        &self,
        inputs: &Vec<String>,
        outputs: &Vec<String>,
        config: &mut Config,
    ) -> (size: Result<u32, &'static str>)
        ensures
            match number_in(trimmed(self.size_text@)) {
                Some(number) => {
                    let size_now = within(number, SMALLEST_CROSSHAIR, LARGEST_CROSSHAIR);
                    &&& size == Ok::<u32, &'static str>(size_now)
                    // Each device comes from its own list.
                    &&& self.input < inputs@.len() ==> final(config).target_input_device_id
                        == Some(inputs@[self.input as int])
                    &&& self.input >= inputs@.len() ==> final(config).target_input_device_id
                        == old(config).target_input_device_id
                    &&& self.output < outputs@.len() ==> final(config).target_output_device_id
                        == Some(outputs@[self.output as int])
                    &&& self.output >= outputs@.len() ==> final(config).target_output_device_id
                        == old(config).target_output_device_id
                    &&& self.applied::<A>(
                        size_now,
                        inputs@,
                        outputs@,
                        *old(config),
                        *final(config),
                    )
                },
                None => {
                    &&& size matches Err(message)
                    &&& message@ == "准星大小 格式不正确"@
                    &&& *final(config) == *old(config)
                },
            },
    {
        let text = trim_text(self.size_text.as_str());
        let number = parse_number(text.as_str());
        self.apply_number::<A>(number, inputs, outputs, config)
    }

    /// Takes over what the controls say, lets the crosshair have its size, and publishes the
    /// settings for the running limiter. Where the size is not a number, all three stay as
    /// they are.
    pub fn apply_and_publish<A: Arithmetic>(
        &self,
        inputs: &Vec<String>,
        outputs: &Vec<String>,
        config: &mut Config,
        crosshair_size: &mut u32,
        runtime_params: &mut RuntimeLimiterParams,
    ) -> (done: Result<(), &'static str>)
        ensures
            match number_in(trimmed(self.size_text@)) {
                Some(number) => {
                    let size_now = within(number, SMALLEST_CROSSHAIR, LARGEST_CROSSHAIR);
                    &&& done is Ok
                    // Each device comes from its own list.
                    &&& self.input < inputs@.len() ==> final(config).target_input_device_id
                        == Some(inputs@[self.input as int])
                    &&& self.input >= inputs@.len() ==> final(config).target_input_device_id
                        == old(config).target_input_device_id
                    &&& self.output < outputs@.len() ==> final(config).target_output_device_id
                        == Some(outputs@[self.output as int])
                    &&& self.output >= outputs@.len() ==> final(config).target_output_device_id
                        == old(config).target_output_device_id
                    &&& self.applied::<A>(
                        size_now,
                        inputs@,
                        outputs@,
                        *old(config),
                        *final(config),
                    )
                    &&& *final(crosshair_size) == size_now
                    &&& *final(runtime_params) == old(runtime_params).published(
                        LimiterParams::held_by(final(config)).cleaned(),
                    )
                },
                None => {
                    &&& done matches Err(message)
                    &&& message@ == "准星大小 格式不正确"@
                    &&& *final(config) == *old(config)
                    &&& *final(crosshair_size) == *old(crosshair_size)
                    &&& *final(runtime_params) == *old(runtime_params)
                },
            },
    {
        match self.apply_controls::<A>(inputs, outputs, config) {
            Ok(size) => {
                *crosshair_size = size;
                runtime_params.publish_config(config);
                Ok(())
            },
            Err(message) => Err(message),
        }
    }
}

/// What a command of the window asks for.
#[derive(Clone, Copy, Debug, PartialEq, Eq, Structural)]
pub enum Command {
    RefreshDevices,
    /// Take over the selection, without saving.
    Apply,
    /// Take over whether the crosshair is switched on.
    Crosshair,
    CycleColor,
    StartOrStop,
    Save,
    Ignore,
}

/// `parts` are the two halves of the lower 32 bits of `parameter`.
pub open spec fn are_parts_of(parameter: usize, parts: (i32, u16)) -> bool {
    &&& 0 <= parts.0 < 0x1_0000
    &&& (parameter - (parts.0 + 0x1_0000 * parts.1)) % 0x1_0000_0000 == 0
}

/// The two halves of a command's parameter: the control, and what happened to it.
pub fn command_parts(parameter: usize) -> (parts: (i32, u16))
    ensures
        parts.0 == parameter % 0x1_0000,
        parts.1 == parameter / 0x1_0000 % 0x1_0000,
        are_parts_of(parameter, parts),
{
    ((parameter % 0x1_0000) as i32, (parameter / 0x1_0000 % 0x1_0000) as u16)
}

/// The command of a control.
pub open spec fn command_of(id: i32, selection_changed: bool) -> Command {
    if id == ID_REFRESH {
        Command::RefreshDevices
    } else if (id == ID_INPUT || id == ID_OUTPUT) && selection_changed {
        Command::Apply
    } else if id == ID_CROSSHAIR {
        Command::Crosshair
    } else if id == ID_COLOR {
        Command::CycleColor
    } else if id == ID_START_STOP {
        Command::StartOrStop
    } else if id == ID_SAVE {
        Command::Save
    } else {
        Command::Ignore
    }
}

/// What the control `id` asks for; `selection_changed` says whether an entry of a list was
/// selected.
pub fn handle_command(id: i32, selection_changed: bool) -> (command: Command)
    ensures
        command == (if id == ID_REFRESH {
            Command::RefreshDevices
        } else if (id == ID_INPUT || id == ID_OUTPUT) && selection_changed {
            Command::Apply
        } else if id == ID_CROSSHAIR {
            Command::Crosshair
        } else if id == ID_COLOR {
            Command::CycleColor
        } else if id == ID_START_STOP {
            Command::StartOrStop
        } else if id == ID_SAVE {
            Command::Save
        } else {
            Command::Ignore
        }),
        command == command_of(id, selection_changed),
{
    if id == ID_REFRESH {
        Command::RefreshDevices
    } else if (id == ID_INPUT || id == ID_OUTPUT) && selection_changed {
        Command::Apply
    } else if id == ID_CROSSHAIR {
        Command::Crosshair
    } else if id == ID_COLOR {
        Command::CycleColor
    } else if id == ID_START_STOP {
        Command::StartOrStop
    } else if id == ID_SAVE {
        Command::Save
    } else {
        Command::Ignore
    }
}

/// The control is a slider.
pub open spec fn slides(id: i32) -> bool {
    id == ID_THRESHOLD || id == ID_ATTACK || id == ID_RELEASE || id == ID_PRE_GAIN || id
        == ID_PEAK_RELEASE
}

/// Whether the control is one of the five sliders.
pub fn is_slider(id: i32) -> (is: bool)
    ensures
        is == (id == ID_THRESHOLD || id == ID_ATTACK || id == ID_RELEASE || id == ID_PRE_GAIN || id
            == ID_PEAK_RELEASE),
        is == slides(id),
{
    id == ID_THRESHOLD || id == ID_ATTACK || id == ID_RELEASE || id == ID_PRE_GAIN || id
        == ID_PEAK_RELEASE
}

/// What the start button does.
#[derive(Clone, Copy, Debug, PartialEq, Eq, Structural)]
pub enum StartOrStop {
    /// Switch limiting off.
    Stop,
    /// The settings could not be taken over or saved: say why.
    Refuse,
    /// Say that devices are to be selected first.
    AskForDevices,
    /// Switch limiting on and start a supervisor.
    Start,
}

/// What the start button does where an input and an output device are selected or not.
pub open spec fn button_does(
    limiting: bool,
    applied: bool,
    has_input: bool,
    has_output: bool,
) -> StartOrStop {
    if limiting {
        StartOrStop::Stop
    } else if !applied {
        StartOrStop::Refuse
    } else if has_input && has_output {
        StartOrStop::Start
    } else {
        StartOrStop::AskForDevices
    }
}

/// Decides what the start button does. `applied` says whether the settings could be taken
/// over and saved; it does not matter while limiting is on.
pub fn start_or_stop(limiting: bool, applied: bool, config: &Config) -> (decision: StartOrStop)
    ensures
        decision == (if limiting {
            StartOrStop::Stop
        } else if !applied {
            StartOrStop::Refuse
        } else if config.target_input_device_id is None || config.target_output_device_id is None {
            StartOrStop::AskForDevices
        } else {
            StartOrStop::Start
        }),
        decision == button_does(
            limiting,
            applied,
            config.target_input_device_id is Some,
            config.target_output_device_id is Some,
        ),
{
    if limiting {
        StartOrStop::Stop
    } else if !applied {
        StartOrStop::Refuse
    } else if config.target_input_device_id.is_some() && config.target_output_device_id.is_some() {
        StartOrStop::Start
    } else {
        StartOrStop::AskForDevices
    }
}

/// What the user is told where devices are to be selected first.
pub fn devices_missing_message() -> (message: &'static str)
    ensures
        message@ == "请选择输入和输出设备"@,
{
    "请选择输入和输出设备"
}

/// What the start button says.
pub fn start_button_text(limiting: bool) -> (text: &'static str)
    ensures
        text@ == (if limiting {
            "停止"@
        } else {
            "启动限制"@
        }),
{
    if limiting {
        "停止"
    } else {
        "启动限制"
    }
}

/// The colours that the crosshair goes through, in order.
pub open spec fn crosshair_colors() -> Seq<u32> {
    seq![0x0078FFu32, 0x00FF00, 0xFF0000, 0xFFFF00, 0xFFFFFF, 0xFF00FF]
}

/// The colour after `current`: the next of the list, from the last back to the first; the
/// first where `current` is not on the list.
pub open spec fn color_after(current: u32) -> u32 {
    if current == 0x0078FF {
        0x00FF00
    } else if current == 0x00FF00 {
        0xFF0000
    } else if current == 0xFF0000 {
        0xFFFF00
    } else if current == 0xFFFF00 {
        0xFFFFFF
    } else if current == 0xFFFFFF {
        0xFF00FF
    } else {
        0x0078FF
    }
}

pub fn cycle_crosshair_color(current: u32) -> (next: u32)
    ensures
        next == color_after(current),
{
    if current == 0x0078FF {
        0x00FF00
    } else if current == 0x00FF00 {
        0xFF0000
    } else if current == 0xFF0000 {
        0xFFFF00
    } else if current == 0xFFFF00 {
        0xFFFFFF
    } else if current == 0xFFFFFF {
        0xFF00FF
    } else {
        0x0078FF
    }
}

/// The colours follow the list round and round, and from any other colour the first of
/// them comes next.
pub proof fn law_colors_go_round(at: int, other: u32)
    requires
        0 <= at < 6,
    ensures
        color_after(crosshair_colors()[at]) == crosshair_colors()[(at + 1) % 6],
        !crosshair_colors().contains(other) ==> color_after(other) == crosshair_colors()[0],
{
    let colors = crosshair_colors();
    assert(colors[0] == 0x0078FF && colors[1] == 0x00FF00 && colors[2] == 0xFF0000 && colors[3]
        == 0xFFFF00 && colors[4] == 0xFFFFFF && colors[5] == 0xFF00FF);
}

/// Each device comes from its own list: a selected entry of the list of inputs is the input
/// device, a selected entry of the list of outputs is the output device, and where no entry is
/// selected the device stays.
pub proof fn law_devices_come_from_their_lists<A: Arithmetic>(
    controls: Controls,
    size: u32,
    inputs: Seq<String>,
    outputs: Seq<String>,
    config: Config,
    next: Config,
)
    requires
        controls.applied::<A>(size, inputs, outputs, config, next),
    ensures
        controls.input < inputs.len() ==> next.target_input_device_id == Some(
            inputs[controls.input as int],
        ),
        controls.input >= inputs.len() ==> next.target_input_device_id
            == config.target_input_device_id,
        controls.output < outputs.len() ==> next.target_output_device_id == Some(
            outputs[controls.output as int],
        ),
        controls.output >= outputs.len() ==> next.target_output_device_id
            == config.target_output_device_id,
{
}

/// Neither device depends on the list of the other, nor on where the other list is selected, nor
/// on which device the other one was before.
pub proof fn law_device_lists_do_not_mix<A: Arithmetic>(
    controls: Controls,
    size: u32,
    inputs: Seq<String>,
    outputs: Seq<String>,
    config: Config,
    next: Config,
    other_controls: Controls,
    other_inputs: Seq<String>,
    other_outputs: Seq<String>,
    other_config: Config,
    other_next: Config,
)
    requires
        controls.applied::<A>(size, inputs, outputs, config, next),
        other_controls.applied::<A>(size, other_inputs, other_outputs, other_config, other_next),
    ensures
        controls.output == other_controls.output && outputs == other_outputs
            && config.target_output_device_id == other_config.target_output_device_id
            ==> next.target_output_device_id == other_next.target_output_device_id,
        controls.input == other_controls.input && inputs == other_inputs
            && config.target_input_device_id == other_config.target_input_device_id
            ==> next.target_input_device_id == other_next.target_input_device_id,
{
}

/// What the sliders and the other controls say is taken over as it is where it is in range, each
/// into the setting of its own name: times from 1 to 300 milliseconds, the release of the peak
/// from 20 to 150 milliseconds, a colour of three bytes, and the switch.
pub proof fn law_controls_set_what_they_name<A: Arithmetic>(
    controls: Controls,
    size: u32,
    inputs: Seq<String>,
    outputs: Seq<String>,
    config: Config,
    next: Config,
)
    requires
        controls.applied::<A>(size, inputs, outputs, config, next),
    ensures
        1 <= controls.attack <= 300 ==> next.attack_ms == controls.attack,
        1 <= controls.release <= 300 ==> next.release_ms == controls.release,
        20 <= controls.peak_release <= 150 ==> next.peak_release_ms == controls.peak_release,
        controls.crosshair_color < 0x100_0000 ==> next.crosshair_color
            == controls.crosshair_color,
        next.crosshair_enabled == controls.crosshair_enabled,
        next.crosshair_size == size,
        exists|tenths: Single, decibels: Single|
            #![trigger integer_is::<A>(controls.threshold as u64, tenths), quotient_is::<A>(tenths, single(TEN), decibels)]
            {
                &&& integer_is::<A>(controls.threshold as u64, tenths)
                &&& quotient_is::<A>(tenths, single(TEN), decibels)
                &&& difference_is::<A>(decibels, single(SIXTY), next.threshold_db)
            },
        exists|tenths: Single|
            {
                &&& #[trigger] integer_is::<A>(controls.pre_gain as u64, tenths)
                &&& quotient_is::<A>(tenths, single(TEN), next.pre_gain_db)
            },
{
}

/// What is out of range is taken over as the nearer end of the range.
pub proof fn law_controls_out_of_range_go_to_the_nearer_end<A: Arithmetic>(
    controls: Controls,
    size: u32,
    inputs: Seq<String>,
    outputs: Seq<String>,
    config: Config,
    next: Config,
)
    requires
        controls.applied::<A>(size, inputs, outputs, config, next),
    ensures
        controls.attack == 0 ==> next.attack_ms == 1,
        controls.attack > 300 ==> next.attack_ms == 300,
        controls.release == 0 ==> next.release_ms == 1,
        controls.release > 300 ==> next.release_ms == 300,
        controls.peak_release < 20 ==> next.peak_release_ms == 20,
        controls.peak_release > 150 ==> next.peak_release_ms == 150,
{
}

/// The host's arithmetic is exact enough for tenths of a decibel: a position goes to decibels and
/// back without loss.
pub open spec fn keeps_tenths<A: Arithmetic>(position: u32) -> bool {
    &&& forall|tenths: Single, shifted: Single, db: Single, back: Single, again: Single, count: u64|
        #![trigger integer_is::<A>(position as u64, tenths), quotient_is::<A>(tenths, single(TEN), shifted), difference_is::<A>(shifted, single(SIXTY), db), sum_is::<A>(db, single(SIXTY), back), product_is::<A>(back, single(TEN), again), rounded_is::<A>(again, count)]
        integer_is::<A>(position as u64, tenths) && quotient_is::<A>(tenths, single(TEN), shifted)
            && difference_is::<A>(shifted, single(SIXTY), db) && sum_is::<A>(
            db,
            single(SIXTY),
            back,
        ) && product_is::<A>(back, single(TEN), again) && rounded_is::<A>(again, count) ==> count
            == position
    &&& forall|tenths: Single, db: Single, again: Single, count: u64|
        #![trigger integer_is::<A>(position as u64, tenths), quotient_is::<A>(tenths, single(TEN), db), product_is::<A>(db, single(TEN), again), rounded_is::<A>(again, count)]
        integer_is::<A>(position as u64, tenths) && quotient_is::<A>(tenths, single(TEN), db)
            && product_is::<A>(db, single(TEN), again) && rounded_is::<A>(again, count) ==> count
            == position
}

/// A slider that shows what was taken over from it stands where it stood.
pub proof fn law_sliders_stay_where_they_were_put<A: Arithmetic>(
    position: u32,
    threshold_db: Single,
    pre_gain_db: Single,
    threshold_again: u32,
    pre_gain_again: u32,
)
    requires
        keeps_tenths::<A>(position),
        threshold_at_is::<A>(position, threshold_db),
        threshold_position_is::<A>(threshold_db, threshold_again),
        pre_gain_at_is::<A>(position, pre_gain_db),
        pre_gain_position_is::<A>(pre_gain_db, pre_gain_again),
    ensures
        threshold_again == position,
        pre_gain_again == position,
{
}

/// What the controls say is a configuration with every integer setting in its range.
pub proof fn law_applied_settings_are_in_range<A: Arithmetic>(
    controls: Controls,
    number: u32,
    inputs: Seq<String>,
    outputs: Seq<String>,
    config: Config,
    next: Config,
)
    requires
        controls.applied::<A>(
            within(number, SMALLEST_CROSSHAIR, LARGEST_CROSSHAIR),
            inputs,
            outputs,
            config,
            next,
        ),
    ensures
        SHORTEST_TIME_MS <= next.attack_ms <= LONGEST_TIME_MS,
        SHORTEST_TIME_MS <= next.release_ms <= LONGEST_TIME_MS,
        SHORTEST_PEAK_RELEASE_MS <= next.peak_release_ms <= LONGEST_PEAK_RELEASE_MS,
        next.crosshair_color < COLOR_COUNT,
        SMALLEST_CROSSHAIR <= next.crosshair_size <= LARGEST_CROSSHAIR,
{
}

/// What the sliders show of a configuration, taken over again as it stands, is the configuration:
/// the times are the same, whatever the controls are that hold the positions.
pub proof fn law_shown_settings_are_taken_over_again<A: Arithmetic>(
    config: Config,
    sliders: Seq<SliderSetup>,
    controls: Controls,
    size: u32,
    inputs: Seq<String>,
    outputs: Seq<String>,
    before: Config,
    next: Config,
)
    requires
        config.usable(),
        sliders_show::<A>(config, sliders),
        controls.attack == sliders[1].position,
        controls.release == sliders[2].position,
        controls.peak_release == sliders[4].position,
        controls.applied::<A>(size, inputs, outputs, before, next),
    ensures
        next.attack_ms == config.attack_ms,
        next.release_ms == config.release_ms,
        next.peak_release_ms == config.peak_release_ms,
{
}

/// The sliders know their own settings: changing one time moves one slider and no other.
pub proof fn law_each_slider_shows_one_setting<A: Arithmetic>(
    config: Config,
    sliders: Seq<SliderSetup>,
    other: Config,
    other_sliders: Seq<SliderSetup>,
)
    requires
        sliders_show::<A>(config, sliders),
        sliders_show::<A>(other, other_sliders),
    ensures
        sliders[1].position == other_sliders[1].position <==> config.attack_ms == other.attack_ms,
        sliders[2].position == other_sliders[2].position <==> config.release_ms
            == other.release_ms,
        sliders[4].position == other_sliders[4].position <==> config.peak_release_ms
            == other.peak_release_ms,
        forall|i: int|
            0 <= i < 5 ==> (#[trigger] sliders[i]).id == other_sliders[i].id,
        sliders[0].id == 110 && sliders[1].id == 111 && sliders[2].id == 112 && sliders[3].id == 113
            && sliders[4].id == 114,
{
}

/// A slider can stand where every usable setting has it, and nowhere else: the attack and the release
/// from 1 to 300, the release of the peak from 20 to 150; the threshold has 600 tenths of a decibel
/// to go and the pre-gain 120, and the ticks divide the way of each into whole parts where it starts
/// at nothing.
pub proof fn law_sliders_span_the_usable_settings<A: Arithmetic>(
    config: Config,
    sliders: Seq<SliderSetup>,
)
    requires
        sliders_show::<A>(config, sliders),
    ensures
        config.usable() ==> forall|i: int|
            i == 1 || i == 2 || i == 4 ==> (#[trigger] sliders[i]).minimum <= sliders[i].position
                <= sliders[i].maximum,
        sliders[1].minimum == 1 && sliders[1].maximum == 300,
        sliders[2].minimum == 1 && sliders[2].maximum == 300,
        sliders[4].minimum == 20 && sliders[4].maximum == 150,
        sliders[0].minimum == 0 && sliders[0].maximum == 600,
        sliders[3].minimum == 0 && sliders[3].maximum == 120,
        sliders[0].maximum == 12 * sliders[0].tick_frequency,
        sliders[3].maximum == 12 * sliders[3].tick_frequency,
        sliders[1].tick_frequency == sliders[2].tick_frequency,
        sliders[1].maximum == 12 * sliders[1].tick_frequency,
        sliders[4].maximum == 15 * sliders[4].tick_frequency,
{
}

/// The rows of the window: five sliders, one every 36 pixels from 154 on, each with its name to the
/// left and its value to the right, eight pixels lower, and with identities that follow one another;
/// the lists of devices one below the other; and the row of the crosshair above the row of buttons.
pub proof fn law_rows_are_even(placements: Seq<Placement>, row: int)
    requires
        is_layout(placements),
        0 <= row < 5,
    ensures
        ({
            let label = placements[6 + 3 * row];
            let slider = placements[7 + 3 * row];
            let value = placements[8 + 3 * row];
            &&& slider.kind == ControlKind::Slider
            &&& slider.id == 110 + row
            &&& value.id == 210 + row
            &&& label.id == 0
            &&& slider.y == 154 + 36 * row
            &&& label.y == slider.y + 8
            &&& value.y == label.y
            &&& label.x == 18 && slider.x == 105 && value.x == 302
            &&& label.width == 92 && slider.width == 195 && value.width == 76
            &&& slider.height == 32 && label.height == 24 && value.height == 24
        }),
        placements[2].id == 101 && placements[4].id == 102,
        placements[2].x == 100 && placements[4].x == 100,
        placements[2].width == placements[4].width,
        placements[2].height == placements[4].height,
        placements[4].y == placements[2].y + 36,
        placements[3].y == placements[1].y + 36,
        placements[2].y == placements[1].y - 4,
        placements[2].x + placements[2].width == placements[5].x + placements[5].width,
        placements[24].x + placements[24].width == placements[26].x + placements[26].width,
        placements[25].y == placements[26].y,
        placements[25].width == placements[26].width,
        placements[25].x == 18 && placements[21].x == 18,
        placements[0].x == 18 && placements[0].y == 12,
        placements[0].width == 340 && placements[0].height == 28,
        placements[1].x == 18 && placements[3].x == 18 && placements[1].y == 52,
        placements[1].width == 80 && placements[3].width == 80,
        placements[2].width == 260 && placements[2].height == 240,
        placements[5].y == 120 && placements[5].width == 85 && placements[5].height == 28,
        placements[21].y == 338 && placements[21].width == 135 && placements[21].height == 26,
        placements[22].x == 160 && placements[22].y == 336,
        placements[22].width == 90 && placements[22].height == 28,
        placements[23].x == 260 && placements[23].y == 340 && placements[23].width == 58,
        placements[24].x == 320 && placements[24].y == 337,
        placements[24].width == 40 && placements[24].height == 26,
        placements[25].y == 382 && placements[25].width == 160 && placements[25].height == 38,
        placements[26].height == 38 && placements[26].x == 200,
        placements[1].height == 24 && placements[3].height == 24 && placements[23].height == 24,
        placements[0].id == 0 && placements[1].id == 0 && placements[3].id == 0 && placements[23].id
            == 0,
        placements[2].kind == ControlKind::Combo && placements[4].kind == ControlKind::Combo,
        placements[21].kind == ControlKind::CheckBox && placements[24].kind == ControlKind::Number,
        placements[5].kind == ControlKind::Button && placements[22].kind == ControlKind::Button
            && placements[25].kind == ControlKind::Button && placements[26].kind
            == ControlKind::Button,
        placements[5].id == 103 && placements[21].id == 120 && placements[22].id == 121
            && placements[24].id == 122 && placements[25].id == 130 && placements[26].id == 131,
{
    if row == 0 {
    } else if row == 1 {
    } else if row == 2 {
    } else if row == 3 {
    } else {
        assert(row == 4);
    }
}

/// Two controls lie over one another.
pub open spec fn overlap(a: Placement, b: Placement) -> bool {
    &&& a.x < b.x + b.width
    &&& b.x < a.x + a.width
    &&& a.y < b.y + b.height
    &&& b.y < a.y + a.height
}

/// No control that can be used covers another one, apart from what a list of devices covers while it
/// is open.
#[verifier::rlimit(60)]
pub proof fn law_controls_do_not_cover_each_other(placements: Seq<Placement>, a: int, b: int)
    requires
        is_layout(placements),
        0 <= a < b < placements.len(),
        placements[a].id != 0 && placements[b].id != 0,
        placements[a].kind != ControlKind::Combo && placements[b].kind != ControlKind::Combo,
    ensures
        !overlap(placements[a], placements[b]),
{
}

/// Both ends of a slider's range can be told from the one number that holds them.
pub proof fn law_range_is_unpacked(slider: SliderSetup)
    ensures
        slider.packed() % 0x1_0000 == slider.minimum,
        slider.packed() / 0x1_0000 == slider.maximum,
        0 <= slider.packed() <= u32::MAX,
{
}

/// A parameter of 32 bits is put together again from its two halves, and there is only one way to take
/// it apart; the control is in the lower half.
pub proof fn law_commands_are_put_together_again(
    parameter: usize,
    parts: (i32, u16),
    other: (i32, u16),
)
    requires
        are_parts_of(parameter, parts),
        are_parts_of(parameter, other),
    ensures
        parts == other,
        parts.0 == crate::tray::command_number(parameter),
        parameter <= u32::MAX ==> parameter == parts.0 + 0x1_0000 * parts.1,
{
    let a = parts.0 + 0x1_0000 * parts.1;
    let b = other.0 + 0x1_0000 * other.1;
    assert(a == parameter as int % 0x1_0000_0000);
    assert(b == parameter as int % 0x1_0000_0000);
}

/// Every button has a command of its own: no two controls ask for the same, but for the two lists of
/// devices, which are taken over once another entry is selected. Everything else asks for nothing.
pub proof fn law_each_control_has_its_command(id: i32, other: i32, changed: bool, other_changed: bool)
    ensures
        command_of(id, changed) == command_of(other, other_changed) && command_of(id, changed)
            != Command::Apply && command_of(id, changed) != Command::Ignore ==> id == other,
        command_of(id, changed) == Command::Apply <==> changed && (id == 101 || id == 102),
        command_of(103, changed) == Command::RefreshDevices,
        command_of(120, changed) == Command::Crosshair,
        command_of(121, changed) == Command::CycleColor,
        command_of(130, changed) == Command::StartOrStop,
        command_of(131, changed) == Command::Save,
        slides(id) ==> command_of(id, changed) == Command::Ignore,
        slides(id) <==> 110 <= id <= 114,
{
}

/// A button that is pressed while limiting is on stops it, whatever else holds. Limiting is started
/// only where the settings were taken over and both devices are selected; one device is not enough.
pub proof fn law_start_needs_both_devices(
    limiting: bool,
    applied: bool,
    has_input: bool,
    has_output: bool,
)
    ensures
        button_does(limiting, applied, has_input, has_output) == StartOrStop::Stop <==> limiting,
        button_does(limiting, applied, has_input, has_output) == StartOrStop::Start <==> !limiting
            && applied && has_input && has_output,
        button_does(limiting, applied, has_input, has_output) == StartOrStop::Refuse <==> !limiting
            && !applied,
        button_does(limiting, applied, has_input, has_output) == button_does(
            limiting,
            applied,
            has_output,
            has_input,
        ),
{
}

/// A number of whole units and tenths is written with a point between the two, and with a sign before
/// them where it is below zero.
pub proof fn law_tenths_stand_behind_the_point(whole: nat, tenths: nat)
    requires
        tenths < 10,
    ensures
        tenths_text((10 * whole + tenths) as int) == decimal(whole) + "."@ + decimal(tenths),
        10 * whole + tenths > 0 ==> tenths_text(-(10 * whole + tenths)) == "-"@ + tenths_text(
            (10 * whole + tenths) as int,
        ),
{
    let all = 10 * whole + tenths;
    assert(all / 10 == whole && all % 10 == tenths);
    assert(tenths_text(all as int) =~= decimal(whole) + "."@ + decimal(tenths));
    if all > 0 {
        assert(tenths_text(-all) =~= "-"@ + tenths_text(all as int));
    }
}

} // verus!
