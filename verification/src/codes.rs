//! Event types, button codes and axis codes of the Linux input layer that the
//! remapping rules name, and the fixed layout of the virtual pad.

use vstd::prelude::*;

verus! {

/// Event type of a button or key event.
pub const EV_KEY: u16 = 0x01;

/// Event type of an absolute axis event.
pub const EV_ABS: u16 = 0x03;

pub const ABS_X: u16 = 0x00;

pub const ABS_Y: u16 = 0x01;

/// Left trigger.
pub const ABS_Z: u16 = 0x02;

pub const ABS_RX: u16 = 0x03;

pub const ABS_RY: u16 = 0x04;

/// Right trigger.
pub const ABS_RZ: u16 = 0x05;

pub const ABS_HAT0X: u16 = 0x10;

pub const ABS_HAT0Y: u16 = 0x11;

pub const KEY_LEFTMETA: u16 = 125;

pub const BTN_SOUTH: u16 = 0x130;

pub const BTN_EAST: u16 = 0x131;

pub const BTN_NORTH: u16 = 0x133;

pub const BTN_WEST: u16 = 0x134;

pub const BTN_TL: u16 = 0x136;

pub const BTN_TR: u16 = 0x137;

pub const BTN_TL2: u16 = 0x138;

pub const BTN_TR2: u16 = 0x139;

pub const BTN_SELECT: u16 = 0x13a;

pub const BTN_START: u16 = 0x13b;

pub const BTN_MODE: u16 = 0x13c;

pub const BTN_THUMBL: u16 = 0x13d;

pub const BTN_THUMBR: u16 = 0x13e;

pub const BTN_TOUCH: u16 = 0x14a;

pub const BTN_DPAD_UP: u16 = 0x220;

pub const BTN_DPAD_DOWN: u16 = 0x221;

pub const BTN_DPAD_LEFT: u16 = 0x222;

pub const BTN_DPAD_RIGHT: u16 = 0x223;

/// Bus type of a USB device.
pub const BUS_USB: u16 = 0x03;

/// Bus type of the legacy keyboard controller.
pub const BUS_I8042: u16 = 0x11;

/// Vendor id that the virtual pad reports.
pub const OUTPUT_VENDOR: u16 = 0x045e;

/// Product id that the virtual pad reports.
pub const OUTPUT_PRODUCT: u16 = 0x028e;

/// Version that the virtual pad reports. No physical pad carries it, so a
/// device that does is this program's own output.
pub const OUTPUT_VERSION: u16 = 0x2137;

/// Whether `code` is one of the two hat axes.
pub open spec fn is_hat_axis(code: u16) -> bool {
    code == ABS_HAT0X || code == ABS_HAT0Y
}

/// Whether `code` is one of the two trigger axes.
pub open spec fn is_trigger_axis(code: u16) -> bool {
    code == ABS_Z || code == ABS_RZ
}

/// The eleven buttons of the virtual pad.
pub open spec fn is_output_button(code: u16) -> bool {
    code == BTN_SOUTH || code == BTN_EAST || code == BTN_NORTH || code == BTN_WEST || code
        == BTN_TL || code == BTN_TR || code == BTN_SELECT || code == BTN_START || code == BTN_MODE
        || code == BTN_THUMBL || code == BTN_THUMBR
}

/// The canonical range of the axis `code`: the hat range for a hat axis, the
/// trigger range for a trigger axis, the analog stick range for any other.
pub open spec fn axis_domain(code: u16) -> (i32, i32) {
    if is_hat_axis(code) {
        (crate::domain::MIN_OUT_HAT, crate::domain::MAX_OUT_HAT)
    } else if is_trigger_axis(code) {
        (crate::domain::MIN_OUT_TRIG, crate::domain::MAX_OUT_TRIG)
    } else {
        (crate::domain::MIN_OUT_ANALOG, crate::domain::MAX_OUT_ANALOG)
    }
}

/// How one axis of the virtual pad is set up.
#[derive(Clone, Copy, Debug, PartialEq, Eq, Structural)]
pub struct AxisSetup {
    pub code: u16,
    pub minimum: i32,
    pub maximum: i32,
    /// Noise that is filtered out of the values.
    pub fuzz: i32,
    /// Width of the dead zone around the centre.
    pub flat: i32,
}

/// The axis `code` of the virtual pad, over its canonical range.
pub open spec fn axis_setup(code: u16, fuzz: i32, flat: i32) -> AxisSetup {
    AxisSetup { code, minimum: axis_domain(code).0, maximum: axis_domain(code).1, fuzz, flat }
}

/// The eight axes of the virtual pad: two sticks of two axes each, with a
/// little fuzz and a dead zone, then the two triggers and the two hat axes,
/// with neither.
pub open spec fn output_layout() -> Seq<AxisSetup> {
    seq![
        axis_setup(ABS_X, 16, 256),
        axis_setup(ABS_Y, 16, 256),
        axis_setup(ABS_RX, 16, 256),
        axis_setup(ABS_RY, 16, 256),
        axis_setup(ABS_Z, 0, 0),
        axis_setup(ABS_RZ, 0, 0),
        axis_setup(ABS_HAT0X, 0, 0),
        axis_setup(ABS_HAT0Y, 0, 0),
    ]
}

/// Tells a hat axis from the others.
pub fn hat_axis(code: u16) -> (r: bool)
    ensures
        r == is_hat_axis(code),
{
    code == ABS_HAT0X || code == ABS_HAT0Y
}

/// Tells a trigger axis from the others.
pub fn trigger_axis(code: u16) -> (r: bool)
    ensures
        r == is_trigger_axis(code),
{
    code == ABS_Z || code == ABS_RZ
}

/// Tells whether the virtual pad has the button `code`.
pub fn output_button(code: u16) -> (r: bool)
    ensures
        r == is_output_button(code),
{
    code == BTN_SOUTH || code == BTN_EAST || code == BTN_NORTH || code == BTN_WEST || code
        == BTN_TL || code == BTN_TR || code == BTN_SELECT || code == BTN_START || code == BTN_MODE
        || code == BTN_THUMBL || code == BTN_THUMBR
}

/// The canonical range in which values of the axis `code` are expressed.
pub fn domain_of(code: u16) -> (r: (i32, i32))
    ensures
        r == axis_domain(code),
        r.0 < r.1,
{
    if hat_axis(code) {
        (crate::domain::MIN_OUT_HAT, crate::domain::MAX_OUT_HAT)
    } else if trigger_axis(code) {
        (crate::domain::MIN_OUT_TRIG, crate::domain::MAX_OUT_TRIG)
    } else {
        (crate::domain::MIN_OUT_ANALOG, crate::domain::MAX_OUT_ANALOG)
    }
}

/// The axes with which the virtual pad is created.
pub fn output_axes() -> (r: Vec<AxisSetup>)
    ensures
        r@ == output_layout(),
{
    let mut axes: Vec<AxisSetup> = Vec::new();
    let sticks: [u16; 4] = [ABS_X, ABS_Y, ABS_RX, ABS_RY];
    let others: [u16; 4] = [ABS_Z, ABS_RZ, ABS_HAT0X, ABS_HAT0Y];
    let mut i: usize = 0;
    while i < 4
        invariant
            i <= 4,
            sticks@ == seq![ABS_X, ABS_Y, ABS_RX, ABS_RY],
            axes@ == output_layout().take(i as int),
        decreases 4 - i,
    {
        let range: (i32, i32) = domain_of(sticks[i]);
        axes.push(
            AxisSetup { code: sticks[i], minimum: range.0, maximum: range.1, fuzz: 16, flat: 256 },
        );
        assert(axes@ =~= output_layout().take(i + 1));
        i = i + 1;
    }
    let mut k: usize = 0;
    while k < 4
        invariant
            k <= 4,
            others@ == seq![ABS_Z, ABS_RZ, ABS_HAT0X, ABS_HAT0Y],
            axes@ == output_layout().take(4 + k),
        decreases 4 - k,
    {
        let range: (i32, i32) = domain_of(others[k]);
        axes.push(
            AxisSetup { code: others[k], minimum: range.0, maximum: range.1, fuzz: 0, flat: 0 },
        );
        assert(axes@ =~= output_layout().take(4 + k + 1));
        k = k + 1;
    }
    assert(axes@ =~= output_layout());
    axes
}

/// The buttons with which the virtual pad is created.
pub fn output_buttons() -> (r: Vec<u16>)
    ensures
        r@ == seq![
            BTN_SOUTH,
            BTN_EAST,
            BTN_NORTH,
            BTN_WEST,
            BTN_TL,
            BTN_TR,
            BTN_SELECT,
            BTN_START,
            BTN_MODE,
            BTN_THUMBL,
            BTN_THUMBR,
        ],
        forall|code: u16| r@.contains(code) <==> is_output_button(code),
{
    let mut buttons: Vec<u16> = Vec::new();
    buttons.push(BTN_SOUTH);
    buttons.push(BTN_EAST);
    buttons.push(BTN_NORTH);
    buttons.push(BTN_WEST);
    buttons.push(BTN_TL);
    buttons.push(BTN_TR);
    buttons.push(BTN_SELECT);
    buttons.push(BTN_START);
    buttons.push(BTN_MODE);
    buttons.push(BTN_THUMBL);
    buttons.push(BTN_THUMBR);
    assert(buttons@ =~= seq![
        BTN_SOUTH,
        BTN_EAST,
        BTN_NORTH,
        BTN_WEST,
        BTN_TL,
        BTN_TR,
        BTN_SELECT,
        BTN_START,
        BTN_MODE,
        BTN_THUMBL,
        BTN_THUMBR,
    ]);
    assert forall|code: u16| buttons@.contains(code) <==> is_output_button(code) by {
        if is_output_button(code) {
            assert(buttons@[0] == BTN_SOUTH && buttons@[1] == BTN_EAST && buttons@[2] == BTN_NORTH
                && buttons@[3] == BTN_WEST && buttons@[4] == BTN_TL && buttons@[5] == BTN_TR
                && buttons@[6] == BTN_SELECT && buttons@[7] == BTN_START && buttons@[8] == BTN_MODE
                && buttons@[9] == BTN_THUMBL && buttons@[10] == BTN_THUMBR);
        }
    }
    buttons
}

} // verus!
