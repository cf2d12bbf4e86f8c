//! Touchpad settings.

use vstd::prelude::*;
use vstd::string::*;

use crate::text::text_eq;

verus! {

/// What the configuration says of touchpads; what it leaves out stays as it is.
pub struct TouchpadConfig {
    pub tap_to_click: Option<bool>,
    pub tap_and_drag: Option<bool>,
    pub drag_lock: Option<bool>,
    pub disable_while_typing: Option<bool>,
    pub natural_scroll: Option<bool>,
    pub left_handed: Option<bool>,
    pub middle_emulation: Option<bool>,
    /// The pointer speed, by the bits of its double-precision number.
    pub accel_speed: Option<u64>,
    pub accel_profile: Option<String>,
    pub click_method: Option<String>,
    pub scroll_method: Option<String>,
}

#[derive(Clone, Copy, Debug, PartialEq, Eq, Structural)]
pub enum DragLockState {
    Disabled,
    EnabledTimeout,
}

#[derive(Clone, Copy, Debug, PartialEq, Eq, Structural)]
pub enum AccelProfile {
    Flat,
    Adaptive,
}

#[derive(Clone, Copy, Debug, PartialEq, Eq, Structural)]
pub enum ClickMethod {
    ButtonAreas,
    Clickfinger,
}

#[derive(Clone, Copy, Debug, PartialEq, Eq, Structural)]
pub enum ScrollMethod {
    NoScroll,
    TwoFinger,
    Edge,
    OnButtonDown,
}

/// One setting to make on a device.
#[derive(Clone, Copy, Debug, PartialEq, Eq, Structural)]
pub enum TouchpadSetting {
    TapToClick(bool),
    TapAndDrag(bool),
    DragLock(DragLockState),
    DisableWhileTyping(bool),
    NaturalScroll(bool),
    LeftHanded(bool),
    MiddleEmulation(bool),
    AccelSpeed(u64),
    Profile(AccelProfile),
    Click(ClickMethod),
    Scroll(ScrollMethod),
}

/// The pointer profile of this name.
pub open spec fn profile_named(name: Seq<char>) -> Option<AccelProfile> {
    if name == "flat"@ {
        Some(AccelProfile::Flat)
    } else if name == "adaptive"@ {
        Some(AccelProfile::Adaptive)
    } else {
        None
    }
}

/// The click method of this name.
pub open spec fn click_named(name: Seq<char>) -> Option<ClickMethod> {
    if name == "button-areas"@ {
        Some(ClickMethod::ButtonAreas)
    } else if name == "clickfinger"@ {
        Some(ClickMethod::Clickfinger)
    } else {
        None
    }
}

/// The scroll method of this name.
pub open spec fn scroll_named(name: Seq<char>) -> Option<ScrollMethod> {
    if name == "none"@ {
        Some(ScrollMethod::NoScroll)
    } else if name == "two-finger"@ {
        Some(ScrollMethod::TwoFinger)
    } else if name == "edge"@ {
        Some(ScrollMethod::Edge)
    } else if name == "on-button-down"@ {
        Some(ScrollMethod::OnButtonDown)
    } else {
        None
    }
}

/// A list with what there is.
#[verifier::opaque]
pub open spec fn listed(setting: Option<TouchpadSetting>) -> Seq<TouchpadSetting> {
    match setting {
        Some(s) => seq![s],
        None => seq![],
    }
}

/// The settings that a configuration asks for, in the order in which they are
/// made. An unknown name asks for nothing.
pub open spec fn settings_of(cfg: TouchpadConfig) -> Seq<TouchpadSetting> {
    listed(
        match cfg.tap_to_click {
            Some(b) => Some(TouchpadSetting::TapToClick(b)),
            None => None,
        },
    ) + listed(
        match cfg.tap_and_drag {
            Some(b) => Some(TouchpadSetting::TapAndDrag(b)),
            None => None,
        },
    ) + listed(
        match cfg.drag_lock {
            Some(b) => Some(
                TouchpadSetting::DragLock(
                    if b {
                        DragLockState::EnabledTimeout
                    } else {
                        DragLockState::Disabled
                    },
                ),
            ),
            None => None,
        },
    ) + listed(
        match cfg.disable_while_typing {
            Some(b) => Some(TouchpadSetting::DisableWhileTyping(b)),
            None => None,
        },
    ) + listed(
        match cfg.natural_scroll {
            Some(b) => Some(TouchpadSetting::NaturalScroll(b)),
            None => None,
        },
    ) + listed(
        match cfg.left_handed {
            Some(b) => Some(TouchpadSetting::LeftHanded(b)),
            None => None,
        },
    ) + listed(
        match cfg.middle_emulation {
            Some(b) => Some(TouchpadSetting::MiddleEmulation(b)),
            None => None,
        },
    ) + listed(
        match cfg.accel_speed {
            Some(s) => Some(TouchpadSetting::AccelSpeed(s)),
            None => None,
        },
    ) + listed(
        match cfg.accel_profile {
            Some(name) => match profile_named(name@) {
                Some(p) => Some(TouchpadSetting::Profile(p)),
                None => None,
            },
            None => None,
        },
    ) + listed(
        match cfg.click_method {
            Some(name) => match click_named(name@) {
                Some(m) => Some(TouchpadSetting::Click(m)),
                None => None,
            },
            None => None,
        },
    ) + listed(
        match cfg.scroll_method {
            Some(name) => match scroll_named(name@) {
                Some(m) => Some(TouchpadSetting::Scroll(m)),
                None => None,
            },
            None => None,
        },
    )
}

fn push_setting(out: &mut Vec<TouchpadSetting>, setting: Option<TouchpadSetting>)
    ensures
        final(out)@ == old(out)@ + listed(setting),
{
    reveal(listed);
    match setting {
        Some(s) => {
            out.push(s);
            assert(out@ =~= old(out)@ + seq![s]);
        },
        None => {
            assert(out@ =~= old(out)@ + seq![]);
        },
    }
}

/// The settings to make on a device, in order: those that the configuration asks
/// for where the device can be tapped, else none.
#[verifier::rlimit(40)]
pub fn apply_touchpad_config(cfg: &TouchpadConfig, tap_finger_count: u32) -> (r: Vec<
    TouchpadSetting,
>)
    ensures
        r@ == if tap_finger_count == 0 {
            seq![]
        } else {
            settings_of(*cfg)
        },
{
    let mut out: Vec<TouchpadSetting> = Vec::new();
    if tap_finger_count == 0 {
        return out;
    }
    push_setting(
        &mut out,
        match cfg.tap_to_click {
            Some(b) => Some(TouchpadSetting::TapToClick(b)),
            None => None,
        },
    );
    assert(out@ =~= listed(
        match cfg.tap_to_click {
            Some(b) => Some(TouchpadSetting::TapToClick(b)),
            None => None,
        },
    ));
    push_setting(
        &mut out,
        match cfg.tap_and_drag {
            Some(b) => Some(TouchpadSetting::TapAndDrag(b)),
            None => None,
        },
    );
    push_setting(
        &mut out,
        match cfg.drag_lock {
            Some(true) => Some(TouchpadSetting::DragLock(DragLockState::EnabledTimeout)),
            Some(false) => Some(TouchpadSetting::DragLock(DragLockState::Disabled)),
            None => None,
        },
    );
    push_setting(
        &mut out,
        match cfg.disable_while_typing {
            Some(b) => Some(TouchpadSetting::DisableWhileTyping(b)),
            None => None,
        },
    );
    push_setting(
        &mut out,
        match cfg.natural_scroll {
            Some(b) => Some(TouchpadSetting::NaturalScroll(b)),
            None => None,
        },
    );
    push_setting(
        &mut out,
        match cfg.left_handed {
            Some(b) => Some(TouchpadSetting::LeftHanded(b)),
            None => None,
        },
    );
    push_setting(
        &mut out,
        match cfg.middle_emulation {
            Some(b) => Some(TouchpadSetting::MiddleEmulation(b)),
            None => None,
        },
    );
    push_setting(
        &mut out,
        match cfg.accel_speed {
            Some(s) => Some(TouchpadSetting::AccelSpeed(s)),
            None => None,
        },
    );
    push_setting(
        &mut out,
        match &cfg.accel_profile {
            Some(name) => if text_eq(name.as_str(), "flat") {
                Some(TouchpadSetting::Profile(AccelProfile::Flat))
            } else if text_eq(name.as_str(), "adaptive") {
                Some(TouchpadSetting::Profile(AccelProfile::Adaptive))
            } else {
                None
            },
            None => None,
        },
    );
    push_setting(
        &mut out,
        match &cfg.click_method {
            Some(name) => if text_eq(name.as_str(), "button-areas") {
                Some(TouchpadSetting::Click(ClickMethod::ButtonAreas))
            } else if text_eq(name.as_str(), "clickfinger") {
                Some(TouchpadSetting::Click(ClickMethod::Clickfinger))
            } else {
                None
            },
            None => None,
        },
    );
    push_setting(
        &mut out,
        match &cfg.scroll_method {
            Some(name) => if text_eq(name.as_str(), "none") {
                Some(TouchpadSetting::Scroll(ScrollMethod::NoScroll))
            } else if text_eq(name.as_str(), "two-finger") {
                Some(TouchpadSetting::Scroll(ScrollMethod::TwoFinger))
            } else if text_eq(name.as_str(), "edge") {
                Some(TouchpadSetting::Scroll(ScrollMethod::Edge))
            } else if text_eq(name.as_str(), "on-button-down") {
                Some(TouchpadSetting::Scroll(ScrollMethod::OnButtonDown))
            } else {
                None
            },
            None => None,
        },
    );
    out
}

} // verus!
