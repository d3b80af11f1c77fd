use vstd::prelude::*;

verus! {

/// How eagerly the daemon reports button events, traded against battery life.
#[derive(Debug, Clone, Copy, PartialEq, Eq, Structural)]
pub enum LatencyMode {
    NormalLatency,
    LowLatency,
    HighLatency,
}

/// The kind of press that a button event reports.
#[derive(Debug, Clone, Copy, PartialEq, Eq, Structural)]
pub enum ClickType {
    ButtonDown,
    ButtonUp,
    ButtonClick,
    ButtonSingleClick,
    ButtonDoubleClick,
    ButtonHold,
}

/// The wire code of a latency mode.
pub open spec fn latency_code(mode: LatencyMode) -> u8 {
    match mode {
        LatencyMode::NormalLatency => 0,
        LatencyMode::LowLatency => 1,
        LatencyMode::HighLatency => 2,
    }
}

/// The click type that a wire code stands for, if any.
pub open spec fn click_type_of(code: u8) -> Option<ClickType> {
    if code == 0 {
        Some(ClickType::ButtonDown)
    } else if code == 1 {
        Some(ClickType::ButtonUp)
    } else if code == 2 {
        Some(ClickType::ButtonClick)
    } else if code == 3 {
        Some(ClickType::ButtonSingleClick)
    } else if code == 4 {
        Some(ClickType::ButtonDoubleClick)
    } else if code == 5 {
        Some(ClickType::ButtonHold)
    } else {
        None
    }
}

impl LatencyMode {
    /// The byte that stands for this mode on the wire.
    pub fn code(&self) -> (c: u8)
        ensures
            c == latency_code(*self),
    {
        match self {
            LatencyMode::NormalLatency => 0,
            LatencyMode::LowLatency => 1,
            LatencyMode::HighLatency => 2,
        }
    }
}

impl ClickType {
    /// The click type that a wire byte stands for; `None` for an unknown code.
    pub fn from_code(code: u8) -> (r: Option<ClickType>)
        ensures
            r == click_type_of(code),
    {
        if code == 0 {
            Some(ClickType::ButtonDown)
        } else if code == 1 {
            Some(ClickType::ButtonUp)
        } else if code == 2 {
            Some(ClickType::ButtonClick)
        } else if code == 3 {
            Some(ClickType::ButtonSingleClick)
        } else if code == 4 {
            Some(ClickType::ButtonDoubleClick)
        } else if code == 5 {
            Some(ClickType::ButtonHold)
        } else {
            None
        }
    }
}

} // verus!
