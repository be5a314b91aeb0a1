//! The nine fingers and the fixed table that assigns a finger to each
//! physical key.

use vstd::prelude::*;
use crate::text::same_text;

verus! {

/// One of the nine digits used for typing: four lateral fingers of each hand,
/// and the thumb.
#[derive(Clone, Copy, Debug, PartialEq, Eq, Structural)]
pub enum Finger {
    LeftPinky,
    LeftRing,
    LeftMiddle,
    LeftIndex,
    RightIndex,
    RightMiddle,
    RightRing,
    RightPinky,
    Thumb,
}

/// Number of fingers, and so the length of every per-finger vector.
pub const FINGER_COUNT: usize = 9;

/// The finger that operates the key `key`, by the fixed table of the standard
/// key identifiers; `None` for an identifier that the table does not hold.
pub open spec fn finger_for_key(key: Seq<char>) -> Option<Finger> {
    if key == "Space"@ {
        Some(Finger::Thumb)
    } else if key == "Digit1"@ || key == "KeyQ"@ || key == "KeyA"@ || key == "KeyZ"@
        || key == "IntlBackslash"@ {
        Some(Finger::LeftPinky)
    } else if key == "Digit2"@ || key == "KeyW"@ || key == "KeyS"@ || key == "KeyX"@ {
        Some(Finger::LeftRing)
    } else if key == "Digit3"@ || key == "KeyE"@ || key == "KeyD"@ || key == "KeyC"@ {
        Some(Finger::LeftMiddle)
    } else if key == "Digit4"@ || key == "KeyR"@ || key == "KeyF"@ || key == "KeyV"@
        || key == "Digit5"@ || key == "KeyT"@ || key == "KeyG"@ || key == "KeyB"@ {
        Some(Finger::LeftIndex)
    } else if key == "Digit6"@ || key == "KeyY"@ || key == "KeyH"@ || key == "KeyN"@
        || key == "Digit7"@ || key == "KeyU"@ || key == "KeyJ"@ || key == "KeyM"@ {
        Some(Finger::RightIndex)
    } else if key == "Digit8"@ || key == "KeyI"@ || key == "KeyK"@ || key == "Comma"@ {
        Some(Finger::RightMiddle)
    } else if key == "Digit9"@ || key == "KeyO"@ || key == "KeyL"@ || key == "Period"@ {
        Some(Finger::RightRing)
    } else if key == "Digit0"@ || key == "KeyP"@ || key == "Semicolon"@ || key == "Slash"@
        || key == "Minus"@ || key == "Equal"@ || key == "BracketLeft"@
        || key == "BracketRight"@ || key == "Quote"@ || key == "Backquote"@
        || key == "Backslash"@ {
        Some(Finger::RightPinky)
    } else {
        None
    }
}

impl Finger {
    /// Position of the finger in a per-finger vector: the left hand from
    /// pinky to index, the right hand from index to pinky, then the thumb.
    pub open spec fn ordinal(self) -> int {
        match self {
            Finger::LeftPinky => 0,
            Finger::LeftRing => 1,
            Finger::LeftMiddle => 2,
            Finger::LeftIndex => 3,
            Finger::RightIndex => 4,
            Finger::RightMiddle => 5,
            Finger::RightRing => 6,
            Finger::RightPinky => 7,
            Finger::Thumb => 8,
        }
    }

    /// The finger's position in a per-finger vector.
    pub fn as_usize(&self) -> (index: usize)
        ensures
            index == self.ordinal(),
            index < FINGER_COUNT,
    {
        match self {
            Finger::LeftPinky => 0,
            Finger::LeftRing => 1,
            Finger::LeftMiddle => 2,
            Finger::LeftIndex => 3,
            Finger::RightIndex => 4,
            Finger::RightMiddle => 5,
            Finger::RightRing => 6,
            Finger::RightPinky => 7,
            Finger::Thumb => 8,
        }
    }

    /// The finger that operates the key with identifier `input`, or `None`
    /// where the table holds no such key.
    pub fn from_scan_code(input: &str) -> (finger: Option<Finger>)
        ensures
            finger == finger_for_key(input@),
    {
        if same_text(input, "Space") {
            Some(Finger::Thumb)
        } else if same_text(input, "Digit1") || same_text(input, "KeyQ")
            || same_text(input, "KeyA") || same_text(input, "KeyZ")
            || same_text(input, "IntlBackslash") {
            Some(Finger::LeftPinky)
        } else if same_text(input, "Digit2") || same_text(input, "KeyW")
            || same_text(input, "KeyS") || same_text(input, "KeyX") {
            Some(Finger::LeftRing)
        } else if same_text(input, "Digit3") || same_text(input, "KeyE")
            || same_text(input, "KeyD") || same_text(input, "KeyC") {
            Some(Finger::LeftMiddle)
        } else if same_text(input, "Digit4") || same_text(input, "KeyR")
            || same_text(input, "KeyF") || same_text(input, "KeyV")
            || same_text(input, "Digit5") || same_text(input, "KeyT")
            || same_text(input, "KeyG") || same_text(input, "KeyB") {
            Some(Finger::LeftIndex)
        } else if same_text(input, "Digit6") || same_text(input, "KeyY")
            || same_text(input, "KeyH") || same_text(input, "KeyN")
            || same_text(input, "Digit7") || same_text(input, "KeyU")
            || same_text(input, "KeyJ") || same_text(input, "KeyM") {
            Some(Finger::RightIndex)
        } else if same_text(input, "Digit8") || same_text(input, "KeyI")
            || same_text(input, "KeyK") || same_text(input, "Comma") {
            Some(Finger::RightMiddle)
        } else if same_text(input, "Digit9") || same_text(input, "KeyO")
            || same_text(input, "KeyL") || same_text(input, "Period") {
            Some(Finger::RightRing)
        } else if same_text(input, "Digit0") || same_text(input, "KeyP")
            || same_text(input, "Semicolon") || same_text(input, "Slash")
            || same_text(input, "Minus") || same_text(input, "Equal")
            || same_text(input, "BracketLeft") || same_text(input, "BracketRight")
            || same_text(input, "Quote") || same_text(input, "Backquote")
            || same_text(input, "Backslash") {
            Some(Finger::RightPinky)
        } else {
            None
        }
    }
}

/// Two fingers with the same position are the same finger.
pub proof fn lemma_ordinal_injective(a: Finger, b: Finger)
    requires
        a.ordinal() == b.ordinal(),
    ensures
        a == b,
{
}

} // verus!
