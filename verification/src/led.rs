//! The board's three status LEDs: a red/green/blue bank whose pins the
//! firmware drives for boot, success and panic indication.

use vstd::prelude::*;

verus! {

/// Represents a certain color of led.
#[derive(Debug, Clone, Copy, PartialEq, Eq, Structural)]
pub enum Led {
    Red,
    Green,
    Blue,
}

impl Led {
    /// Converts integer index to specified led.
    ///
    /// Mainly used for functions that outside code calls by number.
    pub fn from_index(index: u32) -> (r: Option<Led>)
        ensures
            r == match index {
                0u32 => Some(Led::Red),
                1u32 => Some(Led::Blue),
                2u32 => Some(Led::Green),
                _ => None::<Led>,
            },
    {
        match index {
            0 => Some(Led::Red),
            1 => Some(Led::Blue),
            2 => Some(Led::Green),
            _ => None,
        }
    }
}

/// The lit/unlit state of the led bank.
#[derive(Debug, Clone, Copy, PartialEq, Eq, Structural)]
pub struct LedBank {
    pub red: bool,
    pub green: bool,
    pub blue: bool,
}

impl LedBank {
    /// All leds off, as after boot.
    pub fn new() -> (r: LedBank)
        ensures
            !r.red && !r.green && !r.blue,
    {
        LedBank { red: false, green: false, blue: false }
    }

    /// Whether the given led is lit.
    pub open spec fn spec_lit(self, led: Led) -> bool {
        match led {
            Led::Red => self.red,
            Led::Green => self.green,
            Led::Blue => self.blue,
        }
    }
}

/// Turns on the given led.
pub fn led_on(led: Led, bank: &mut LedBank)
    ensures
        final(bank).spec_lit(led),
        forall|other: Led| other != led ==> final(bank).spec_lit(other) == old(bank).spec_lit(
            other,
        ),
{
    match led {
        Led::Red => bank.red = true,
        Led::Green => bank.green = true,
        Led::Blue => bank.blue = true,
    }
}

/// Turns off the given led.
pub fn led_off(led: Led, bank: &mut LedBank)
    ensures
        !final(bank).spec_lit(led),
        forall|other: Led| other != led ==> final(bank).spec_lit(other) == old(bank).spec_lit(
            other,
        ),
{
    match led {
        Led::Red => bank.red = false,
        Led::Green => bank.green = false,
        Led::Blue => bank.blue = false,
    }
}

/// Toggles the given led.
pub fn led_toggle(led: Led, bank: &mut LedBank)
    ensures
        final(bank).spec_lit(led) == !old(bank).spec_lit(led),
        forall|other: Led| other != led ==> final(bank).spec_lit(other) == old(bank).spec_lit(
            other,
        ),
{
    match led {
        Led::Red => bank.red = !bank.red,
        Led::Green => bank.green = !bank.green,
        Led::Blue => bank.blue = !bank.blue,
    }
}

} // verus!
