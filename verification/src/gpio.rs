//! GPIO pin configuration types and a model of the output registers of
//! the two banks the firmware drives.

use vstd::prelude::*;

verus! {

/// Which gpio bank a configuration addresses.
#[derive(Debug, Clone, Copy, PartialEq, Eq, Structural)]
pub enum GpioType {
    Gpio0,
    Gpio2,
}

/// Specifies function of the gpio pin.
#[derive(Debug, Clone, Copy, PartialEq, Eq, Structural)]
pub enum GpioPinFunction {
    /// Gpio pin is used for input.
    Input,
    /// Gpio pin is used for output.
    Output,
    /// Gpio pin is used for an alternative function of some other device.
    Alternate1,
}

/// Controls voltage source for gpio pins.
#[derive(Debug, Clone, Copy, PartialEq, Eq, Structural)]
pub enum GpioPinVoltage {
    /// Regular voltage.
    Vddio,
    /// High voltage.
    Vddioh,
}

/// Controls the pad resistors of gpio pins.
#[derive(Debug, Clone, Copy, PartialEq, Eq, Structural)]
pub enum GpioPadConfig {
    /// No resistors.
    NoResistors,
    /// A pullup resistor will be used.
    PullUp,
}

/// Specifies configuration options for GPIO pins.
#[derive(Debug, Clone, Copy, PartialEq, Eq, Structural)]
pub struct ConfigureIoOptions {
    pub gpio_type: GpioType,
    /// pin mask is a bitmask of pins, where each set bit indicates a pin to be configured.
    pub pin_mask: u32,
    pub function: GpioPinFunction,
    pub pad: GpioPadConfig,
    pub voltage: GpioPinVoltage,
}

/// The output registers of the two gpio banks.
pub struct Gpio {
    out0: u32,
    out2: u32,
}

impl Gpio {
    /// The output register of the given bank.
    pub closed spec fn spec_out(self, gpio_type: GpioType) -> u32 {
        match gpio_type {
            GpioType::Gpio0 => self.out0,
            GpioType::Gpio2 => self.out2,
        }
    }

    /// Both banks with all outputs low.
    pub fn new() -> (r: Gpio)
        ensures
            r.spec_out(GpioType::Gpio0) == 0,
            r.spec_out(GpioType::Gpio2) == 0,
    {
        Gpio { out0: 0, out2: 0 }
    }

    /// Drives the masked pins of the bank high.
    pub fn output_set(&mut self, gpio_type: GpioType, pins: u32)
        ensures
            final(self).spec_out(gpio_type) == old(self).spec_out(gpio_type) | pins,
            forall|other: GpioType|
                other != gpio_type ==> final(self).spec_out(other) == old(self).spec_out(other),
    {
        match gpio_type {
            GpioType::Gpio0 => self.out0 = self.out0 | pins,
            GpioType::Gpio2 => self.out2 = self.out2 | pins,
        }
    }

    /// Drives the masked pins of the bank low.
    pub fn output_clear(&mut self, gpio_type: GpioType, pins: u32)
        ensures
            final(self).spec_out(gpio_type) == old(self).spec_out(gpio_type) & !pins,
            forall|other: GpioType|
                other != gpio_type ==> final(self).spec_out(other) == old(self).spec_out(other),
    {
        match gpio_type {
            GpioType::Gpio0 => self.out0 = self.out0 & !pins,
            GpioType::Gpio2 => self.out2 = self.out2 & !pins,
        }
    }

    /// Inverts the masked pins of the bank.
    pub fn output_toggle(&mut self, gpio_type: GpioType, pins: u32)
        ensures
            final(self).spec_out(gpio_type) == old(self).spec_out(gpio_type) ^ pins,
            forall|other: GpioType|
                other != gpio_type ==> final(self).spec_out(other) == old(self).spec_out(other),
    {
        match gpio_type {
            GpioType::Gpio0 => self.out0 = self.out0 ^ pins,
            GpioType::Gpio2 => self.out2 = self.out2 ^ pins,
        }
    }
}

} // verus!
