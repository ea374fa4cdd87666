//! Global configuration registers: clock selection, peripheral clock
//! gating, peripheral resets and the cache flush bit.

use vstd::prelude::*;

verus! {

/// Frequency of the internal secondary oscillator in ticks per second.
pub const ISO_FREQUENCY: u32 = 60000000;

/// Frequency of the internal nano-ring oscillator in ticks per second.
pub const INRO_FREQUENCY: u32 = 30000;

/// Frequency of the internal primary oscillator in ticks per second.
pub const IPO_FREQUENCY: u32 = 100000000;

/// Frequency of the internal baud rate oscillator in ticks per second.
pub const IBRO_FREQUENCY: u32 = 7372800;

/// Frequency of the external real-time clock oscillator in ticks per second.
pub const ERTCO_FREQUENCY: u32 = 32768;

/// Default frequency assumed for an external clock in ticks per second.
pub const EXTCLK_FREQUENCY: u32 = 75000000;

/// The clock the system clock multiplexer can select.
#[derive(Debug, Clone, Copy, PartialEq, Eq, Structural)]
pub enum SysclkSource {
    Iso,
    Inro,
    Ipo,
    Ibro,
    Ertco,
    Extclk,
}

/// The nominal frequency of each selectable clock source.
pub open spec fn spec_source_frequency(source: SysclkSource) -> u32 {
    match source {
        SysclkSource::Iso => ISO_FREQUENCY,
        SysclkSource::Inro => INRO_FREQUENCY,
        SysclkSource::Ipo => IPO_FREQUENCY,
        SysclkSource::Ibro => IBRO_FREQUENCY,
        SysclkSource::Ertco => ERTCO_FREQUENCY,
        SysclkSource::Extclk => EXTCLK_FREQUENCY,
    }
}

/// Global configuration registers.
///
/// Used for controlling certain global features of the device and enabling
/// other peripherals and such.
pub struct Gcr {
    /// Which clock feeds the system clock multiplexer.
    pub sysclk_source: SysclkSource,
    /// The power-of-two the selected clock is divided by; a 3-bit field.
    pub sysclk_divide: u8,
    /// Whether the baud-rate oscillator is running.
    pub ibro_enabled: bool,
    /// Whether the uart's peripheral clock is running.
    pub uart0_clock_enabled: bool,
    /// Whether the inter-board bus clock is running.
    pub i2c1_clock_enabled: bool,
    /// Whether the first gpio bank's clock is running.
    pub gpio0_clock_enabled: bool,
    /// Whether the led gpio bank's clock is running.
    pub gpio2_clock_enabled: bool,
    /// Whether the random number generator's clock is running.
    pub trng_clock_enabled: bool,
    /// Whether the instruction cache may hold stale lines.
    pub cache_dirty: bool,
    /// Whether the uart is held in reset.
    pub uart0_in_reset: bool,
    /// Whether the inter-board bus is held in reset.
    pub i2c1_in_reset: bool,
}

impl Gcr {
    /// The system clock divider is a 3-bit field.
    pub open spec fn wf(self) -> bool {
        self.sysclk_divide <= 7
    }

    /// Registers as they come out of power-on reset: the fast internal
    /// oscillator selected, undivided, every modelled peripheral clock
    /// running.
    pub fn new(source: SysclkSource, divide: u8) -> (r: Gcr)
        requires
            divide <= 7,
        ensures
            r.wf(),
            r.sysclk_source == source,
            r.sysclk_divide == divide,
    {
        Gcr {
            sysclk_source: source,
            sysclk_divide: divide,
            ibro_enabled: false,
            uart0_clock_enabled: true,
            i2c1_clock_enabled: true,
            gpio0_clock_enabled: true,
            gpio2_clock_enabled: true,
            trng_clock_enabled: true,
            cache_dirty: false,
            uart0_in_reset: false,
            i2c1_in_reset: false,
        }
    }

    /// Gets the frequency of system clock in ticks per second.
    pub fn get_sysclock_frequency(&self) -> (r: u32)
        requires
            self.wf(),
        ensures
            r == spec_source_frequency(self.sysclk_source) >> self.sysclk_divide,
    {
        let frequency = match self.sysclk_source {
            SysclkSource::Iso => ISO_FREQUENCY,
            SysclkSource::Inro => INRO_FREQUENCY,
            SysclkSource::Ipo => IPO_FREQUENCY,
            SysclkSource::Ibro => IBRO_FREQUENCY,
            SysclkSource::Ertco => ERTCO_FREQUENCY,
            SysclkSource::Extclk => EXTCLK_FREQUENCY,
        };
        frequency >> self.sysclk_divide as u32
    }

    /// Gets the frequency of the clock used for many peripherals in ticks per second.
    pub fn get_peripheral_clock_frequency(&self) -> (r: u32)
        requires
            self.wf(),
        ensures
            r == (spec_source_frequency(self.sysclk_source) >> self.sysclk_divide) / 2,
    {
        self.get_sysclock_frequency() / 2
    }

    /// Pulses the reset line of the uart, leaving it out of reset.
    pub fn reset_uart0(&mut self)
        requires
            old(self).wf(),
        ensures
            final(self).wf(),
            *final(self) == (Gcr { uart0_in_reset: false, ..*old(self) }),
    {
        self.uart0_in_reset = false;
    }

    /// Pulses the reset line of the inter-board bus, leaving it out of reset.
    pub fn reset_i2c1(&mut self)
        requires
            old(self).wf(),
        ensures
            final(self).wf(),
            *final(self) == (Gcr { i2c1_in_reset: false, ..*old(self) }),
    {
        self.i2c1_in_reset = false;
    }

    /// Enables the IBRO (Internal Baud Rate Oscillator) clock.
    ///
    /// This clock is used by the uart for timing purposes.
    pub fn enable_ibro_clock(&mut self)
        requires
            old(self).wf(),
        ensures
            final(self).wf(),
            *final(self) == (Gcr { ibro_enabled: true, ..*old(self) }),
    {
        self.ibro_enabled = true;
    }

    /// Gates or ungates the uart's peripheral clock.
    pub fn set_uart0_clock_enabled(&mut self, enabled: bool)
        requires
            old(self).wf(),
        ensures
            final(self).wf(),
            *final(self) == (Gcr { uart0_clock_enabled: enabled, ..*old(self) }),
    {
        self.uart0_clock_enabled = enabled;
    }

    /// Gates or ungates the inter-board bus clock.
    pub fn set_i2c1_clock_enabled(&mut self, enabled: bool)
        requires
            old(self).wf(),
        ensures
            final(self).wf(),
            *final(self) == (Gcr { i2c1_clock_enabled: enabled, ..*old(self) }),
    {
        self.i2c1_clock_enabled = enabled;
    }

    /// Gates or ungates the first gpio bank's clock.
    pub fn set_gpio0_clock_enabled(&mut self, enabled: bool)
        requires
            old(self).wf(),
        ensures
            final(self).wf(),
            *final(self) == (Gcr { gpio0_clock_enabled: enabled, ..*old(self) }),
    {
        self.gpio0_clock_enabled = enabled;
    }

    /// Gates or ungates the led gpio bank's clock.
    pub fn set_gpio2_clock_enabled(&mut self, enabled: bool)
        requires
            old(self).wf(),
        ensures
            final(self).wf(),
            *final(self) == (Gcr { gpio2_clock_enabled: enabled, ..*old(self) }),
    {
        self.gpio2_clock_enabled = enabled;
    }

    /// Gates or ungates the random number generator's clock.
    pub fn set_trng_clock_enabled(&mut self, enabled: bool)
        requires
            old(self).wf(),
        ensures
            final(self).wf(),
            *final(self) == (Gcr { trng_clock_enabled: enabled, ..*old(self) }),
    {
        self.trng_clock_enabled = enabled;
    }

    /// Flushes the instruction cache, and perhaps some other caches.
    pub fn flush_cache(&mut self)
        requires
            old(self).wf(),
        ensures
            final(self).wf(),
            *final(self) == (Gcr { cache_dirty: false, ..*old(self) }),
    {
        self.cache_dirty = false;
    }
}

} // verus!
