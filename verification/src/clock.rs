//! The clock tree of the STM32F207ZG board and the SPI link to the sensor hub.
//!
//! An 8 MHz external clock feeds the PLL, which divides it by 8 and multiplies
//! it by 240; the main PLL output (divided by 2) runs the system at 120 MHz,
//! the second PLL output (divided by 5) gives 48 MHz, and the two peripheral
//! buses run at 30 MHz (APB1) and 60 MHz (APB2). SPI1 hangs off APB2 and runs
//! at 1.875 MHz, within the 3 MHz that the BNO085 accepts.

use vstd::prelude::*;

verus! {

/// The fastest SPI clock that the BNO085 accepts, in Hz.
pub const BNO085_MAX_SPI_HZ: u32 = 3_000_000;

/// The settings of the clock tree.
#[derive(Clone, Copy, Debug, PartialEq, Eq, Structural)]
pub struct ClockPlan {
    /// Frequency of the external clock, in Hz.
    pub hse_hz: u32,
    /// Whether the external clock is a signal (bypassing the oscillator).
    pub hse_bypass: bool,
    /// PLL input divider.
    pub pll_prediv: u32,
    /// PLL multiplier.
    pub pll_mul: u32,
    /// Divider of the main PLL output, which clocks the system.
    pub pll_divp: u32,
    /// Divider of the second PLL output.
    pub pll_divq: u32,
    /// Divider from the system clock to APB1.
    pub apb1_div: u32,
    /// Divider from the system clock to APB2.
    pub apb2_div: u32,
}

/// Frequency of the PLL's oscillator, in Hz.
pub open spec fn vco_hz(c: ClockPlan) -> int {
    c.hse_hz as int / c.pll_prediv as int * c.pll_mul as int
}

/// Frequency of the system clock (the main PLL output), in Hz.
pub open spec fn sysclk_hz(c: ClockPlan) -> int {
    vco_hz(c) / c.pll_divp as int
}

/// Frequency of the second PLL output, in Hz.
pub open spec fn pll_q_hz(c: ClockPlan) -> int {
    vco_hz(c) / c.pll_divq as int
}

/// Frequency of the APB1 bus, in Hz.
pub open spec fn apb1_hz(c: ClockPlan) -> int {
    sysclk_hz(c) / c.apb1_div as int
}

/// Frequency of the APB2 bus, in Hz.
pub open spec fn apb2_hz(c: ClockPlan) -> int {
    sysclk_hz(c) / c.apb2_div as int
}

/// The clock tree of the board.
pub open spec fn board_clock() -> ClockPlan {
    ClockPlan {
        hse_hz: 8_000_000,
        hse_bypass: true,
        pll_prediv: 8,
        pll_mul: 240,
        pll_divp: 2,
        pll_divq: 5,
        apb1_div: 4,
        apb2_div: 2,
    }
}

/// The clock tree of the board: the 8 MHz signal from the debugger, divided
/// by 8 and multiplied by 240, gives a 240 MHz oscillator, a 120 MHz system
/// clock, a 48 MHz second output, APB1 at 30 MHz and APB2 at 60 MHz.
pub fn clock_plan() -> (c: ClockPlan)
    ensures
        c == board_clock(),
        vco_hz(c) == 240_000_000,
        sysclk_hz(c) == 120_000_000,
        pll_q_hz(c) == 48_000_000,
        apb1_hz(c) == 30_000_000,
        apb2_hz(c) == 60_000_000,
{
    ClockPlan {
        hse_hz: 8_000_000,
        hse_bypass: true,
        pll_prediv: 8,
        pll_mul: 240,
        pll_divp: 2,
        pll_divq: 5,
        apb1_div: 4,
        apb2_div: 2,
    }
}

/// The settings of the SPI link to the sensor hub.
#[derive(Clone, Copy, Debug, PartialEq, Eq, Structural)]
pub struct SpiPlan {
    /// Clock frequency, in Hz.
    pub frequency_hz: u32,
    /// Whether the clock idles high (CPOL = 1).
    pub clock_idle_high: bool,
    /// Whether data is captured on the second clock edge (CPHA = 1).
    pub capture_on_second_edge: bool,
}

/// The SPI link to the sensor hub: SPI mode 3, with the 60 MHz APB2 clock
/// divided by 32, that is 1.875 MHz, no faster than the hub accepts.
pub fn spi_plan() -> (s: SpiPlan)
    ensures
        s == (SpiPlan {
            frequency_hz: 1_875_000,
            clock_idle_high: true,
            capture_on_second_edge: true,
        }),
        s.frequency_hz == apb2_hz(board_clock()) / 32,
        s.frequency_hz <= BNO085_MAX_SPI_HZ,
{
    SpiPlan { frequency_hz: 1_875_000, clock_idle_high: true, capture_on_second_edge: true }
}

} // verus!
