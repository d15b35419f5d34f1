use awaitbalance::clock::{clock_plan, spi_plan, ClockPlan, SpiPlan, BNO085_MAX_SPI_HZ};

#[test]
fn board_clock_tree() {
    let c = clock_plan();
    assert_eq!(
        c,
        ClockPlan {
            hse_hz: 8_000_000,
            hse_bypass: true,
            pll_prediv: 8,
            pll_mul: 240,
            pll_divp: 2,
            pll_divq: 5,
            apb1_div: 4,
            apb2_div: 2,
        }
    );
    let vco = c.hse_hz as u64 / c.pll_prediv as u64 * c.pll_mul as u64;
    assert_eq!(vco, 240_000_000);
    assert_eq!(vco / c.pll_divp as u64, 120_000_000);
    assert_eq!(vco / c.pll_divq as u64, 48_000_000);
    assert_eq!(vco / c.pll_divp as u64 / c.apb1_div as u64, 30_000_000);
    assert_eq!(vco / c.pll_divp as u64 / c.apb2_div as u64, 60_000_000);
}

#[test]
fn spi_link() {
    let s = spi_plan();
    assert_eq!(
        s,
        SpiPlan { frequency_hz: 1_875_000, clock_idle_high: true, capture_on_second_edge: true }
    );
    assert_eq!(s.frequency_hz, 60_000_000 / 32);
    assert!(s.frequency_hz <= BNO085_MAX_SPI_HZ);
}
