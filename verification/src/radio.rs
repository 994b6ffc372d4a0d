//! Clock control for the radio peripherals of the ESP32-C6: which gates of
//! the modem's clock registers each operation opens, closes or leaves alone.
//!
//! The registers are held here as plain values. Whatever reads them from the
//! chip and writes them back stands outside this module.

use vstd::prelude::*;

verus! {

/// The radio peripherals whose clocks can be switched.
#[derive(Clone, Copy, Debug, PartialEq, Eq, Structural)]
pub enum RadioPeripherals {
    Phy,
    Wifi,
    Bt,
    Ieee802154,
}

/// `MODEM_SYSCON.CLK_CONF`: the gates that this module switches.
#[derive(Clone, Copy, Debug, PartialEq, Eq, Structural)]
pub struct SysconClkConf {
    pub clk_zb_apb_en: bool,
    pub clk_zb_mac_en: bool,
    pub clk_etm_en: bool,
    pub clk_modem_sec_en: bool,
    pub clk_modem_sec_ecb_en: bool,
    pub clk_modem_sec_ccm_en: bool,
    pub clk_modem_sec_bah_en: bool,
    pub clk_modem_sec_apb_en: bool,
    pub clk_ble_timer_en: bool,
}

/// `MODEM_SYSCON.CLK_CONF1`: the gates that this module switches.
#[derive(Clone, Copy, Debug, PartialEq, Eq, Structural)]
pub struct SysconClkConf1 {
    pub clk_wifi_apb_en: bool,
    pub clk_wifimac_en: bool,
    pub clk_fe_apb_en: bool,
    pub clk_fe_cal_160m_en: bool,
    pub clk_fe_160m_en: bool,
    pub clk_fe_80m_en: bool,
    pub clk_bt_apb_en: bool,
    pub clk_bt_en: bool,
    pub clk_wifibb_160x1_en: bool,
    pub clk_wifibb_80x1_en: bool,
    pub clk_wifibb_40x1_en: bool,
    pub clk_wifibb_80x_en: bool,
    pub clk_wifibb_40x_en: bool,
    pub clk_wifibb_80m_en: bool,
    pub clk_wifibb_44m_en: bool,
    pub clk_wifibb_40m_en: bool,
    pub clk_wifibb_22m_en: bool,
}

/// `MODEM_SYSCON.CLK_CONF_POWER_ST`: in which power states each clock runs.
#[derive(Clone, Copy, Debug, PartialEq, Eq, Structural)]
pub struct SysconPowerSt {
    pub clk_modem_apb_st_map: u8,
    pub clk_modem_peri_st_map: u8,
    pub clk_wifi_st_map: u8,
    pub clk_bt_st_map: u8,
    pub clk_fe_st_map: u8,
    pub clk_zb_st_map: u8,
}

/// `MODEM_LPCON.CLK_CONF`: the gates that this module switches.
#[derive(Clone, Copy, Debug, PartialEq, Eq, Structural)]
pub struct LpconClkConf {
    pub clk_i2c_mst_en: bool,
    pub clk_wifipwr_en: bool,
    pub clk_coex_en: bool,
}

/// `MODEM_LPCON.CLK_CONF_POWER_ST`: in which power states each clock runs.
#[derive(Clone, Copy, Debug, PartialEq, Eq, Structural)]
pub struct LpconPowerSt {
    pub clk_lp_apb_st_map: u8,
    pub clk_i2c_mst_st_map: u8,
    pub clk_coex_st_map: u8,
    pub clk_wifipwr_st_map: u8,
}

/// `MODEM_LPCON.WIFI_LP_CLK_CONF`: the sources of the Wi-Fi low-power clock
/// and its divider.
#[derive(Clone, Copy, Debug, PartialEq, Eq, Structural)]
pub struct WifiLpClkConf {
    pub clk_wifipwr_lp_sel_osc_slow: bool,
    pub clk_wifipwr_lp_sel_osc_fast: bool,
    pub clk_wifipwr_lp_sel_xtal32k: bool,
    pub clk_wifipwr_lp_sel_xtal: bool,
    pub clk_wifipwr_lp_div_num: u16,
}

/// The modem fields of the power management unit: the gating code for each
/// power mode, and the two strobes that make the unit take them over.
#[derive(Clone, Copy, Debug, PartialEq, Eq, Structural)]
pub struct PmuModemIcg {
    pub hp_sleep_dig_icg_modem_code: u8,
    pub hp_modem_dig_icg_modem_code: u8,
    pub hp_active_dig_icg_modem_code: u8,
    pub update_dig_icg_modem_en: bool,
    pub update_dig_icg_switch: bool,
}

/// All the register fields that switching the radio clocks touches.
#[derive(Clone, Copy, Debug, PartialEq, Eq, Structural)]
pub struct ModemClocks {
    pub syscon_clk_conf: SysconClkConf,
    pub syscon_clk_conf1: SysconClkConf1,
    pub syscon_power_st: SysconPowerSt,
    pub lpcon_clk_conf: LpconClkConf,
    pub lpcon_i2c_mst_sel_160m: bool,
    pub lpcon_power_st: LpconPowerSt,
    pub wifi_lp_clk_conf: WifiLpClkConf,
    pub pmu: PmuModemIcg,
}

/// The front-end gates of `CLK_CONF1`, which Wi-Fi, Bluetooth and
/// IEEE 802.15.4 share, all set to `en`.
pub open spec fn front_end(c: SysconClkConf1, en: bool) -> SysconClkConf1 {
    SysconClkConf1 {
        clk_fe_apb_en: en,
        clk_fe_cal_160m_en: en,
        clk_fe_160m_en: en,
        clk_fe_80m_en: en,
        ..c
    }
}

/// The baseband gates of `CLK_CONF1`, which Wi-Fi and IEEE 802.15.4 share,
/// all set to `en`.
pub open spec fn baseband(c: SysconClkConf1, en: bool) -> SysconClkConf1 {
    SysconClkConf1 {
        clk_wifibb_160x1_en: en,
        clk_wifibb_80x1_en: en,
        clk_wifibb_40x1_en: en,
        clk_wifibb_80x_en: en,
        clk_wifibb_40x_en: en,
        clk_wifibb_80m_en: en,
        clk_wifibb_44m_en: en,
        clk_wifibb_40m_en: en,
        clk_wifibb_22m_en: en,
        ..c
    }
}

/// The registers once the PHY's clock is switched: the I2C master's gate and
/// its 160 MHz source follow `en`.
pub open spec fn phy_switched(r: ModemClocks, en: bool) -> ModemClocks {
    ModemClocks {
        lpcon_clk_conf: LpconClkConf { clk_i2c_mst_en: en, ..r.lpcon_clk_conf },
        lpcon_i2c_mst_sel_160m: en,
        ..r
    }
}

/// The registers once the Wi-Fi clocks are switched: the MAC, the front end,
/// the baseband, the power domain and coexistence follow `en`.
pub open spec fn wifi_switched(r: ModemClocks, en: bool) -> ModemClocks {
    ModemClocks {
        syscon_clk_conf1: baseband(
            front_end(
                SysconClkConf1 { clk_wifi_apb_en: en, clk_wifimac_en: en, ..r.syscon_clk_conf1 },
                en,
            ),
            en,
        ),
        lpcon_clk_conf: LpconClkConf { clk_wifipwr_en: en, clk_coex_en: en, ..r.lpcon_clk_conf },
        ..r
    }
}

/// The registers once the IEEE 802.15.4 clocks are switched: the Zigbee
/// gates, the front end, Bluetooth and the baseband follow `en`;
/// coexistence is switched on whatever `en` is.
pub open spec fn ieee802154_switched(r: ModemClocks, en: bool) -> ModemClocks {
    ModemClocks {
        syscon_clk_conf: SysconClkConf { clk_zb_apb_en: en, clk_zb_mac_en: en, ..r.syscon_clk_conf },
        syscon_clk_conf1: baseband(
            front_end(
                SysconClkConf1 { clk_bt_apb_en: en, clk_bt_en: en, ..r.syscon_clk_conf1 },
                en,
            ),
            en,
        ),
        lpcon_clk_conf: LpconClkConf { clk_coex_en: true, ..r.lpcon_clk_conf },
        ..r
    }
}

/// The registers once the Bluetooth clocks are switched: the event matrix,
/// the security blocks, the timer, the front end, Bluetooth and coexistence
/// follow `en`.
pub open spec fn ble_switched(r: ModemClocks, en: bool) -> ModemClocks {
    ModemClocks {
        syscon_clk_conf: SysconClkConf {
            clk_etm_en: en,
            clk_modem_sec_en: en,
            clk_modem_sec_ecb_en: en,
            clk_modem_sec_ccm_en: en,
            clk_modem_sec_bah_en: en,
            clk_modem_sec_apb_en: en,
            clk_ble_timer_en: en,
            ..r.syscon_clk_conf
        },
        syscon_clk_conf1: front_end(
            SysconClkConf1 { clk_bt_apb_en: en, clk_bt_en: en, ..r.syscon_clk_conf1 },
            en,
        ),
        lpcon_clk_conf: LpconClkConf { clk_coex_en: en, ..r.lpcon_clk_conf },
        ..r
    }
}

/// The registers once the clocks are set up: gating codes 0, 1 and 2 for
/// sleep, modem and active mode, both strobes given, every clock mapped to
/// power states 6 but the modem's peripheral clock, which is mapped to 4,
/// all four sources of the Wi-Fi low-power clock selected with divider 0,
/// and the Wi-Fi power domain's clock on. The other gates stay.
pub open spec fn clocks_initialized(r: ModemClocks) -> ModemClocks {
    ModemClocks {
        pmu: PmuModemIcg {
            hp_sleep_dig_icg_modem_code: 0,
            hp_modem_dig_icg_modem_code: 1,
            hp_active_dig_icg_modem_code: 2,
            update_dig_icg_modem_en: true,
            update_dig_icg_switch: true,
        },
        syscon_power_st: SysconPowerSt {
            clk_modem_apb_st_map: 6,
            clk_modem_peri_st_map: 4,
            clk_wifi_st_map: 6,
            clk_bt_st_map: 6,
            clk_fe_st_map: 6,
            clk_zb_st_map: 6,
        },
        lpcon_power_st: LpconPowerSt {
            clk_lp_apb_st_map: 6,
            clk_i2c_mst_st_map: 6,
            clk_coex_st_map: 6,
            clk_wifipwr_st_map: 6,
        },
        wifi_lp_clk_conf: WifiLpClkConf {
            clk_wifipwr_lp_sel_osc_slow: true,
            clk_wifipwr_lp_sel_osc_fast: true,
            clk_wifipwr_lp_sel_xtal32k: true,
            clk_wifipwr_lp_sel_xtal: true,
            clk_wifipwr_lp_div_num: 0,
        },
        lpcon_clk_conf: LpconClkConf { clk_wifipwr_en: true, ..r.lpcon_clk_conf },
        ..r
    }
}

/// The registers once the clocks of `peripheral` are switched.
pub open spec fn switched(r: ModemClocks, peripheral: RadioPeripherals, en: bool) -> ModemClocks {
    match peripheral {
        RadioPeripherals::Phy => phy_switched(r, en),
        RadioPeripherals::Wifi => wifi_switched(r, en),
        RadioPeripherals::Bt => ble_switched(r, en),
        RadioPeripherals::Ieee802154 => ieee802154_switched(r, en),
    }
}

/// Switching never touches the power maps, the low-power clock or the power
/// management unit, and setting up the clocks never touches the two
/// registers of the system controller's gates.
pub proof fn lemma_switch_and_setup_apart(r: ModemClocks, peripheral: RadioPeripherals, en: bool)
    ensures
        switched(r, peripheral, en).pmu == r.pmu,
        switched(r, peripheral, en).syscon_power_st == r.syscon_power_st,
        switched(r, peripheral, en).lpcon_power_st == r.lpcon_power_st,
        switched(r, peripheral, en).wifi_lp_clk_conf == r.wifi_lp_clk_conf,
        clocks_initialized(r).syscon_clk_conf == r.syscon_clk_conf,
        clocks_initialized(r).syscon_clk_conf1 == r.syscon_clk_conf1,
{
}

/// Sets the four front-end gates.
fn set_front_end(c: SysconClkConf1, en: bool) -> (r: SysconClkConf1)
    ensures
        r == front_end(c, en),
{
    SysconClkConf1 {
        clk_fe_apb_en: en,
        clk_fe_cal_160m_en: en,
        clk_fe_160m_en: en,
        clk_fe_80m_en: en,
        ..c
    }
}

/// Sets the nine baseband gates.
fn set_baseband(c: SysconClkConf1, en: bool) -> (r: SysconClkConf1)
    ensures
        r == baseband(c, en),
{
    SysconClkConf1 {
        clk_wifibb_160x1_en: en,
        clk_wifibb_80x1_en: en,
        clk_wifibb_40x1_en: en,
        clk_wifibb_80x_en: en,
        clk_wifibb_40x_en: en,
        clk_wifibb_80m_en: en,
        clk_wifibb_44m_en: en,
        clk_wifibb_40m_en: en,
        clk_wifibb_22m_en: en,
        ..c
    }
}

/// Switches the clock of the PHY on or off.
pub fn enable_phy(regs: &mut ModemClocks, en: bool)
    ensures
        *final(regs) == phy_switched(*old(regs), en),
{
    regs.lpcon_clk_conf = LpconClkConf { clk_i2c_mst_en: en, ..regs.lpcon_clk_conf };
    regs.lpcon_i2c_mst_sel_160m = en;
}

/// Switches the clocks of Wi-Fi on or off.
pub fn wifi_clock_enable(regs: &mut ModemClocks, en: bool)
    ensures
        *final(regs) == wifi_switched(*old(regs), en),
{
    let mac = SysconClkConf1 { clk_wifi_apb_en: en, clk_wifimac_en: en, ..regs.syscon_clk_conf1 };
    regs.syscon_clk_conf1 = set_baseband(set_front_end(mac, en), en);
    regs.lpcon_clk_conf = LpconClkConf {
        clk_wifipwr_en: en,
        clk_coex_en: en,
        ..regs.lpcon_clk_conf
    };
}

/// Switches the clocks of IEEE 802.15.4 on or off. Coexistence is switched
/// on either way.
pub fn ieee802154_clock_enable(regs: &mut ModemClocks, en: bool)
    ensures
        *final(regs) == ieee802154_switched(*old(regs), en),
{
    regs.syscon_clk_conf = SysconClkConf {
        clk_zb_apb_en: en,
        clk_zb_mac_en: en,
        ..regs.syscon_clk_conf
    };
    let bt = SysconClkConf1 { clk_bt_apb_en: en, clk_bt_en: en, ..regs.syscon_clk_conf1 };
    regs.syscon_clk_conf1 = set_baseband(set_front_end(bt, en), en);
    regs.lpcon_clk_conf = LpconClkConf { clk_coex_en: true, ..regs.lpcon_clk_conf };
}

/// Switches the clocks of Bluetooth on or off.
pub fn ble_clock_enable(regs: &mut ModemClocks, en: bool)
    ensures
        *final(regs) == ble_switched(*old(regs), en),
{
    regs.syscon_clk_conf = SysconClkConf {
        clk_etm_en: en,
        clk_modem_sec_en: en,
        clk_modem_sec_ecb_en: en,
        clk_modem_sec_ccm_en: en,
        clk_modem_sec_bah_en: en,
        clk_modem_sec_apb_en: en,
        clk_ble_timer_en: en,
        ..regs.syscon_clk_conf
    };
    let bt = SysconClkConf1 { clk_bt_apb_en: en, clk_bt_en: en, ..regs.syscon_clk_conf1 };
    regs.syscon_clk_conf1 = set_front_end(bt, en);
    regs.lpcon_clk_conf = LpconClkConf { clk_coex_en: en, ..regs.lpcon_clk_conf };
}

/// Resets the MAC. On this chip there is nothing to do: no register changes.
pub fn reset_mac(regs: &mut ModemClocks)
    ensures
        *final(regs) == *old(regs),
{
}

/// Sets up the modem's clocks.
pub fn init_clocks(regs: &mut ModemClocks)
    ensures
        *final(regs) == clocks_initialized(*old(regs)),
{
    regs.pmu.hp_sleep_dig_icg_modem_code = 0;
    regs.pmu.hp_modem_dig_icg_modem_code = 1;
    regs.pmu.hp_active_dig_icg_modem_code = 2;
    regs.pmu.update_dig_icg_modem_en = true;
    regs.pmu.update_dig_icg_switch = true;
    regs.syscon_power_st = SysconPowerSt {
        clk_modem_apb_st_map: 6,
        clk_modem_peri_st_map: 4,
        clk_wifi_st_map: 6,
        clk_bt_st_map: 6,
        clk_fe_st_map: 6,
        clk_zb_st_map: 6,
    };
    regs.lpcon_power_st = LpconPowerSt {
        clk_lp_apb_st_map: 6,
        clk_i2c_mst_st_map: 6,
        clk_coex_st_map: 6,
        clk_wifipwr_st_map: 6,
    };
    regs.wifi_lp_clk_conf.clk_wifipwr_lp_sel_osc_slow = true;
    regs.wifi_lp_clk_conf.clk_wifipwr_lp_sel_osc_fast = true;
    regs.wifi_lp_clk_conf.clk_wifipwr_lp_sel_xtal32k = true;
    regs.wifi_lp_clk_conf.clk_wifipwr_lp_sel_xtal = true;
    regs.wifi_lp_clk_conf.clk_wifipwr_lp_div_num = 0;
    regs.lpcon_clk_conf.clk_wifipwr_en = true;
}

impl ModemClocks {
    /// Registers with every gate closed and every field zero.
    pub fn cleared() -> (r: ModemClocks)
        ensures
            r == cleared_registers(),
    {
        ModemClocks {
            syscon_clk_conf: SysconClkConf {
                clk_zb_apb_en: false,
                clk_zb_mac_en: false,
                clk_etm_en: false,
                clk_modem_sec_en: false,
                clk_modem_sec_ecb_en: false,
                clk_modem_sec_ccm_en: false,
                clk_modem_sec_bah_en: false,
                clk_modem_sec_apb_en: false,
                clk_ble_timer_en: false,
            },
            syscon_clk_conf1: SysconClkConf1 {
                clk_wifi_apb_en: false,
                clk_wifimac_en: false,
                clk_fe_apb_en: false,
                clk_fe_cal_160m_en: false,
                clk_fe_160m_en: false,
                clk_fe_80m_en: false,
                clk_bt_apb_en: false,
                clk_bt_en: false,
                clk_wifibb_160x1_en: false,
                clk_wifibb_80x1_en: false,
                clk_wifibb_40x1_en: false,
                clk_wifibb_80x_en: false,
                clk_wifibb_40x_en: false,
                clk_wifibb_80m_en: false,
                clk_wifibb_44m_en: false,
                clk_wifibb_40m_en: false,
                clk_wifibb_22m_en: false,
            },
            syscon_power_st: SysconPowerSt {
                clk_modem_apb_st_map: 0,
                clk_modem_peri_st_map: 0,
                clk_wifi_st_map: 0,
                clk_bt_st_map: 0,
                clk_fe_st_map: 0,
                clk_zb_st_map: 0,
            },
            lpcon_clk_conf: LpconClkConf {
                clk_i2c_mst_en: false,
                clk_wifipwr_en: false,
                clk_coex_en: false,
            },
            lpcon_i2c_mst_sel_160m: false,
            lpcon_power_st: LpconPowerSt {
                clk_lp_apb_st_map: 0,
                clk_i2c_mst_st_map: 0,
                clk_coex_st_map: 0,
                clk_wifipwr_st_map: 0,
            },
            wifi_lp_clk_conf: WifiLpClkConf {
                clk_wifipwr_lp_sel_osc_slow: false,
                clk_wifipwr_lp_sel_osc_fast: false,
                clk_wifipwr_lp_sel_xtal32k: false,
                clk_wifipwr_lp_sel_xtal: false,
                clk_wifipwr_lp_div_num: 0,
            },
            pmu: PmuModemIcg {
                hp_sleep_dig_icg_modem_code: 0,
                hp_modem_dig_icg_modem_code: 0,
                hp_active_dig_icg_modem_code: 0,
                update_dig_icg_modem_en: false,
                update_dig_icg_switch: false,
            },
        }
    }

    /// Switches the clocks of `peripheral` on.
    pub fn enable(&mut self, peripheral: RadioPeripherals)
        ensures
            *final(self) == switched(*old(self), peripheral, true),
    {
        match peripheral {
            RadioPeripherals::Phy => enable_phy(self, true),
            RadioPeripherals::Wifi => wifi_clock_enable(self, true),
            RadioPeripherals::Bt => ble_clock_enable(self, true),
            RadioPeripherals::Ieee802154 => ieee802154_clock_enable(self, true),
        }
    }

    /// Switches the clocks of `peripheral` off.
    pub fn disable(&mut self, peripheral: RadioPeripherals)
        ensures
            *final(self) == switched(*old(self), peripheral, false),
    {
        match peripheral {
            RadioPeripherals::Phy => enable_phy(self, false),
            RadioPeripherals::Wifi => wifi_clock_enable(self, false),
            RadioPeripherals::Bt => ble_clock_enable(self, false),
            RadioPeripherals::Ieee802154 => ieee802154_clock_enable(self, false),
        }
    }

    /// Resets the MAC: nothing changes.
    pub fn reset_mac(&mut self)
        ensures
            *final(self) == *old(self),
    {
        reset_mac(self);
    }

    /// Sets up the modem's clocks.
    pub fn init_clocks(&mut self)
        ensures
            *final(self) == clocks_initialized(*old(self)),
    {
        init_clocks(self);
    }

    /// Sets up the real-time clock for Bluetooth: nothing changes on this
    /// chip.
    pub fn ble_rtc_clk_init(&mut self)
        ensures
            *final(self) == *old(self),
    {
    }

    /// Resets the resolvable private address list: nothing changes on this
    /// chip.
    pub fn reset_rpa(&mut self)
        ensures
            *final(self) == *old(self),
    {
    }
}

/// The registers with every gate closed and every field zero.
pub open spec fn cleared_registers() -> ModemClocks {
    ModemClocks {
        syscon_clk_conf: SysconClkConf {
            clk_zb_apb_en: false,
            clk_zb_mac_en: false,
            clk_etm_en: false,
            clk_modem_sec_en: false,
            clk_modem_sec_ecb_en: false,
            clk_modem_sec_ccm_en: false,
            clk_modem_sec_bah_en: false,
            clk_modem_sec_apb_en: false,
            clk_ble_timer_en: false,
        },
        syscon_clk_conf1: baseband(
            front_end(
                SysconClkConf1 {
                    clk_wifi_apb_en: false,
                    clk_wifimac_en: false,
                    clk_fe_apb_en: false,
                    clk_fe_cal_160m_en: false,
                    clk_fe_160m_en: false,
                    clk_fe_80m_en: false,
                    clk_bt_apb_en: false,
                    clk_bt_en: false,
                    clk_wifibb_160x1_en: false,
                    clk_wifibb_80x1_en: false,
                    clk_wifibb_40x1_en: false,
                    clk_wifibb_80x_en: false,
                    clk_wifibb_40x_en: false,
                    clk_wifibb_80m_en: false,
                    clk_wifibb_44m_en: false,
                    clk_wifibb_40m_en: false,
                    clk_wifibb_22m_en: false,
                },
                false,
            ),
            false,
        ),
        syscon_power_st: SysconPowerSt {
            clk_modem_apb_st_map: 0,
            clk_modem_peri_st_map: 0,
            clk_wifi_st_map: 0,
            clk_bt_st_map: 0,
            clk_fe_st_map: 0,
            clk_zb_st_map: 0,
        },
        lpcon_clk_conf: LpconClkConf {
            clk_i2c_mst_en: false,
            clk_wifipwr_en: false,
            clk_coex_en: false,
        },
        lpcon_i2c_mst_sel_160m: false,
        lpcon_power_st: LpconPowerSt {
            clk_lp_apb_st_map: 0,
            clk_i2c_mst_st_map: 0,
            clk_coex_st_map: 0,
            clk_wifipwr_st_map: 0,
        },
        wifi_lp_clk_conf: WifiLpClkConf {
            clk_wifipwr_lp_sel_osc_slow: false,
            clk_wifipwr_lp_sel_osc_fast: false,
            clk_wifipwr_lp_sel_xtal32k: false,
            clk_wifipwr_lp_sel_xtal: false,
            clk_wifipwr_lp_div_num: 0,
        },
        pmu: PmuModemIcg {
            hp_sleep_dig_icg_modem_code: 0,
            hp_modem_dig_icg_modem_code: 0,
            hp_active_dig_icg_modem_code: 0,
            update_dig_icg_modem_en: false,
            update_dig_icg_switch: false,
        },
    }
}

} // verus!
