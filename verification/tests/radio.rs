use esp_support::radio::{LpconClkConf, LpconPowerSt, PmuModemIcg, SysconPowerSt, WifiLpClkConf};
use esp_support::{
    ble_clock_enable, enable_phy, ieee802154_clock_enable, init_clocks, reset_mac,
    wifi_clock_enable, ModemClocks, RadioPeripherals,
};

fn count_conf(regs: &ModemClocks) -> usize {
    let c = &regs.syscon_clk_conf;
    [
        c.clk_zb_apb_en,
        c.clk_zb_mac_en,
        c.clk_etm_en,
        c.clk_modem_sec_en,
        c.clk_modem_sec_ecb_en,
        c.clk_modem_sec_ccm_en,
        c.clk_modem_sec_bah_en,
        c.clk_modem_sec_apb_en,
        c.clk_ble_timer_en,
    ]
    .iter()
    .filter(|on| **on)
    .count()
}

fn count_conf1(regs: &ModemClocks) -> usize {
    let c = &regs.syscon_clk_conf1;
    [
        c.clk_wifi_apb_en,
        c.clk_wifimac_en,
        c.clk_fe_apb_en,
        c.clk_fe_cal_160m_en,
        c.clk_fe_160m_en,
        c.clk_fe_80m_en,
        c.clk_bt_apb_en,
        c.clk_bt_en,
        c.clk_wifibb_160x1_en,
        c.clk_wifibb_80x1_en,
        c.clk_wifibb_40x1_en,
        c.clk_wifibb_80x_en,
        c.clk_wifibb_40x_en,
        c.clk_wifibb_80m_en,
        c.clk_wifibb_44m_en,
        c.clk_wifibb_40m_en,
        c.clk_wifibb_22m_en,
    ]
    .iter()
    .filter(|on| **on)
    .count()
}

#[test]
fn cleared_registers_have_every_gate_closed() {
    let regs = ModemClocks::cleared();
    assert_eq!(count_conf(&regs), 0);
    assert_eq!(count_conf1(&regs), 0);
    assert_eq!(
        regs.lpcon_clk_conf,
        LpconClkConf { clk_i2c_mst_en: false, clk_wifipwr_en: false, clk_coex_en: false }
    );
    assert!(!regs.lpcon_i2c_mst_sel_160m);
    assert_eq!(regs.wifi_lp_clk_conf.clk_wifipwr_lp_div_num, 0);
}

#[test]
fn phy_switches_the_i2c_master() {
    let mut regs = ModemClocks::cleared();
    enable_phy(&mut regs, true);
    assert!(regs.lpcon_clk_conf.clk_i2c_mst_en);
    assert!(regs.lpcon_i2c_mst_sel_160m);
    assert!(!regs.lpcon_clk_conf.clk_wifipwr_en);
    assert!(!regs.lpcon_clk_conf.clk_coex_en);
    assert_eq!(count_conf(&regs), 0);
    assert_eq!(count_conf1(&regs), 0);
    enable_phy(&mut regs, false);
    assert_eq!(regs, ModemClocks::cleared());
}

#[test]
fn wifi_switches_mac_front_end_and_baseband() {
    let mut regs = ModemClocks::cleared();
    wifi_clock_enable(&mut regs, true);
    assert_eq!(count_conf(&regs), 0);
    assert_eq!(count_conf1(&regs), 15);
    assert!(!regs.syscon_clk_conf1.clk_bt_apb_en);
    assert!(!regs.syscon_clk_conf1.clk_bt_en);
    assert_eq!(
        regs.lpcon_clk_conf,
        LpconClkConf { clk_i2c_mst_en: false, clk_wifipwr_en: true, clk_coex_en: true }
    );
    assert!(!regs.lpcon_i2c_mst_sel_160m);
    wifi_clock_enable(&mut regs, false);
    assert_eq!(regs, ModemClocks::cleared());
}

#[test]
fn ieee802154_leaves_coexistence_on() {
    let mut regs = ModemClocks::cleared();
    ieee802154_clock_enable(&mut regs, true);
    assert_eq!(count_conf(&regs), 2);
    assert!(regs.syscon_clk_conf.clk_zb_apb_en);
    assert!(regs.syscon_clk_conf.clk_zb_mac_en);
    assert_eq!(count_conf1(&regs), 15);
    assert!(!regs.syscon_clk_conf1.clk_wifi_apb_en);
    assert!(!regs.syscon_clk_conf1.clk_wifimac_en);
    assert!(regs.lpcon_clk_conf.clk_coex_en);
    assert!(!regs.lpcon_clk_conf.clk_wifipwr_en);
    ieee802154_clock_enable(&mut regs, false);
    assert_eq!(count_conf(&regs), 0);
    assert_eq!(count_conf1(&regs), 0);
    assert!(regs.lpcon_clk_conf.clk_coex_en);
    let mut fresh = ModemClocks::cleared();
    ieee802154_clock_enable(&mut fresh, false);
    assert!(fresh.lpcon_clk_conf.clk_coex_en);
}

#[test]
fn bluetooth_switches_security_timer_and_front_end() {
    let mut regs = ModemClocks::cleared();
    ble_clock_enable(&mut regs, true);
    assert_eq!(count_conf(&regs), 7);
    assert!(!regs.syscon_clk_conf.clk_zb_apb_en);
    assert!(!regs.syscon_clk_conf.clk_zb_mac_en);
    assert_eq!(count_conf1(&regs), 6);
    assert!(regs.syscon_clk_conf1.clk_bt_apb_en);
    assert!(regs.syscon_clk_conf1.clk_bt_en);
    assert!(regs.syscon_clk_conf1.clk_fe_apb_en);
    assert!(regs.syscon_clk_conf1.clk_fe_cal_160m_en);
    assert!(regs.syscon_clk_conf1.clk_fe_160m_en);
    assert!(regs.syscon_clk_conf1.clk_fe_80m_en);
    assert!(regs.lpcon_clk_conf.clk_coex_en);
    ble_clock_enable(&mut regs, false);
    assert_eq!(regs, ModemClocks::cleared());
}

#[test]
fn switching_one_peripheral_off_closes_what_it_shares() {
    let mut regs = ModemClocks::cleared();
    wifi_clock_enable(&mut regs, true);
    ble_clock_enable(&mut regs, true);
    assert_eq!(count_conf1(&regs), 17);
    ble_clock_enable(&mut regs, false);
    assert_eq!(count_conf1(&regs), 11);
    assert!(!regs.syscon_clk_conf1.clk_fe_apb_en);
    assert!(regs.syscon_clk_conf1.clk_wifimac_en);
    assert!(regs.syscon_clk_conf1.clk_wifibb_22m_en);
    assert!(!regs.lpcon_clk_conf.clk_coex_en);
    assert!(regs.lpcon_clk_conf.clk_wifipwr_en);
}

#[test]
fn reset_mac_changes_nothing() {
    let mut regs = ModemClocks::cleared();
    wifi_clock_enable(&mut regs, true);
    let before = regs;
    reset_mac(&mut regs);
    assert_eq!(regs, before);
    regs.reset_mac();
    regs.ble_rtc_clk_init();
    regs.reset_rpa();
    assert_eq!(regs, before);
}

#[test]
fn init_clocks_sets_codes_maps_and_the_low_power_clock() {
    let mut regs = ModemClocks::cleared();
    ble_clock_enable(&mut regs, true);
    regs.wifi_lp_clk_conf.clk_wifipwr_lp_div_num = 7;
    let before = regs;
    init_clocks(&mut regs);
    assert_eq!(
        regs.pmu,
        PmuModemIcg {
            hp_sleep_dig_icg_modem_code: 0,
            hp_modem_dig_icg_modem_code: 1,
            hp_active_dig_icg_modem_code: 2,
            update_dig_icg_modem_en: true,
            update_dig_icg_switch: true,
        }
    );
    assert_eq!(
        regs.syscon_power_st,
        SysconPowerSt {
            clk_modem_apb_st_map: 6,
            clk_modem_peri_st_map: 4,
            clk_wifi_st_map: 6,
            clk_bt_st_map: 6,
            clk_fe_st_map: 6,
            clk_zb_st_map: 6,
        }
    );
    assert_eq!(
        regs.lpcon_power_st,
        LpconPowerSt {
            clk_lp_apb_st_map: 6,
            clk_i2c_mst_st_map: 6,
            clk_coex_st_map: 6,
            clk_wifipwr_st_map: 6,
        }
    );
    assert_eq!(
        regs.wifi_lp_clk_conf,
        WifiLpClkConf {
            clk_wifipwr_lp_sel_osc_slow: true,
            clk_wifipwr_lp_sel_osc_fast: true,
            clk_wifipwr_lp_sel_xtal32k: true,
            clk_wifipwr_lp_sel_xtal: true,
            clk_wifipwr_lp_div_num: 0,
        }
    );
    assert_eq!(
        regs.lpcon_clk_conf,
        LpconClkConf { clk_i2c_mst_en: false, clk_wifipwr_en: true, clk_coex_en: true }
    );
    assert_eq!(regs.syscon_clk_conf, before.syscon_clk_conf);
    assert_eq!(regs.syscon_clk_conf1, before.syscon_clk_conf1);
    assert_eq!(regs.lpcon_i2c_mst_sel_160m, before.lpcon_i2c_mst_sel_160m);
    let mut again = regs;
    again.init_clocks();
    assert_eq!(again, regs);
}

#[test]
fn enable_and_disable_go_by_the_peripheral() {
    for (peripheral, switch) in [
        (RadioPeripherals::Phy, enable_phy as fn(&mut ModemClocks, bool)),
        (RadioPeripherals::Wifi, wifi_clock_enable),
        (RadioPeripherals::Bt, ble_clock_enable),
        (RadioPeripherals::Ieee802154, ieee802154_clock_enable),
    ] {
        let mut by_method = ModemClocks::cleared();
        let mut by_function = ModemClocks::cleared();
        by_method.enable(peripheral);
        switch(&mut by_function, true);
        assert_eq!(by_method, by_function);
        assert_ne!(by_method, ModemClocks::cleared());
        by_method.disable(peripheral);
        switch(&mut by_function, false);
        assert_eq!(by_method, by_function);
    }
}
