use daly_bms::alerts::{action_word, rule_catalog, rule_step, telegram_configured, AlertAction, AlertStates, RuleState, Severity};
use daly_bms::dashboard::{build_alarms, bus_label, cell_marks, CellMark, SettingsBmsEntry};
use daly_bms::meters::{decode_et112, et112_read_plan, irradiance_from, log_read_error, ShortBlock};
use daly_bms::types::Alarms;

#[test]
fn alert_raised_once_until_cleared() {
    let s0 = RuleState::default();
    let (s1, a1) = rule_step(s0, true, false, 1_000, 300_000);
    assert_eq!(a1, AlertAction::NotifyTriggered);
    assert!(s1.active);
    assert_eq!(s1.last_notified_ms, Some(1_000));
    let (s2, a2) = rule_step(s1, true, false, 2_000, 300_000);
    assert_eq!(a2, AlertAction::Nothing);
    assert_eq!(s2, s1);
    let (s3, a3) = rule_step(s2, true, true, 3_000, 300_000);
    assert_eq!(a3, AlertAction::NotifyCleared);
    assert!(!s3.active);
    let (s4, a4) = rule_step(s3, true, false, 4_000, 300_000);
    assert_eq!(a4, AlertAction::Nothing);
    assert!(s4.active);
    assert_eq!(s4.last_notified_ms, Some(1_000));
    let (_, a5) = rule_step(RuleState { active: false, last_notified_ms: Some(1_000) }, true, false, 301_000, 300_000);
    assert_eq!(a5, AlertAction::NotifyTriggered);
}

#[test]
fn inactive_rule_without_trigger_stays_quiet() {
    let (s, a) = rule_step(RuleState::default(), false, true, 5, 10);
    assert_eq!(a, AlertAction::Nothing);
    assert_eq!(s, RuleState::default());
}

#[test]
fn alert_rule_catalog() {
    let rules = rule_catalog();
    assert_eq!(rules.len(), 7);
    assert_eq!(rules[0].id, "cell_ovp");
    assert_eq!(rules[0].severity, Severity::Critical);
    assert_eq!(rules[0].cooldown_secs, 300);
    assert_eq!(rules[2].description, "Déséquilibre cellules");
    assert_eq!(rules[3].cooldown_secs, 900);
    assert_eq!(rules[6].id, "high_current");
    assert_eq!(rules[6].cooldown_secs, 60);
    assert_eq!(Severity::Warning.icon(), "⚠️");
    assert_eq!(Severity::Critical.icon(), "🔴");
    assert_eq!(action_word(true), "DÉCLENCHÉE");
    assert_eq!(action_word(false), "EFFACÉE");
    assert!(telegram_configured("t", "c"));
    assert!(!telegram_configured("t", ""));
}

#[test]
fn dashboard_alarm_table() {
    let a = Alarms { high_voltage: 1, fuse_blown: 2, high_current: 1, ..Default::default() };
    let rows = build_alarms(&a);
    assert_eq!(rows.len(), 12);
    assert_eq!(rows[0].name, "Sur-tension pack");
    assert!(rows[0].active);
    assert!(!rows[1].active);
    assert_eq!(rows[11].name, "Fusible grillé");
    assert!(rows[11].active);
    assert_eq!(rows.iter().filter(|r| r.active).count(), 2);
}

#[test]
fn settings_entry() {
    let e = SettingsBmsEntry::new(0x28, "BMS-360Ah".to_string(), "1.0".to_string(), "2.0".to_string());
    assert_eq!(e.address_hex, "0x28");
    assert_eq!(e.name, "BMS-360Ah");
}

#[test]
fn et112_plan_and_decoding() {
    assert_eq!(et112_read_plan(), vec![(0x0000, 16), (0x0010, 2), (0x0020, 2)]);
    let mut b1 = vec![0u16; 16];
    b1[0] = 2301;
    b1[2] = 0xFFFF;
    b1[3] = 0xFFFF;
    b1[15] = 500;
    let m = decode_et112(&b1, &vec![10, 0], &vec![0, 1]).unwrap();
    assert_eq!(m.voltage_dv, 2301);
    assert_eq!(m.current_ma, -1);
    assert_eq!(m.frequency_dhz, 500);
    assert_eq!(m.energy_import_dkwh, 10);
    assert_eq!(m.energy_export_dkwh, 65536);
    b1[15] = 0xFFFE;
    assert_eq!(decode_et112(&b1, &vec![0, 0], &vec![0, 0]).unwrap().frequency_dhz, -2);
    assert_eq!(decode_et112(&vec![0; 15], &vec![0, 0], &vec![0, 0]), Err(ShortBlock { block: 1, len: 15 }));
    assert_eq!(decode_et112(&b1, &vec![0], &vec![0, 0]), Err(ShortBlock { block: 2, len: 1 }));
    assert_eq!(decode_et112(&b1, &vec![0, 0], &vec![]), Err(ShortBlock { block: 3, len: 0 }));
}

#[test]
fn irradiance_and_error_logging() {
    assert_eq!(irradiance_from(&vec![334]), Some(334));
    assert_eq!(irradiance_from(&vec![]), None);
    assert!(log_read_error(1));
    assert!(!log_read_error(2));
    assert!(log_read_error(12));
    assert!(log_read_error(24));
    assert!(!log_read_error(13));
}

#[test]
fn alert_states_per_bms_and_rule() {
    let mut states = AlertStates::new();
    assert_eq!(states.state_of(1, 0), RuleState { active: false, last_notified_ms: None });
    assert_eq!(states.evaluate_rule(1, 0, true, false, 1_000, 300_000), AlertAction::NotifyTriggered);
    assert_eq!(states.state_of(1, 0), RuleState { active: true, last_notified_ms: Some(1_000) });
    // Other rules of the same BMS and the same rule of another BMS are untouched.
    assert_eq!(states.state_of(1, 1), RuleState { active: false, last_notified_ms: None });
    assert_eq!(states.state_of(2, 0), RuleState { active: false, last_notified_ms: None });
    assert_eq!(states.evaluate_rule(2, 0, true, false, 2_000, 300_000), AlertAction::NotifyTriggered);
    assert_eq!(states.evaluate_rule(1, 0, true, false, 3_000, 300_000), AlertAction::Nothing);
    assert_eq!(states.evaluate_rule(1, 0, false, true, 4_000, 300_000), AlertAction::NotifyCleared);
    assert_eq!(states.state_of(1, 0), RuleState { active: false, last_notified_ms: Some(1_000) });
    assert_eq!(states.state_of(2, 0), RuleState { active: true, last_notified_ms: Some(2_000) });
    // Raised again within the cooldown: state follows, no notification.
    assert_eq!(states.evaluate_rule(1, 0, true, false, 5_000, 300_000), AlertAction::Nothing);
    assert_eq!(states.state_of(1, 0), RuleState { active: true, last_notified_ms: Some(1_000) });
}

#[test]
fn cell_marks_of_a_card() {
    let marks = cell_marks(4, "C3", "C1", &vec![false, true]);
    assert_eq!(
        marks,
        vec![
            CellMark { num: 1, is_min: false, is_max: true, is_bal: false },
            CellMark { num: 2, is_min: false, is_max: false, is_bal: true },
            CellMark { num: 3, is_min: true, is_max: false, is_bal: false },
            CellMark { num: 4, is_min: false, is_max: false, is_bal: false },
        ]
    );
    assert_eq!(cell_marks(0, "C1", "C1", &Vec::new()), Vec::<CellMark>::new());
    assert_eq!(bus_label(2), "RS485-2");
    assert_eq!(bus_label(255), "RS485-255");
}
