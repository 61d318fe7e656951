//! What the web dashboard shows that is not a measurement: the alarm table
//! of a BMS page, the marks of the cells on a BMS card, and the entries of the
//! settings page.

use vstd::prelude::*;
use crate::text::{address_hex, address_hex_text, decimal, push_decimal, short_cell_id, str_eq};
use crate::types::Alarms;

verus! {

/// One line of the alarm table of a BMS page.
#[derive(Debug, Clone, Copy)]
pub struct AlarmRow {
    /// Label shown.
    pub name: &'static str,
    /// `true` when the alarm is raised.
    pub active: bool,
}

/// The twelve labels of the alarm table, in the order shown.
pub open spec fn alarm_labels() -> Seq<Seq<char>> {
    seq![
        "Sur-tension pack"@,
        "Sous-tension pack"@,
        "Cellule sous-tension"@,
        "SOC bas"@,
        "Sur-temp. charge"@,
        "Sous-temp. charge"@,
        "Sur-température"@,
        "Sous-température"@,
        "Sur-courant charge"@,
        "Sur-courant décharge"@,
        "Déséquilibre cellules"@,
        "Fusible grillé"@,
    ]
}

/// Whether each alarm of the table is raised, in the order of `alarm_labels`.
pub open spec fn alarm_states(a: Alarms) -> Seq<bool> {
    seq![
        a.high_voltage != 0,
        a.low_voltage != 0,
        a.low_cell_voltage != 0,
        a.low_soc != 0,
        a.high_charge_temperature != 0,
        a.low_charge_temperature != 0,
        a.high_temperature != 0,
        a.low_temperature != 0,
        a.high_charge_current != 0,
        a.high_discharge_current != 0,
        a.cell_imbalance != 0,
        a.fuse_blown != 0,
    ]
}

/// Each row of the alarm table follows its own alarm: the row labelled
/// "Sur-température" is raised exactly when the high-temperature level is not
/// zero, "Sous-température" exactly when the low-temperature level is not,
/// and so on for every label; every label appears in the table.
pub proof fn lemma_alarm_rows_follow_their_alarm(a: Alarms)
    ensures
        forall|i: int| 0 <= i < 12 && alarm_labels()[i] == "Sur-tension pack"@ ==> alarm_states(a)[i] == (a.high_voltage != 0),
        forall|i: int| 0 <= i < 12 && alarm_labels()[i] == "Sous-tension pack"@ ==> alarm_states(a)[i] == (a.low_voltage != 0),
        forall|i: int| 0 <= i < 12 && alarm_labels()[i] == "Cellule sous-tension"@ ==> alarm_states(a)[i] == (a.low_cell_voltage != 0),
        forall|i: int| 0 <= i < 12 && alarm_labels()[i] == "SOC bas"@ ==> alarm_states(a)[i] == (a.low_soc != 0),
        forall|i: int| 0 <= i < 12 && alarm_labels()[i] == "Sur-temp. charge"@ ==> alarm_states(a)[i] == (a.high_charge_temperature != 0),
        forall|i: int| 0 <= i < 12 && alarm_labels()[i] == "Sous-temp. charge"@ ==> alarm_states(a)[i] == (a.low_charge_temperature != 0),
        forall|i: int| 0 <= i < 12 && alarm_labels()[i] == "Sur-température"@ ==> alarm_states(a)[i] == (a.high_temperature != 0),
        forall|i: int| 0 <= i < 12 && alarm_labels()[i] == "Sous-température"@ ==> alarm_states(a)[i] == (a.low_temperature != 0),
        forall|i: int| 0 <= i < 12 && alarm_labels()[i] == "Sur-courant charge"@ ==> alarm_states(a)[i] == (a.high_charge_current != 0),
        forall|i: int| 0 <= i < 12 && alarm_labels()[i] == "Sur-courant décharge"@ ==> alarm_states(a)[i] == (a.high_discharge_current != 0),
        forall|i: int| 0 <= i < 12 && alarm_labels()[i] == "Déséquilibre cellules"@ ==> alarm_states(a)[i] == (a.cell_imbalance != 0),
        forall|i: int| 0 <= i < 12 && alarm_labels()[i] == "Fusible grillé"@ ==> alarm_states(a)[i] == (a.fuse_blown != 0),
        exists|i: int| 0 <= i < 12 && alarm_labels()[i] == "Sur-tension pack"@,
        exists|i: int| 0 <= i < 12 && alarm_labels()[i] == "Sous-tension pack"@,
        exists|i: int| 0 <= i < 12 && alarm_labels()[i] == "Cellule sous-tension"@,
        exists|i: int| 0 <= i < 12 && alarm_labels()[i] == "SOC bas"@,
        exists|i: int| 0 <= i < 12 && alarm_labels()[i] == "Sur-temp. charge"@,
        exists|i: int| 0 <= i < 12 && alarm_labels()[i] == "Sous-temp. charge"@,
        exists|i: int| 0 <= i < 12 && alarm_labels()[i] == "Sur-température"@,
        exists|i: int| 0 <= i < 12 && alarm_labels()[i] == "Sous-température"@,
        exists|i: int| 0 <= i < 12 && alarm_labels()[i] == "Sur-courant charge"@,
        exists|i: int| 0 <= i < 12 && alarm_labels()[i] == "Sur-courant décharge"@,
        exists|i: int| 0 <= i < 12 && alarm_labels()[i] == "Déséquilibre cellules"@,
        exists|i: int| 0 <= i < 12 && alarm_labels()[i] == "Fusible grillé"@,
{
    reveal_strlit("Sur-tension pack");
    reveal_strlit("Sous-tension pack");
    reveal_strlit("Cellule sous-tension");
    reveal_strlit("SOC bas");
    reveal_strlit("Sur-temp. charge");
    reveal_strlit("Sous-temp. charge");
    reveal_strlit("Sur-température");
    reveal_strlit("Sous-température");
    reveal_strlit("Sur-courant charge");
    reveal_strlit("Sur-courant décharge");
    reveal_strlit("Déséquilibre cellules");
    reveal_strlit("Fusible grillé");
    assert(alarm_labels()[0] == "Sur-tension pack"@);
    assert(alarm_labels()[1] == "Sous-tension pack"@);
    assert(alarm_labels()[2] == "Cellule sous-tension"@);
    assert(alarm_labels()[3] == "SOC bas"@);
    assert(alarm_labels()[4] == "Sur-temp. charge"@);
    assert(alarm_labels()[5] == "Sous-temp. charge"@);
    assert(alarm_labels()[6] == "Sur-température"@);
    assert(alarm_labels()[7] == "Sous-température"@);
    assert(alarm_labels()[8] == "Sur-courant charge"@);
    assert(alarm_labels()[9] == "Sur-courant décharge"@);
    assert(alarm_labels()[10] == "Déséquilibre cellules"@);
    assert(alarm_labels()[11] == "Fusible grillé"@);
    assert forall|i: int| 0 <= i < 12 && alarm_labels()[i] == "Sur-tension pack"@ implies alarm_states(a)[i] == (a.high_voltage != 0) by {
        if i == 1 { assert(alarm_labels()[1].len() != "Sur-tension pack"@.len()); }
        if i == 2 { assert(alarm_labels()[2].len() != "Sur-tension pack"@.len()); }
        if i == 3 { assert(alarm_labels()[3].len() != "Sur-tension pack"@.len()); }
        if i == 4 { assert(alarm_labels()[4][6] != "Sur-tension pack"@[6]); }
        if i == 5 { assert(alarm_labels()[5].len() != "Sur-tension pack"@.len()); }
        if i == 6 { assert(alarm_labels()[6].len() != "Sur-tension pack"@.len()); }
        if i == 7 { assert(alarm_labels()[7][1] != "Sur-tension pack"@[1]); }
        if i == 8 { assert(alarm_labels()[8].len() != "Sur-tension pack"@.len()); }
        if i == 9 { assert(alarm_labels()[9].len() != "Sur-tension pack"@.len()); }
        if i == 10 { assert(alarm_labels()[10].len() != "Sur-tension pack"@.len()); }
        if i == 11 { assert(alarm_labels()[11].len() != "Sur-tension pack"@.len()); }
        assert(i == 0);
    }
    assert forall|i: int| 0 <= i < 12 && alarm_labels()[i] == "Sous-tension pack"@ implies alarm_states(a)[i] == (a.low_voltage != 0) by {
        if i == 0 { assert(alarm_labels()[0].len() != "Sous-tension pack"@.len()); }
        if i == 2 { assert(alarm_labels()[2].len() != "Sous-tension pack"@.len()); }
        if i == 3 { assert(alarm_labels()[3].len() != "Sous-tension pack"@.len()); }
        if i == 4 { assert(alarm_labels()[4].len() != "Sous-tension pack"@.len()); }
        if i == 5 { assert(alarm_labels()[5][7] != "Sous-tension pack"@[7]); }
        if i == 6 { assert(alarm_labels()[6].len() != "Sous-tension pack"@.len()); }
        if i == 7 { assert(alarm_labels()[7].len() != "Sous-tension pack"@.len()); }
        if i == 8 { assert(alarm_labels()[8].len() != "Sous-tension pack"@.len()); }
        if i == 9 { assert(alarm_labels()[9].len() != "Sous-tension pack"@.len()); }
        if i == 10 { assert(alarm_labels()[10].len() != "Sous-tension pack"@.len()); }
        if i == 11 { assert(alarm_labels()[11].len() != "Sous-tension pack"@.len()); }
        assert(i == 1);
    }
    assert forall|i: int| 0 <= i < 12 && alarm_labels()[i] == "Cellule sous-tension"@ implies alarm_states(a)[i] == (a.low_cell_voltage != 0) by {
        if i == 0 { assert(alarm_labels()[0].len() != "Cellule sous-tension"@.len()); }
        if i == 1 { assert(alarm_labels()[1].len() != "Cellule sous-tension"@.len()); }
        if i == 3 { assert(alarm_labels()[3].len() != "Cellule sous-tension"@.len()); }
        if i == 4 { assert(alarm_labels()[4].len() != "Cellule sous-tension"@.len()); }
        if i == 5 { assert(alarm_labels()[5].len() != "Cellule sous-tension"@.len()); }
        if i == 6 { assert(alarm_labels()[6].len() != "Cellule sous-tension"@.len()); }
        if i == 7 { assert(alarm_labels()[7].len() != "Cellule sous-tension"@.len()); }
        if i == 8 { assert(alarm_labels()[8].len() != "Cellule sous-tension"@.len()); }
        if i == 9 { assert(alarm_labels()[9][0] != "Cellule sous-tension"@[0]); }
        if i == 10 { assert(alarm_labels()[10].len() != "Cellule sous-tension"@.len()); }
        if i == 11 { assert(alarm_labels()[11].len() != "Cellule sous-tension"@.len()); }
        assert(i == 2);
    }
    assert forall|i: int| 0 <= i < 12 && alarm_labels()[i] == "SOC bas"@ implies alarm_states(a)[i] == (a.low_soc != 0) by {
        if i == 0 { assert(alarm_labels()[0].len() != "SOC bas"@.len()); }
        if i == 1 { assert(alarm_labels()[1].len() != "SOC bas"@.len()); }
        if i == 2 { assert(alarm_labels()[2].len() != "SOC bas"@.len()); }
        if i == 4 { assert(alarm_labels()[4].len() != "SOC bas"@.len()); }
        if i == 5 { assert(alarm_labels()[5].len() != "SOC bas"@.len()); }
        if i == 6 { assert(alarm_labels()[6].len() != "SOC bas"@.len()); }
        if i == 7 { assert(alarm_labels()[7].len() != "SOC bas"@.len()); }
        if i == 8 { assert(alarm_labels()[8].len() != "SOC bas"@.len()); }
        if i == 9 { assert(alarm_labels()[9].len() != "SOC bas"@.len()); }
        if i == 10 { assert(alarm_labels()[10].len() != "SOC bas"@.len()); }
        if i == 11 { assert(alarm_labels()[11].len() != "SOC bas"@.len()); }
        assert(i == 3);
    }
    assert forall|i: int| 0 <= i < 12 && alarm_labels()[i] == "Sur-temp. charge"@ implies alarm_states(a)[i] == (a.high_charge_temperature != 0) by {
        if i == 0 { assert(alarm_labels()[0][6] != "Sur-temp. charge"@[6]); }
        if i == 1 { assert(alarm_labels()[1].len() != "Sur-temp. charge"@.len()); }
        if i == 2 { assert(alarm_labels()[2].len() != "Sur-temp. charge"@.len()); }
        if i == 3 { assert(alarm_labels()[3].len() != "Sur-temp. charge"@.len()); }
        if i == 5 { assert(alarm_labels()[5].len() != "Sur-temp. charge"@.len()); }
        if i == 6 { assert(alarm_labels()[6].len() != "Sur-temp. charge"@.len()); }
        if i == 7 { assert(alarm_labels()[7][1] != "Sur-temp. charge"@[1]); }
        if i == 8 { assert(alarm_labels()[8].len() != "Sur-temp. charge"@.len()); }
        if i == 9 { assert(alarm_labels()[9].len() != "Sur-temp. charge"@.len()); }
        if i == 10 { assert(alarm_labels()[10].len() != "Sur-temp. charge"@.len()); }
        if i == 11 { assert(alarm_labels()[11].len() != "Sur-temp. charge"@.len()); }
        assert(i == 4);
    }
    assert forall|i: int| 0 <= i < 12 && alarm_labels()[i] == "Sous-temp. charge"@ implies alarm_states(a)[i] == (a.low_charge_temperature != 0) by {
        if i == 0 { assert(alarm_labels()[0].len() != "Sous-temp. charge"@.len()); }
        if i == 1 { assert(alarm_labels()[1][7] != "Sous-temp. charge"@[7]); }
        if i == 2 { assert(alarm_labels()[2].len() != "Sous-temp. charge"@.len()); }
        if i == 3 { assert(alarm_labels()[3].len() != "Sous-temp. charge"@.len()); }
        if i == 4 { assert(alarm_labels()[4].len() != "Sous-temp. charge"@.len()); }
        if i == 6 { assert(alarm_labels()[6].len() != "Sous-temp. charge"@.len()); }
        if i == 7 { assert(alarm_labels()[7].len() != "Sous-temp. charge"@.len()); }
        if i == 8 { assert(alarm_labels()[8].len() != "Sous-temp. charge"@.len()); }
        if i == 9 { assert(alarm_labels()[9].len() != "Sous-temp. charge"@.len()); }
        if i == 10 { assert(alarm_labels()[10].len() != "Sous-temp. charge"@.len()); }
        if i == 11 { assert(alarm_labels()[11].len() != "Sous-temp. charge"@.len()); }
        assert(i == 5);
    }
    assert forall|i: int| 0 <= i < 12 && alarm_labels()[i] == "Sur-température"@ implies alarm_states(a)[i] == (a.high_temperature != 0) by {
        if i == 0 { assert(alarm_labels()[0].len() != "Sur-température"@.len()); }
        if i == 1 { assert(alarm_labels()[1].len() != "Sur-température"@.len()); }
        if i == 2 { assert(alarm_labels()[2].len() != "Sur-température"@.len()); }
        if i == 3 { assert(alarm_labels()[3].len() != "Sur-température"@.len()); }
        if i == 4 { assert(alarm_labels()[4].len() != "Sur-température"@.len()); }
        if i == 5 { assert(alarm_labels()[5].len() != "Sur-température"@.len()); }
        if i == 7 { assert(alarm_labels()[7].len() != "Sur-température"@.len()); }
        if i == 8 { assert(alarm_labels()[8].len() != "Sur-température"@.len()); }
        if i == 9 { assert(alarm_labels()[9].len() != "Sur-température"@.len()); }
        if i == 10 { assert(alarm_labels()[10].len() != "Sur-température"@.len()); }
        if i == 11 { assert(alarm_labels()[11].len() != "Sur-température"@.len()); }
        assert(i == 6);
    }
    assert forall|i: int| 0 <= i < 12 && alarm_labels()[i] == "Sous-température"@ implies alarm_states(a)[i] == (a.low_temperature != 0) by {
        if i == 0 { assert(alarm_labels()[0][1] != "Sous-température"@[1]); }
        if i == 1 { assert(alarm_labels()[1].len() != "Sous-température"@.len()); }
        if i == 2 { assert(alarm_labels()[2].len() != "Sous-température"@.len()); }
        if i == 3 { assert(alarm_labels()[3].len() != "Sous-température"@.len()); }
        if i == 4 { assert(alarm_labels()[4][1] != "Sous-température"@[1]); }
        if i == 5 { assert(alarm_labels()[5].len() != "Sous-température"@.len()); }
        if i == 6 { assert(alarm_labels()[6].len() != "Sous-température"@.len()); }
        if i == 8 { assert(alarm_labels()[8].len() != "Sous-température"@.len()); }
        if i == 9 { assert(alarm_labels()[9].len() != "Sous-température"@.len()); }
        if i == 10 { assert(alarm_labels()[10].len() != "Sous-température"@.len()); }
        if i == 11 { assert(alarm_labels()[11].len() != "Sous-température"@.len()); }
        assert(i == 7);
    }
    assert forall|i: int| 0 <= i < 12 && alarm_labels()[i] == "Sur-courant charge"@ implies alarm_states(a)[i] == (a.high_charge_current != 0) by {
        if i == 0 { assert(alarm_labels()[0].len() != "Sur-courant charge"@.len()); }
        if i == 1 { assert(alarm_labels()[1].len() != "Sur-courant charge"@.len()); }
        if i == 2 { assert(alarm_labels()[2].len() != "Sur-courant charge"@.len()); }
        if i == 3 { assert(alarm_labels()[3].len() != "Sur-courant charge"@.len()); }
        if i == 4 { assert(alarm_labels()[4].len() != "Sur-courant charge"@.len()); }
        if i == 5 { assert(alarm_labels()[5].len() != "Sur-courant charge"@.len()); }
        if i == 6 { assert(alarm_labels()[6].len() != "Sur-courant charge"@.len()); }
        if i == 7 { assert(alarm_labels()[7].len() != "Sur-courant charge"@.len()); }
        if i == 9 { assert(alarm_labels()[9].len() != "Sur-courant charge"@.len()); }
        if i == 10 { assert(alarm_labels()[10].len() != "Sur-courant charge"@.len()); }
        if i == 11 { assert(alarm_labels()[11].len() != "Sur-courant charge"@.len()); }
        assert(i == 8);
    }
    assert forall|i: int| 0 <= i < 12 && alarm_labels()[i] == "Sur-courant décharge"@ implies alarm_states(a)[i] == (a.high_discharge_current != 0) by {
        if i == 0 { assert(alarm_labels()[0].len() != "Sur-courant décharge"@.len()); }
        if i == 1 { assert(alarm_labels()[1].len() != "Sur-courant décharge"@.len()); }
        if i == 2 { assert(alarm_labels()[2][0] != "Sur-courant décharge"@[0]); }
        if i == 3 { assert(alarm_labels()[3].len() != "Sur-courant décharge"@.len()); }
        if i == 4 { assert(alarm_labels()[4].len() != "Sur-courant décharge"@.len()); }
        if i == 5 { assert(alarm_labels()[5].len() != "Sur-courant décharge"@.len()); }
        if i == 6 { assert(alarm_labels()[6].len() != "Sur-courant décharge"@.len()); }
        if i == 7 { assert(alarm_labels()[7].len() != "Sur-courant décharge"@.len()); }
        if i == 8 { assert(alarm_labels()[8].len() != "Sur-courant décharge"@.len()); }
        if i == 10 { assert(alarm_labels()[10].len() != "Sur-courant décharge"@.len()); }
        if i == 11 { assert(alarm_labels()[11].len() != "Sur-courant décharge"@.len()); }
        assert(i == 9);
    }
    assert forall|i: int| 0 <= i < 12 && alarm_labels()[i] == "Déséquilibre cellules"@ implies alarm_states(a)[i] == (a.cell_imbalance != 0) by {
        if i == 0 { assert(alarm_labels()[0].len() != "Déséquilibre cellules"@.len()); }
        if i == 1 { assert(alarm_labels()[1].len() != "Déséquilibre cellules"@.len()); }
        if i == 2 { assert(alarm_labels()[2].len() != "Déséquilibre cellules"@.len()); }
        if i == 3 { assert(alarm_labels()[3].len() != "Déséquilibre cellules"@.len()); }
        if i == 4 { assert(alarm_labels()[4].len() != "Déséquilibre cellules"@.len()); }
        if i == 5 { assert(alarm_labels()[5].len() != "Déséquilibre cellules"@.len()); }
        if i == 6 { assert(alarm_labels()[6].len() != "Déséquilibre cellules"@.len()); }
        if i == 7 { assert(alarm_labels()[7].len() != "Déséquilibre cellules"@.len()); }
        if i == 8 { assert(alarm_labels()[8].len() != "Déséquilibre cellules"@.len()); }
        if i == 9 { assert(alarm_labels()[9].len() != "Déséquilibre cellules"@.len()); }
        if i == 11 { assert(alarm_labels()[11].len() != "Déséquilibre cellules"@.len()); }
        assert(i == 10);
    }
    assert forall|i: int| 0 <= i < 12 && alarm_labels()[i] == "Fusible grillé"@ implies alarm_states(a)[i] == (a.fuse_blown != 0) by {
        if i == 0 { assert(alarm_labels()[0].len() != "Fusible grillé"@.len()); }
        if i == 1 { assert(alarm_labels()[1].len() != "Fusible grillé"@.len()); }
        if i == 2 { assert(alarm_labels()[2].len() != "Fusible grillé"@.len()); }
        if i == 3 { assert(alarm_labels()[3].len() != "Fusible grillé"@.len()); }
        if i == 4 { assert(alarm_labels()[4].len() != "Fusible grillé"@.len()); }
        if i == 5 { assert(alarm_labels()[5].len() != "Fusible grillé"@.len()); }
        if i == 6 { assert(alarm_labels()[6].len() != "Fusible grillé"@.len()); }
        if i == 7 { assert(alarm_labels()[7].len() != "Fusible grillé"@.len()); }
        if i == 8 { assert(alarm_labels()[8].len() != "Fusible grillé"@.len()); }
        if i == 9 { assert(alarm_labels()[9].len() != "Fusible grillé"@.len()); }
        if i == 10 { assert(alarm_labels()[10].len() != "Fusible grillé"@.len()); }
        assert(i == 11);
    }
}

/// The alarm table of a BMS: one row per alarm shown (the generic
/// over-current is not), raised when its level is not zero.
pub fn build_alarms(a: &Alarms) -> (rows: Vec<AlarmRow>)
    ensures
        rows@.len() == 12,
        forall|i: int|
            0 <= i < 12 ==> (#[trigger] rows@[i]).name@ == alarm_labels()[i] && rows@[i].active
                == alarm_states(*a)[i],
        forall|i: int| 0 <= i < 12 && (#[trigger] rows@[i]).name@ == "Sur-tension pack"@ ==> rows@[i].active == (a.high_voltage != 0),
        forall|i: int| 0 <= i < 12 && (#[trigger] rows@[i]).name@ == "Sous-tension pack"@ ==> rows@[i].active == (a.low_voltage != 0),
        forall|i: int| 0 <= i < 12 && (#[trigger] rows@[i]).name@ == "Cellule sous-tension"@ ==> rows@[i].active == (a.low_cell_voltage != 0),
        forall|i: int| 0 <= i < 12 && (#[trigger] rows@[i]).name@ == "SOC bas"@ ==> rows@[i].active == (a.low_soc != 0),
        forall|i: int| 0 <= i < 12 && (#[trigger] rows@[i]).name@ == "Sur-temp. charge"@ ==> rows@[i].active == (a.high_charge_temperature != 0),
        forall|i: int| 0 <= i < 12 && (#[trigger] rows@[i]).name@ == "Sous-temp. charge"@ ==> rows@[i].active == (a.low_charge_temperature != 0),
        forall|i: int| 0 <= i < 12 && (#[trigger] rows@[i]).name@ == "Sur-température"@ ==> rows@[i].active == (a.high_temperature != 0),
        forall|i: int| 0 <= i < 12 && (#[trigger] rows@[i]).name@ == "Sous-température"@ ==> rows@[i].active == (a.low_temperature != 0),
        forall|i: int| 0 <= i < 12 && (#[trigger] rows@[i]).name@ == "Sur-courant charge"@ ==> rows@[i].active == (a.high_charge_current != 0),
        forall|i: int| 0 <= i < 12 && (#[trigger] rows@[i]).name@ == "Sur-courant décharge"@ ==> rows@[i].active == (a.high_discharge_current != 0),
        forall|i: int| 0 <= i < 12 && (#[trigger] rows@[i]).name@ == "Déséquilibre cellules"@ ==> rows@[i].active == (a.cell_imbalance != 0),
        forall|i: int| 0 <= i < 12 && (#[trigger] rows@[i]).name@ == "Fusible grillé"@ ==> rows@[i].active == (a.fuse_blown != 0),
{
    proof {
        lemma_alarm_rows_follow_their_alarm(*a);
    }
    let rows = vec![
        AlarmRow { name: "Sur-tension pack", active: a.high_voltage != 0 },
        AlarmRow { name: "Sous-tension pack", active: a.low_voltage != 0 },
        AlarmRow { name: "Cellule sous-tension", active: a.low_cell_voltage != 0 },
        AlarmRow { name: "SOC bas", active: a.low_soc != 0 },
        AlarmRow { name: "Sur-temp. charge", active: a.high_charge_temperature != 0 },
        AlarmRow { name: "Sous-temp. charge", active: a.low_charge_temperature != 0 },
        AlarmRow { name: "Sur-température", active: a.high_temperature != 0 },
        AlarmRow { name: "Sous-température", active: a.low_temperature != 0 },
        AlarmRow { name: "Sur-courant charge", active: a.high_charge_current != 0 },
        AlarmRow { name: "Sur-courant décharge", active: a.high_discharge_current != 0 },
        AlarmRow { name: "Déséquilibre cellules", active: a.cell_imbalance != 0 },
        AlarmRow { name: "Fusible grillé", active: a.fuse_blown != 0 },
    ];
    rows
}

/// A BMS on the settings page.
#[derive(Debug, Clone)]
pub struct SettingsBmsEntry {
    pub address: u8,
    /// The address written `0x01`.
    pub address_hex: String,
    pub name: String,
    pub firmware_sw: String,
    pub firmware_hw: String,
}

impl SettingsBmsEntry {
    /// The entry of the BMS at `address` with the given name and firmware versions.
    pub fn new(address: u8, name: String, firmware_sw: String, firmware_hw: String) -> (e: Self)
        ensures
            e.address == address,
            e.address_hex@ == address_hex_text(address),
            e.name == name,
            e.firmware_sw == firmware_sw,
            e.firmware_hw == firmware_hw,
    {
        SettingsBmsEntry { address, address_hex: address_hex(address), name, firmware_sw, firmware_hw }
    }
}

/// The marks of one cell on a BMS card (its voltage is added by the caller).
#[derive(Debug, Clone, Copy, PartialEq, Eq, Structural)]
pub struct CellMark {
    /// Cell number, from 1.
    pub num: u16,
    /// The cell is the one with the lowest voltage.
    pub is_min: bool,
    /// The cell is the one with the highest voltage.
    pub is_max: bool,
    /// The cell is balancing.
    pub is_bal: bool,
}

/// The marks of cells `1..=count` in numeric order: a cell is the minimum
/// (maximum) when its short identifier `C{n}` is `min_id` (`max_id`), and is
/// balancing when its flag is set (a cell without a flag is not).
pub fn cell_marks(count: u8, min_id: &str, max_id: &str, balancing: &Vec<bool>) -> (v: Vec<CellMark>)
    ensures
        v@.len() == count,
        forall|k: int|
            0 <= k < count ==> {
                &&& (#[trigger] v@[k]).num == k + 1
                &&& v@[k].is_min == (seq!['C'] + decimal((k + 1) as nat) == min_id@)
                &&& v@[k].is_max == (seq!['C'] + decimal((k + 1) as nat) == max_id@)
                &&& v@[k].is_bal == (k < balancing@.len() && balancing@[k])
            },
{
    let mut v: Vec<CellMark> = Vec::new();
    let mut n: u8 = 0;
    while n < count
        invariant
            n <= count,
            v@.len() == n,
            forall|k: int|
                0 <= k < n ==> {
                    &&& (#[trigger] v@[k]).num == k + 1
                    &&& v@[k].is_min == (seq!['C'] + decimal((k + 1) as nat) == min_id@)
                    &&& v@[k].is_max == (seq!['C'] + decimal((k + 1) as nat) == max_id@)
                    &&& v@[k].is_bal == (k < balancing@.len() && balancing@[k])
                },
        decreases count - n,
    {
        let id = short_cell_id(n + 1);
        let is_bal = (n as usize) < balancing.len() && balancing[n as usize];
        v.push(CellMark {
            num: (n as u16) + 1,
            is_min: str_eq(id.as_str(), min_id),
            is_max: str_eq(id.as_str(), max_id),
            is_bal,
        });
        n = n + 1;
    }
    v
}

/// The bus label of a BMS card: `RS485-{address}`.
pub fn bus_label(address: u8) -> (s: String)
    ensures
        s@ == seq!['R', 'S', '4', '8', '5', '-'] + decimal(address as nat),
{
    let mut s = String::from_str("RS485-");
    proof {
        reveal_strlit("RS485-");
    }
    push_decimal(&mut s, address as u64);
    s
}

} // verus!
