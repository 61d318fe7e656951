//! Alert rules with hysteresis and notification cooldown.
//!
//! Each rule of each BMS has a state: active or not, and when it last
//! notified. A rule that is not active becomes active when its trigger
//! condition holds, and notifies unless it notified less than its cooldown
//! ago; an active rule only leaves that state when its (stricter) clear
//! condition holds, which always notifies.

use vstd::prelude::*;
use std::collections::BTreeMap;

verus! {

broadcast use vstd::std_specs::btree::group_btree_axioms, vstd::laws_cmp::group_laws_cmp;

/// Severity of an alert.
#[derive(Debug, Clone, Copy, PartialEq, Eq, Structural)]
pub enum Severity {
    Warning,
    Critical,
}

impl Severity {
    /// The icon shown in front of a notification.
    pub fn icon(&self) -> (s: &'static str)
        ensures
            *self == Severity::Warning ==> s@ == "⚠️"@,
            *self == Severity::Critical ==> s@ == "🔴"@,
    {
        match self {
            Severity::Warning => "⚠️",
            Severity::Critical => "🔴",
        }
    }
}

/// The fixed part of an alert rule: what it is called, how severe it is and
/// how long it waits before notifying again. Its thresholds are the
/// configuration's.
#[derive(Debug, Clone, Copy)]
pub struct RuleInfo {
    pub id: &'static str,
    pub description: &'static str,
    pub severity: Severity,
    pub cooldown_secs: u64,
}

/// The rules, in the order they are evaluated: identifier, description,
/// severity and cooldown in seconds.
pub open spec fn rule_table() -> Seq<(Seq<char>, Seq<char>, Severity, u64)> {
    seq![
        ("cell_ovp"@, "Sur-tension cellule"@, Severity::Critical, 300u64),
        ("cell_uvp"@, "Sous-tension cellule"@, Severity::Critical, 300u64),
        ("cell_imbalance"@, "Déséquilibre cellules"@, Severity::Warning, 600u64),
        ("soc_low"@, "SOC bas"@, Severity::Warning, 900u64),
        ("soc_critical"@, "SOC critique"@, Severity::Critical, 300u64),
        ("temp_high"@, "Sur-température"@, Severity::Critical, 300u64),
        ("high_current"@, "Sur-courant"@, Severity::Warning, 60u64),
    ]
}

/// Each rule, found by its identifier, has its own description, severity and
/// cooldown: the over- and under-voltage of a cell, the critical SOC and the
/// over-temperature are critical (300 s); the imbalance (600 s), the low SOC
/// (900 s) and the over-current (60 s) are warnings. Every identifier is in
/// the catalogue.
pub proof fn lemma_rules_by_id()
    ensures
        forall|k: int| 0 <= k < rule_table().len() && rule_table()[k].0 == "cell_ovp"@ ==> rule_table()[k].1 == "Sur-tension cellule"@ && rule_table()[k].2 == Severity::Critical && rule_table()[k].3 == 300u64,
        exists|k: int| 0 <= k < rule_table().len() && rule_table()[k].0 == "cell_ovp"@,
        forall|k: int| 0 <= k < rule_table().len() && rule_table()[k].0 == "cell_uvp"@ ==> rule_table()[k].1 == "Sous-tension cellule"@ && rule_table()[k].2 == Severity::Critical && rule_table()[k].3 == 300u64,
        exists|k: int| 0 <= k < rule_table().len() && rule_table()[k].0 == "cell_uvp"@,
        forall|k: int| 0 <= k < rule_table().len() && rule_table()[k].0 == "cell_imbalance"@ ==> rule_table()[k].1 == "Déséquilibre cellules"@ && rule_table()[k].2 == Severity::Warning && rule_table()[k].3 == 600u64,
        exists|k: int| 0 <= k < rule_table().len() && rule_table()[k].0 == "cell_imbalance"@,
        forall|k: int| 0 <= k < rule_table().len() && rule_table()[k].0 == "soc_low"@ ==> rule_table()[k].1 == "SOC bas"@ && rule_table()[k].2 == Severity::Warning && rule_table()[k].3 == 900u64,
        exists|k: int| 0 <= k < rule_table().len() && rule_table()[k].0 == "soc_low"@,
        forall|k: int| 0 <= k < rule_table().len() && rule_table()[k].0 == "soc_critical"@ ==> rule_table()[k].1 == "SOC critique"@ && rule_table()[k].2 == Severity::Critical && rule_table()[k].3 == 300u64,
        exists|k: int| 0 <= k < rule_table().len() && rule_table()[k].0 == "soc_critical"@,
        forall|k: int| 0 <= k < rule_table().len() && rule_table()[k].0 == "temp_high"@ ==> rule_table()[k].1 == "Sur-température"@ && rule_table()[k].2 == Severity::Critical && rule_table()[k].3 == 300u64,
        exists|k: int| 0 <= k < rule_table().len() && rule_table()[k].0 == "temp_high"@,
        forall|k: int| 0 <= k < rule_table().len() && rule_table()[k].0 == "high_current"@ ==> rule_table()[k].1 == "Sur-courant"@ && rule_table()[k].2 == Severity::Warning && rule_table()[k].3 == 60u64,
        exists|k: int| 0 <= k < rule_table().len() && rule_table()[k].0 == "high_current"@,
{
    reveal_strlit("cell_ovp");
    reveal_strlit("cell_uvp");
    reveal_strlit("cell_imbalance");
    reveal_strlit("soc_low");
    reveal_strlit("soc_critical");
    reveal_strlit("temp_high");
    reveal_strlit("high_current");
    assert(rule_table().len() == 7);
    assert(rule_table()[0].0 == "cell_ovp"@);
    assert(rule_table()[1].0 == "cell_uvp"@);
    assert(rule_table()[2].0 == "cell_imbalance"@);
    assert(rule_table()[3].0 == "soc_low"@);
    assert(rule_table()[4].0 == "soc_critical"@);
    assert(rule_table()[5].0 == "temp_high"@);
    assert(rule_table()[6].0 == "high_current"@);
    assert forall|k: int| 0 <= k < rule_table().len() && rule_table()[k].0 == "cell_ovp"@ implies rule_table()[k].1 == "Sur-tension cellule"@ && rule_table()[k].2 == Severity::Critical && rule_table()[k].3 == 300u64 by {
        if k == 1 { assert(rule_table()[1].0[5] != "cell_ovp"@[5]); }
        if k == 2 { assert(rule_table()[2].0.len() != "cell_ovp"@.len()); }
        if k == 3 { assert(rule_table()[3].0.len() != "cell_ovp"@.len()); }
        if k == 4 { assert(rule_table()[4].0.len() != "cell_ovp"@.len()); }
        if k == 5 { assert(rule_table()[5].0.len() != "cell_ovp"@.len()); }
        if k == 6 { assert(rule_table()[6].0.len() != "cell_ovp"@.len()); }
        assert(k == 0);
    }
    assert forall|k: int| 0 <= k < rule_table().len() && rule_table()[k].0 == "cell_uvp"@ implies rule_table()[k].1 == "Sous-tension cellule"@ && rule_table()[k].2 == Severity::Critical && rule_table()[k].3 == 300u64 by {
        if k == 0 { assert(rule_table()[0].0[5] != "cell_uvp"@[5]); }
        if k == 2 { assert(rule_table()[2].0.len() != "cell_uvp"@.len()); }
        if k == 3 { assert(rule_table()[3].0.len() != "cell_uvp"@.len()); }
        if k == 4 { assert(rule_table()[4].0.len() != "cell_uvp"@.len()); }
        if k == 5 { assert(rule_table()[5].0.len() != "cell_uvp"@.len()); }
        if k == 6 { assert(rule_table()[6].0.len() != "cell_uvp"@.len()); }
        assert(k == 1);
    }
    assert forall|k: int| 0 <= k < rule_table().len() && rule_table()[k].0 == "cell_imbalance"@ implies rule_table()[k].1 == "Déséquilibre cellules"@ && rule_table()[k].2 == Severity::Warning && rule_table()[k].3 == 600u64 by {
        if k == 0 { assert(rule_table()[0].0.len() != "cell_imbalance"@.len()); }
        if k == 1 { assert(rule_table()[1].0.len() != "cell_imbalance"@.len()); }
        if k == 3 { assert(rule_table()[3].0.len() != "cell_imbalance"@.len()); }
        if k == 4 { assert(rule_table()[4].0.len() != "cell_imbalance"@.len()); }
        if k == 5 { assert(rule_table()[5].0.len() != "cell_imbalance"@.len()); }
        if k == 6 { assert(rule_table()[6].0.len() != "cell_imbalance"@.len()); }
        assert(k == 2);
    }
    assert forall|k: int| 0 <= k < rule_table().len() && rule_table()[k].0 == "soc_low"@ implies rule_table()[k].1 == "SOC bas"@ && rule_table()[k].2 == Severity::Warning && rule_table()[k].3 == 900u64 by {
        if k == 0 { assert(rule_table()[0].0.len() != "soc_low"@.len()); }
        if k == 1 { assert(rule_table()[1].0.len() != "soc_low"@.len()); }
        if k == 2 { assert(rule_table()[2].0.len() != "soc_low"@.len()); }
        if k == 4 { assert(rule_table()[4].0.len() != "soc_low"@.len()); }
        if k == 5 { assert(rule_table()[5].0.len() != "soc_low"@.len()); }
        if k == 6 { assert(rule_table()[6].0.len() != "soc_low"@.len()); }
        assert(k == 3);
    }
    assert forall|k: int| 0 <= k < rule_table().len() && rule_table()[k].0 == "soc_critical"@ implies rule_table()[k].1 == "SOC critique"@ && rule_table()[k].2 == Severity::Critical && rule_table()[k].3 == 300u64 by {
        if k == 0 { assert(rule_table()[0].0.len() != "soc_critical"@.len()); }
        if k == 1 { assert(rule_table()[1].0.len() != "soc_critical"@.len()); }
        if k == 2 { assert(rule_table()[2].0.len() != "soc_critical"@.len()); }
        if k == 3 { assert(rule_table()[3].0.len() != "soc_critical"@.len()); }
        if k == 5 { assert(rule_table()[5].0.len() != "soc_critical"@.len()); }
        if k == 6 { assert(rule_table()[6].0[0] != "soc_critical"@[0]); }
        assert(k == 4);
    }
    assert forall|k: int| 0 <= k < rule_table().len() && rule_table()[k].0 == "temp_high"@ implies rule_table()[k].1 == "Sur-température"@ && rule_table()[k].2 == Severity::Critical && rule_table()[k].3 == 300u64 by {
        if k == 0 { assert(rule_table()[0].0.len() != "temp_high"@.len()); }
        if k == 1 { assert(rule_table()[1].0.len() != "temp_high"@.len()); }
        if k == 2 { assert(rule_table()[2].0.len() != "temp_high"@.len()); }
        if k == 3 { assert(rule_table()[3].0.len() != "temp_high"@.len()); }
        if k == 4 { assert(rule_table()[4].0.len() != "temp_high"@.len()); }
        if k == 6 { assert(rule_table()[6].0.len() != "temp_high"@.len()); }
        assert(k == 5);
    }
    assert forall|k: int| 0 <= k < rule_table().len() && rule_table()[k].0 == "high_current"@ implies rule_table()[k].1 == "Sur-courant"@ && rule_table()[k].2 == Severity::Warning && rule_table()[k].3 == 60u64 by {
        if k == 0 { assert(rule_table()[0].0.len() != "high_current"@.len()); }
        if k == 1 { assert(rule_table()[1].0.len() != "high_current"@.len()); }
        if k == 2 { assert(rule_table()[2].0.len() != "high_current"@.len()); }
        if k == 3 { assert(rule_table()[3].0.len() != "high_current"@.len()); }
        if k == 4 { assert(rule_table()[4].0[0] != "high_current"@[0]); }
        if k == 5 { assert(rule_table()[5].0.len() != "high_current"@.len()); }
        assert(k == 6);
    }
}

/// The seven alert rules (see `rule_table`).
pub fn rule_catalog() -> (rules: Vec<RuleInfo>)
    ensures
        rules@.len() == rule_table().len(),
        forall|i: int|
            0 <= i < rules@.len() ==> {
                let r = #[trigger] rules@[i];
                let t = rule_table()[i];
                &&& r.id@ == t.0
                &&& r.description@ == t.1
                &&& r.severity == t.2
                &&& r.cooldown_secs == t.3
            },
        forall|k: int| 0 <= k < rules@.len() && (#[trigger] rules@[k]).id@ == "cell_ovp"@ ==> rules@[k].description@ == "Sur-tension cellule"@ && rules@[k].severity == Severity::Critical && rules@[k].cooldown_secs == 300u64,
        exists|k: int| 0 <= k < rules@.len() && (#[trigger] rules@[k]).id@ == "cell_ovp"@,
        forall|k: int| 0 <= k < rules@.len() && (#[trigger] rules@[k]).id@ == "cell_uvp"@ ==> rules@[k].description@ == "Sous-tension cellule"@ && rules@[k].severity == Severity::Critical && rules@[k].cooldown_secs == 300u64,
        exists|k: int| 0 <= k < rules@.len() && (#[trigger] rules@[k]).id@ == "cell_uvp"@,
        forall|k: int| 0 <= k < rules@.len() && (#[trigger] rules@[k]).id@ == "cell_imbalance"@ ==> rules@[k].description@ == "Déséquilibre cellules"@ && rules@[k].severity == Severity::Warning && rules@[k].cooldown_secs == 600u64,
        exists|k: int| 0 <= k < rules@.len() && (#[trigger] rules@[k]).id@ == "cell_imbalance"@,
        forall|k: int| 0 <= k < rules@.len() && (#[trigger] rules@[k]).id@ == "soc_low"@ ==> rules@[k].description@ == "SOC bas"@ && rules@[k].severity == Severity::Warning && rules@[k].cooldown_secs == 900u64,
        exists|k: int| 0 <= k < rules@.len() && (#[trigger] rules@[k]).id@ == "soc_low"@,
        forall|k: int| 0 <= k < rules@.len() && (#[trigger] rules@[k]).id@ == "soc_critical"@ ==> rules@[k].description@ == "SOC critique"@ && rules@[k].severity == Severity::Critical && rules@[k].cooldown_secs == 300u64,
        exists|k: int| 0 <= k < rules@.len() && (#[trigger] rules@[k]).id@ == "soc_critical"@,
        forall|k: int| 0 <= k < rules@.len() && (#[trigger] rules@[k]).id@ == "temp_high"@ ==> rules@[k].description@ == "Sur-température"@ && rules@[k].severity == Severity::Critical && rules@[k].cooldown_secs == 300u64,
        exists|k: int| 0 <= k < rules@.len() && (#[trigger] rules@[k]).id@ == "temp_high"@,
        forall|k: int| 0 <= k < rules@.len() && (#[trigger] rules@[k]).id@ == "high_current"@ ==> rules@[k].description@ == "Sur-courant"@ && rules@[k].severity == Severity::Warning && rules@[k].cooldown_secs == 60u64,
        exists|k: int| 0 <= k < rules@.len() && (#[trigger] rules@[k]).id@ == "high_current"@,
{
    proof {
        lemma_rules_by_id();
    }
    vec![
        RuleInfo { id: "cell_ovp", description: "Sur-tension cellule", severity: Severity::Critical, cooldown_secs: 300 },
        RuleInfo { id: "cell_uvp", description: "Sous-tension cellule", severity: Severity::Critical, cooldown_secs: 300 },
        RuleInfo {
            id: "cell_imbalance",
            description: "Déséquilibre cellules",
            severity: Severity::Warning,
            cooldown_secs: 600,
        },
        RuleInfo { id: "soc_low", description: "SOC bas", severity: Severity::Warning, cooldown_secs: 900 },
        RuleInfo { id: "soc_critical", description: "SOC critique", severity: Severity::Critical, cooldown_secs: 300 },
        RuleInfo { id: "temp_high", description: "Sur-température", severity: Severity::Critical, cooldown_secs: 300 },
        RuleInfo { id: "high_current", description: "Sur-courant", severity: Severity::Warning, cooldown_secs: 60 },
    ]
}

/// Notifications go to Telegram only when both a token and a chat are set.
pub fn telegram_configured(token: &str, chat_id: &str) -> (b: bool)
    ensures
        b == (token@.len() > 0 && chat_id@.len() > 0),
{
    token.unicode_len() > 0 && chat_id.unicode_len() > 0
}

/// The word of a notification: raised or cleared.
pub fn action_word(triggered: bool) -> (s: &'static str)
    ensures
        triggered ==> s@ == "DÉCLENCHÉE"@,
        !triggered ==> s@ == "EFFACÉE"@,
{
    if triggered {
        "DÉCLENCHÉE"
    } else {
        "EFFACÉE"
    }
}

/// State of one rule for one BMS.
#[derive(Debug, Clone, Copy, PartialEq, Eq, Default, Structural)]
pub struct RuleState {
    /// The alert is currently raised.
    pub active: bool,
    /// When the rule last sent a trigger notification (ms, monotonic clock).
    pub last_notified_ms: Option<u64>,
}

/// What an evaluation of a rule asks for.
#[derive(Debug, Clone, Copy, PartialEq, Eq, Structural)]
pub enum AlertAction {
    /// Nothing to log or send.
    Nothing,
    /// Log and notify that the alert was raised.
    NotifyTriggered,
    /// Log and notify that the alert was cleared.
    NotifyCleared,
}

/// `true` when a trigger at `now_ms` may notify: never notified before, or at
/// least `cooldown_ms` ago (a clock that went back counts as no time elapsed).
pub open spec fn cooldown_over(last: Option<u64>, now_ms: u64, cooldown_ms: u64) -> bool {
    match last {
        None => true,
        Some(t) => (if now_ms >= t { now_ms - t } else { 0 }) >= cooldown_ms,
    }
}

/// The next state and action of a rule evaluated at `now_ms`, where
/// `triggered` and `cleared` are the rule's trigger and clear conditions on
/// the current snapshot.
pub open spec fn rule_step_spec(
    state: RuleState,
    triggered: bool,
    cleared: bool,
    now_ms: u64,
    cooldown_ms: u64,
) -> (RuleState, AlertAction) {
    if !state.active {
        if triggered {
            if cooldown_over(state.last_notified_ms, now_ms, cooldown_ms) {
                (RuleState { active: true, last_notified_ms: Some(now_ms) }, AlertAction::NotifyTriggered)
            } else {
                (RuleState { active: true, last_notified_ms: state.last_notified_ms }, AlertAction::Nothing)
            }
        } else {
            (state, AlertAction::Nothing)
        }
    } else if cleared {
        (RuleState { active: false, last_notified_ms: state.last_notified_ms }, AlertAction::NotifyCleared)
    } else {
        (state, AlertAction::Nothing)
    }
}

/// Evaluates one rule: see [`rule_step_spec`].
pub fn rule_step(state: RuleState, triggered: bool, cleared: bool, now_ms: u64, cooldown_ms: u64) -> (r: (
    RuleState,
    AlertAction,
))
    ensures
        r == rule_step_spec(state, triggered, cleared, now_ms, cooldown_ms),
{
    if !state.active {
        if triggered {
            let notify = match state.last_notified_ms {
                None => true,
                Some(t) => {
                    let elapsed = if now_ms >= t { now_ms - t } else { 0 };
                    elapsed >= cooldown_ms
                },
            };
            if notify {
                (RuleState { active: true, last_notified_ms: Some(now_ms) }, AlertAction::NotifyTriggered)
            } else {
                (RuleState { active: true, last_notified_ms: state.last_notified_ms }, AlertAction::Nothing)
            }
        } else {
            (state, AlertAction::Nothing)
        }
    } else if cleared {
        (RuleState { active: false, last_notified_ms: state.last_notified_ms }, AlertAction::NotifyCleared)
    } else {
        (state, AlertAction::Nothing)
    }
}

/// A rule that has never been evaluated: not raised, never notified.
pub open spec fn initial_rule_state() -> RuleState {
    RuleState { active: false, last_notified_ms: None }
}

/// The state of key `key` in `m`: its entry, or the initial state.
pub open spec fn state_in(m: Map<(u8, u32), RuleState>, key: (u8, u32)) -> RuleState {
    if m.contains_key(key) {
        m[key]
    } else {
        initial_rule_state()
    }
}

/// The states of the alert rules, one per (BMS address, rule number) pair.
#[derive(Debug, Clone)]
pub struct AlertStates {
    states: BTreeMap<(u8, u32), RuleState>,
}

impl AlertStates {
    /// The states recorded so far, by (address, rule number).
    pub closed spec fn spec_states(&self) -> Map<(u8, u32), RuleState> {
        self.states@
    }

    /// No rule evaluated yet.
    pub fn new() -> (s: Self)
        ensures
            s.spec_states() == Map::<(u8, u32), RuleState>::empty(),
    {
        AlertStates { states: BTreeMap::new() }
    }

    /// The state of rule `rule` of the BMS at `addr`.
    pub fn state_of(&self, addr: u8, rule: u32) -> (r: RuleState)
        ensures
            r == state_in(self.spec_states(), (addr, rule)),
    {
        match self.states.get(&(addr, rule)) {
            Some(st) => *st,
            None => RuleState { active: false, last_notified_ms: None },
        }
    }

    /// Evaluates rule `rule` of the BMS at `addr` at `now_ms` (see
    /// `rule_step_spec`): records the rule's next state under its key, leaves
    /// every other key as it was, and returns the action to perform.
    pub fn evaluate_rule(
        &mut self,
        addr: u8,
        rule: u32,
        triggered: bool,
        cleared: bool,
        now_ms: u64,
        cooldown_ms: u64,
    ) -> (a: AlertAction)
        ensures
            ({
                let step = rule_step_spec(
                    state_in(old(self).spec_states(), (addr, rule)),
                    triggered,
                    cleared,
                    now_ms,
                    cooldown_ms,
                );
                &&& a == step.1
                &&& final(self).spec_states() == old(self).spec_states().insert((addr, rule), step.0)
            }),
    {
        let st = self.state_of(addr, rule);
        let (next, action) = rule_step(st, triggered, cleared, now_ms, cooldown_ms);
        self.states.insert((addr, rule), next);
        action
    }
}

/// Evaluating one rule of one BMS changes the state of that (BMS, rule) pair
/// only: every other pair, of the same BMS or of another one, keeps its state.
pub proof fn lemma_alert_other_keys_unchanged(
    m: Map<(u8, u32), RuleState>,
    addr: u8,
    rule: u32,
    triggered: bool,
    cleared: bool,
    now_ms: u64,
    cooldown_ms: u64,
    other: (u8, u32),
)
    requires
        other != (addr, rule),
    ensures
        state_in(
            m.insert(
                (addr, rule),
                rule_step_spec(state_in(m, (addr, rule)), triggered, cleared, now_ms, cooldown_ms).0,
            ),
            other,
        ) == state_in(m, other),
{
}

/// Hysteresis: a raised alert is never raised again, whatever its trigger
/// condition, until it has been cleared; and only a raised alert can be
/// cleared.
pub proof fn lemma_alert_hysteresis(state: RuleState, triggered: bool, cleared: bool, now_ms: u64, cooldown_ms: u64)
    ensures
        state.active ==> rule_step_spec(state, triggered, cleared, now_ms, cooldown_ms).1
            != AlertAction::NotifyTriggered,
        !state.active ==> rule_step_spec(state, triggered, cleared, now_ms, cooldown_ms).1
            != AlertAction::NotifyCleared,
        state.active && !cleared ==> rule_step_spec(state, triggered, cleared, now_ms, cooldown_ms).0
            == state,
{
}

/// Cooldown: a trigger notification is only sent when the previous one is at
/// least `cooldown_ms` old (or there was none), and it records its time.
pub proof fn lemma_alert_cooldown(state: RuleState, triggered: bool, cleared: bool, now_ms: u64, cooldown_ms: u64)
    ensures
        ({
            let (next, action) = rule_step_spec(state, triggered, cleared, now_ms, cooldown_ms);
            action == AlertAction::NotifyTriggered ==> {
                &&& cooldown_over(state.last_notified_ms, now_ms, cooldown_ms)
                &&& next.last_notified_ms == Some(now_ms)
                &&& next.active
            }
        }),
        ({
            let (next, action) = rule_step_spec(state, triggered, cleared, now_ms, cooldown_ms);
            action != AlertAction::NotifyTriggered ==> next.last_notified_ms == state.last_notified_ms
        }),
{
}

} // verus!
