//! Goal tracking: each goal moves through the Six Sigma DMAIC phases and
//! carries an ITIL change-request status.
//!
//! The phases run Define, Measure, Analyze, Improve, Control; advancing
//! from Control stays at Control. Goals are found by id; an unknown id is
//! refused with "Goal not found".
use vstd::prelude::*;
use crate::str_map::{has_key, insert_entry, key_pos, lookup, StrMap};
use crate::text::owned;

verus! {

/// A Six Sigma DMAIC phase.
#[derive(PartialEq, Eq, Structural, Clone, Copy, Debug)]
pub enum DmaicPhase {
    Define,
    Measure,
    Analyze,
    Improve,
    Control,
}

/// The position of a phase in the DMAIC order, from 0 to 4.
pub open spec fn phase_rank(p: DmaicPhase) -> int {
    match p {
        DmaicPhase::Define => 0,
        DmaicPhase::Measure => 1,
        DmaicPhase::Analyze => 2,
        DmaicPhase::Improve => 3,
        DmaicPhase::Control => 4,
    }
}

/// The phase after `p`; Control is the last and is kept.
pub open spec fn next_phase(p: DmaicPhase) -> DmaicPhase {
    match p {
        DmaicPhase::Define => DmaicPhase::Measure,
        DmaicPhase::Measure => DmaicPhase::Analyze,
        DmaicPhase::Analyze => DmaicPhase::Improve,
        DmaicPhase::Improve => DmaicPhase::Control,
        DmaicPhase::Control => DmaicPhase::Control,
    }
}

/// `p` advanced `k` times.
pub open spec fn advanced(p: DmaicPhase, k: nat) -> DmaicPhase
    decreases k,
{
    if k == 0 {
        p
    } else {
        next_phase(advanced(p, (k - 1) as nat))
    }
}

/// Advancing moves one phase forward and never past Control: after `k`
/// advances the rank is the old rank plus `k`, capped at Control's.
pub proof fn lemma_advance_rank(p: DmaicPhase, k: nat)
    ensures
        phase_rank(advanced(p, k)) == (if phase_rank(p) + k <= 4 { phase_rank(p) + k } else { 4 }),
    decreases k,
{
    if k > 0 {
        lemma_advance_rank(p, (k - 1) as nat);
    }
}

/// Four advances bring every phase to Control, which then stays.
pub proof fn lemma_reaches_control(p: DmaicPhase, k: nat)
    requires
        k >= 4,
    ensures
        advanced(p, k) == DmaicPhase::Control,
{
    lemma_advance_rank(p, k);
}

impl DmaicPhase {
    /// The phase a goal starts in.
    pub fn default() -> (r: Self)
        ensures
            r == DmaicPhase::Define,
    {
        DmaicPhase::Define
    }

    /// The next phase; Control is kept.
    pub fn next(&self) -> (r: Self)
        ensures
            r == next_phase(*self),
    {
        match self {
            DmaicPhase::Define => DmaicPhase::Measure,
            DmaicPhase::Measure => DmaicPhase::Analyze,
            DmaicPhase::Analyze => DmaicPhase::Improve,
            DmaicPhase::Improve => DmaicPhase::Control,
            DmaicPhase::Control => DmaicPhase::Control,
        }
    }

    /// The name of the phase.
    pub fn to_string(&self) -> (r: String)
        ensures
            r@ == phase_label(*self),
    {
        match self {
            DmaicPhase::Define => owned("Define"),
            DmaicPhase::Measure => owned("Measure"),
            DmaicPhase::Analyze => owned("Analyze"),
            DmaicPhase::Improve => owned("Improve"),
            DmaicPhase::Control => owned("Control"),
        }
    }
}

/// The name of a phase.
pub open spec fn phase_label(p: DmaicPhase) -> Seq<char> {
    match p {
        DmaicPhase::Define => "Define"@,
        DmaicPhase::Measure => "Measure"@,
        DmaicPhase::Analyze => "Analyze"@,
        DmaicPhase::Improve => "Improve"@,
        DmaicPhase::Control => "Control"@,
    }
}

/// An ITIL change-request status.
#[derive(PartialEq, Eq, Structural, Clone, Copy, Debug)]
pub enum CrqStatus {
    Open,
    InProgress,
    QualityGate,
    Done,
    Rejected,
}

impl CrqStatus {
    /// The status a goal starts with.
    pub fn default() -> (r: Self)
        ensures
            r == CrqStatus::Open,
    {
        CrqStatus::Open
    }

    /// The name of the status.
    pub fn to_string(&self) -> (r: String)
        ensures
            r@ == status_label(*self),
    {
        match self {
            CrqStatus::Open => owned("Open"),
            CrqStatus::InProgress => owned("In Progress"),
            CrqStatus::QualityGate => owned("Quality Gate"),
            CrqStatus::Done => owned("Done"),
            CrqStatus::Rejected => owned("Rejected"),
        }
    }
}

/// The name of a status.
pub open spec fn status_label(s: CrqStatus) -> Seq<char> {
    match s {
        CrqStatus::Open => "Open"@,
        CrqStatus::InProgress => "In Progress"@,
        CrqStatus::QualityGate => "Quality Gate"@,
        CrqStatus::Done => "Done"@,
        CrqStatus::Rejected => "Rejected"@,
    }
}

/// A SMART goal's definition and state (its target and current values are
/// kept beside it by the caller, as floating-point numbers).
pub struct Goal {
    pub id: String,
    pub name: String,
    pub description: String,
    pub specific: String,
    pub measurable: String,
    pub achievable: String,
    pub relevant: String,
    pub time_bound: String,
    pub unit: String,
    pub dmaic_phase: DmaicPhase,
    pub crq_status: CrqStatus,
    pub iso_clause: String,
    pub quality_gate_date: Option<String>,
}

/// What a goal is, abstractly.
pub struct GoalSpec {
    /// Every text field, in declaration order (id first).
    pub texts: Seq<Seq<char>>,
    pub phase: DmaicPhase,
    pub status: CrqStatus,
    pub gate_date: Option<Seq<char>>,
}

impl DeepView for Goal {
    type V = GoalSpec;

    open spec fn deep_view(&self) -> GoalSpec {
        GoalSpec {
            texts: seq![
                self.id@,
                self.name@,
                self.description@,
                self.specific@,
                self.measurable@,
                self.achievable@,
                self.relevant@,
                self.time_bound@,
                self.unit@,
                self.iso_clause@,
            ],
            phase: self.dmaic_phase,
            status: self.crq_status,
            gate_date: self.quality_gate_date.deep_view(),
        }
    }
}

impl Goal {
    /// A goal with this id and name, empty texts, in phase Define with
    /// status Open.
    pub fn new(id: &str, name: &str) -> (g: Self)
        ensures
            g.id@ == id@,
            g.name@ == name@,
            g.description@.len() == 0,
            g.specific@.len() == 0,
            g.measurable@.len() == 0,
            g.achievable@.len() == 0,
            g.relevant@.len() == 0,
            g.time_bound@.len() == 0,
            g.unit@.len() == 0,
            g.iso_clause@.len() == 0,
            g.dmaic_phase == DmaicPhase::Define,
            g.crq_status == CrqStatus::Open,
            g.quality_gate_date is None,
    {
        Goal {
            id: owned(id),
            name: owned(name),
            description: String::new(),
            specific: String::new(),
            measurable: String::new(),
            achievable: String::new(),
            relevant: String::new(),
            time_bound: String::new(),
            unit: String::new(),
            dmaic_phase: DmaicPhase::Define,
            crq_status: CrqStatus::Open,
            iso_clause: String::new(),
            quality_gate_date: None,
        }
    }
}

/// An ISO 9001 compliance record.
pub struct IsoComplianceRecord {
    pub clause: String,
    pub requirement: String,
    pub status: String,
    pub evidence: Vec<String>,
}

/// The goals, by id.
pub struct GoalTracker {
    pub goals: StrMap<Goal>,
    pub compliance_records: Vec<IsoComplianceRecord>,
}

/// The message of a refused goal id.
pub open spec fn not_found_message() -> Seq<char> {
    "Goal not found"@
}

/// `g` with its phase advanced.
pub open spec fn with_next_phase(g: GoalSpec) -> GoalSpec {
    GoalSpec { phase: next_phase(g.phase), ..g }
}

/// `g` with its status replaced.
pub open spec fn with_status(g: GoalSpec, s: CrqStatus) -> GoalSpec {
    GoalSpec { status: s, ..g }
}

impl GoalTracker {
    /// No goals, no records.
    pub fn new() -> (t: Self)
        ensures
            t.goals.deep_view().len() == 0,
            t.compliance_records.len() == 0,
    {
        GoalTracker { goals: StrMap::new(), compliance_records: Vec::new() }
    }

    /// Adds a goal under its id, replacing a goal with the same id.
    pub fn add_goal(&mut self, goal: Goal)
        ensures
            final(self).goals.deep_view() == insert_entry(old(self).goals.deep_view(), goal.id@, goal.deep_view()),
            final(self).compliance_records == old(self).compliance_records,
    {
        let id = goal.id.clone();
        self.goals.insert(id, goal);
    }

    /// Moves the goal `goal_id` to its next DMAIC phase (Control stays
    /// Control); refuses an unknown id with "Goal not found".
    pub fn advance_phase(&mut self, goal_id: &str) -> (r: Result<(), String>)
        ensures
            has_key(old(self).goals.deep_view(), goal_id@) ==> r is Ok && final(self).goals.deep_view()
                == old(self).goals.deep_view().update(
                key_pos(old(self).goals.deep_view(), goal_id@),
                (goal_id@, with_next_phase(lookup(old(self).goals.deep_view(), goal_id@)->0)),
            ),
            !has_key(old(self).goals.deep_view(), goal_id@) ==> (r matches Err(e) && e@ == not_found_message()
                && final(self).goals.deep_view() == old(self).goals.deep_view()),
            final(self).compliance_records == old(self).compliance_records,
    {
        let _n = self.goals.len();
        match self.goals.index_of(goal_id) {
            Some(i) => {
                let mut g = self.goals.replace_value_at(i, Goal::new("", ""));
                g.dmaic_phase = g.dmaic_phase.next();
                let ghost gv = g.deep_view();
                self.goals.replace_value_at(i, g);
                proof {
                    let m = old(self).goals.deep_view();
                    crate::str_map::lemma_key_pos(m, i as int);
                    assert(gv =~= with_next_phase(m[i as int].1));
                }
                Ok(())
            },
            None => Err(owned("Goal not found")),
        }
    }

    /// Sets the change-request status of the goal `goal_id`; refuses an
    /// unknown id with "Goal not found".
    pub fn update_crq_status(&mut self, goal_id: &str, status: CrqStatus) -> (r: Result<(), String>)
        ensures
            has_key(old(self).goals.deep_view(), goal_id@) ==> r is Ok && final(self).goals.deep_view()
                == old(self).goals.deep_view().update(
                key_pos(old(self).goals.deep_view(), goal_id@),
                (goal_id@, with_status(lookup(old(self).goals.deep_view(), goal_id@)->0, status)),
            ),
            !has_key(old(self).goals.deep_view(), goal_id@) ==> (r matches Err(e) && e@ == not_found_message()
                && final(self).goals.deep_view() == old(self).goals.deep_view()),
            final(self).compliance_records == old(self).compliance_records,
    {
        let _n = self.goals.len();
        match self.goals.index_of(goal_id) {
            Some(i) => {
                let mut g = self.goals.replace_value_at(i, Goal::new("", ""));
                g.crq_status = status;
                let ghost gv = g.deep_view();
                self.goals.replace_value_at(i, g);
                proof {
                    let m = old(self).goals.deep_view();
                    crate::str_map::lemma_key_pos(m, i as int);
                    assert(gv =~= with_status(m[i as int].1, status));
                }
                Ok(())
            },
            None => Err(owned("Goal not found")),
        }
    }
}

} // verus!
