//! Thermal policy settings and the fan plans that the policy produces.
//!
//! Temperatures are whole milli-degrees Celsius.
use vstd::prelude::*;

verus! {

/// The selected thermal policy.
#[derive(Debug, Clone, Copy, PartialEq, Eq, Structural)]
pub enum ThermalPolicyMode {
    SystemAuto,
    Quiet,
    Performance,
    Custom,
}

impl Default for ThermalPolicyMode {
    fn default() -> (mode: Self)
        ensures
            mode == ThermalPolicyMode::SystemAuto,
    {
        ThermalPolicyMode::SystemAuto
    }
}

/// The temperature that a rule reads.
#[derive(Debug, PartialEq, Eq)]
pub enum ThermalTarget {
    Hottest,
    Cpu,
    Gpu,
    SensorKey { key: String },
}

impl Clone for ThermalTarget {
    fn clone(&self) -> (r: Self)
        ensures
            r == *self,
    {
        match self {
            ThermalTarget::Hottest => ThermalTarget::Hottest,
            ThermalTarget::Cpu => ThermalTarget::Cpu,
            ThermalTarget::Gpu => ThermalTarget::Gpu,
            ThermalTarget::SensorKey { key } => ThermalTarget::SensorKey { key: key.clone() },
        }
    }
}

/// A fan curve: below `low_millicelsius` the fans run at `min_fan_percent`,
/// above `high_millicelsius` at `max_fan_percent`, linearly in between.
#[derive(Debug, PartialEq, Eq)]
pub struct ThermalRule {
    pub id: String,
    pub name: String,
    pub target: ThermalTarget,
    pub low_millicelsius: i32,
    pub high_millicelsius: i32,
    pub min_fan_percent: u8,
    pub max_fan_percent: u8,
    pub active: bool,
}

impl Clone for ThermalRule {
    fn clone(&self) -> (r: Self)
        ensures
            r == *self,
    {
        ThermalRule {
            id: self.id.clone(),
            name: self.name.clone(),
            target: self.target.clone(),
            low_millicelsius: self.low_millicelsius,
            high_millicelsius: self.high_millicelsius,
            min_fan_percent: self.min_fan_percent,
            max_fan_percent: self.max_fan_percent,
            active: self.active,
        }
    }
}

/// The persisted thermal policy.
#[derive(Debug, PartialEq, Eq)]
pub struct ThermalPolicySettings {
    pub mode: ThermalPolicyMode,
    pub rules: Vec<ThermalRule>,
}

impl ThermalPolicySettings {
    /// System Auto with no custom rules.
    pub open spec fn is_default(self) -> bool {
        self.mode == ThermalPolicyMode::SystemAuto && self.rules@.len() == 0
    }

    /// Two settings agree on the mode and on every rule.
    pub open spec fn same_as(self, other: Self) -> bool {
        self.mode == other.mode && self.rules@ == other.rules@
    }
}

impl Default for ThermalPolicySettings {
    fn default() -> (s: Self)
        ensures
            s.mode == ThermalPolicyMode::SystemAuto,
            s.rules@ == Seq::<ThermalRule>::empty(),
    {
        ThermalPolicySettings { mode: ThermalPolicyMode::SystemAuto, rules: Vec::new() }
    }
}

impl Clone for ThermalPolicySettings {
    fn clone(&self) -> (r: Self)
        ensures
            r.same_as(*self),
    {
        let mut rules: Vec<ThermalRule> = Vec::new();
        let mut i: usize = 0;
        while i < self.rules.len()
            invariant
                i <= self.rules.len(),
                rules@ == self.rules@.take(i as int),
            decreases self.rules.len() - i,
        {
            rules.push(self.rules[i].clone());
            i = i + 1;
            assert(rules@ =~= self.rules@.take(i as int));
        }
        assert(self.rules@.take(i as int) =~= self.rules@);
        ThermalPolicySettings { mode: self.mode, rules }
    }
}

/// A fan speed request.
#[derive(Debug, Clone, Copy, PartialEq, Eq, Structural)]
pub struct FanTarget {
    pub fan_id: usize,
    pub rpm: i32,
}

/// The desired fan behavior: either macOS owns the fans, or each listed fan
/// is driven at its target speed.
#[derive(Debug, PartialEq, Eq)]
pub enum FanPlan {
    SystemAuto,
    Targets { targets: Vec<FanTarget> },
}

impl FanPlan {
    /// The targets of a plan, or `None` for System Auto.
    pub open spec fn targets_view(self) -> Option<Seq<FanTarget>> {
        match self {
            FanPlan::SystemAuto => None,
            FanPlan::Targets { targets } => Some(targets@),
        }
    }
}

impl Clone for FanPlan {
    fn clone(&self) -> (r: Self)
        ensures
            r.targets_view() == self.targets_view(),
    {
        match self {
            FanPlan::SystemAuto => FanPlan::SystemAuto,
            FanPlan::Targets { targets } => {
                let copy = targets.clone();
                assert(copy@ =~= targets@);
                FanPlan::Targets { targets: copy }
            },
        }
    }
}

} // verus!
