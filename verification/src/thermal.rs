use vstd::prelude::*;

verus! {

/// How likely a drive is to slow down when it heats up under a sustained write.
#[derive(Debug, Clone, Copy, PartialEq, Eq, Structural)]
pub enum ThermalRisk {
    Low,
    Medium,
    High,
}

/// Rank of a risk, higher is worse.
pub open spec fn risk_rank(r: ThermalRisk) -> int {
    match r {
        ThermalRisk::Low => 0,
        ThermalRisk::Medium => 1,
        ThermalRisk::High => 2,
    }
}

/// The risk for a speed loss between the first and the last minute of the
/// sustained write (whether it passed 40% and whether it passed 20%) and the
/// number of sharp speed drops.
pub open spec fn risk_of(over_40_percent: bool, over_20_percent: bool, drops: u32) -> ThermalRisk {
    if over_40_percent || drops > 5 {
        ThermalRisk::High
    } else if over_20_percent || drops > 2 {
        ThermalRisk::Medium
    } else {
        ThermalRisk::Low
    }
}

/// The thermal risk: high for a speed loss over 40% or more than five sharp
/// drops, medium for a loss over 20% or more than two drops, low otherwise.
pub fn thermal_risk(over_40_percent: bool, over_20_percent: bool, drops: u32) -> (r: ThermalRisk)
    ensures
        r == risk_of(over_40_percent, over_20_percent, drops),
{
    if over_40_percent || drops > 5 {
        ThermalRisk::High
    } else if over_20_percent || drops > 2 {
        ThermalRisk::Medium
    } else {
        ThermalRisk::Low
    }
}

/// More sharp drops, or a speed loss that passes more thresholds, never
/// lowers the thermal risk.
pub proof fn law_risk_monotone(
    over_40_a: bool,
    over_20_a: bool,
    drops_a: u32,
    over_40_b: bool,
    over_20_b: bool,
    drops_b: u32,
)
    requires
        over_40_a ==> over_40_b,
        over_20_a ==> over_20_b,
        drops_a <= drops_b,
    ensures
        risk_rank(risk_of(over_40_a, over_20_a, drops_a)) <= risk_rank(
            risk_of(over_40_b, over_20_b, drops_b),
        ),
{
}

/// The risk is high exactly when the speed loss passed 40% or there were
/// more than five sharp drops, and low exactly when the loss stayed at or
/// under 20% and there were at most two drops; medium otherwise.
pub proof fn law_risk_thresholds(over_40_percent: bool, over_20_percent: bool, drops: u32)
    ensures
        (risk_of(over_40_percent, over_20_percent, drops) == ThermalRisk::High) <==> (
        over_40_percent || drops > 5),
        (risk_of(over_40_percent, over_20_percent, drops) == ThermalRisk::Low) <==> (
        !over_40_percent && !over_20_percent && drops <= 2),
        (risk_of(over_40_percent, over_20_percent, drops) == ThermalRisk::Medium) <==> (
        !over_40_percent && drops <= 5 && (over_20_percent || drops > 2)),
{
}

} // verus!
