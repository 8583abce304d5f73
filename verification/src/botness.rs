//! Typed bot signals and the budgeted accumulator that fuses them into
//! a bounded botness score.

use vstd::prelude::*;

verus! {

/// Whether a signal's source was consulted, switched off, or missing.
#[derive(Clone, Copy, Debug, PartialEq, Eq, Structural)]
pub enum SignalAvailability {
    Active,
    Disabled,
    Unavailable,
}

impl SignalAvailability {
    /// The stable label used in serialized output.
    pub fn as_str(self) -> (r: &'static str)
        ensures
            self is Active ==> r@ == "active"@,
            self is Disabled ==> r@ == "disabled"@,
            self is Unavailable ==> r@ == "unavailable"@,
    {
        match self {
            SignalAvailability::Active => "active",
            SignalAvailability::Disabled => "disabled",
            SignalAvailability::Unavailable => "unavailable",
        }
    }
}

/// Where a signal's evidence came from.
#[derive(Clone, Copy, Debug, PartialEq, Eq, Structural)]
pub enum SignalProvenance {
    Internal,
    ExternalTrusted,
    ExternalUntrusted,
    Derived,
}

impl SignalProvenance {
    /// The stable label used in serialized output.
    pub fn as_str(self) -> (r: &'static str)
        ensures
            self is Internal ==> r@ == "internal"@,
            self is ExternalTrusted ==> r@ == "external_trusted"@,
            self is ExternalUntrusted ==> r@ == "external_untrusted"@,
            self is Derived ==> r@ == "derived"@,
    {
        match self {
            SignalProvenance::Internal => "internal",
            SignalProvenance::ExternalTrusted => "external_trusted",
            SignalProvenance::ExternalUntrusted => "external_untrusted",
            SignalProvenance::Derived => "derived",
        }
    }
}

/// The family a signal contributes under; fingerprint families share a
/// joint budget on top of their per-family caps.
#[derive(Clone, Copy, Debug, PartialEq, Eq, Structural)]
pub enum SignalFamily {
    RequestIntegrity,
    Geo,
    Rate,
    Deception,
    FingerprintHeaderRuntime,
    FingerprintTransport,
    FingerprintTemporal,
    FingerprintPersistence,
    FingerprintBehavior,
    Other,
}

impl SignalFamily {
    /// The stable label used in serialized output.
    pub fn as_str(self) -> (r: &'static str)
        ensures
            self is FingerprintHeaderRuntime ==> r@ == "fingerprint_header_runtime"@,
            self is FingerprintTransport ==> r@ == "fingerprint_transport"@,
            self is FingerprintTemporal ==> r@ == "fingerprint_temporal"@,
            self is FingerprintPersistence ==> r@ == "fingerprint_persistence"@,
            self is FingerprintBehavior ==> r@ == "fingerprint_behavior"@,
            self is RequestIntegrity ==> r@ == "request_integrity"@,
            self is Geo ==> r@ == "geo"@,
            self is Rate ==> r@ == "rate"@,
            self is Deception ==> r@ == "deception"@,
            self is Other ==> r@ == "other"@,
    {
        match self {
            SignalFamily::RequestIntegrity => "request_integrity",
            SignalFamily::Geo => "geo",
            SignalFamily::Rate => "rate",
            SignalFamily::Deception => "deception",
            SignalFamily::FingerprintHeaderRuntime => "fingerprint_header_runtime",
            SignalFamily::FingerprintTransport => "fingerprint_transport",
            SignalFamily::FingerprintTemporal => "fingerprint_temporal",
            SignalFamily::FingerprintPersistence => "fingerprint_persistence",
            SignalFamily::FingerprintBehavior => "fingerprint_behavior",
            SignalFamily::Other => "other",
        }
    }

    /// Whether this family shares the joint fingerprint budget.
    pub open spec fn spec_is_fingerprint(self) -> bool {
        self is FingerprintHeaderRuntime || self is FingerprintTransport
            || self is FingerprintTemporal || self is FingerprintPersistence
            || self is FingerprintBehavior
    }

    pub fn is_fingerprint(self) -> (r: bool)
        ensures
            r == self.spec_is_fingerprint(),
    {
        match self {
            SignalFamily::FingerprintHeaderRuntime => true,
            SignalFamily::FingerprintTransport => true,
            SignalFamily::FingerprintTemporal => true,
            SignalFamily::FingerprintPersistence => true,
            SignalFamily::FingerprintBehavior => true,
            _ => false,
        }
    }
}

/// Per-family and aggregate caps on fingerprint contributions.
#[derive(Clone, Copy, Debug, PartialEq, Eq, Structural)]
pub struct SignalBudgetPolicy {
    pub fingerprint_total_cap: u8,
    pub fingerprint_header_runtime_cap: u8,
    pub fingerprint_transport_cap: u8,
    pub fingerprint_temporal_cap: u8,
    pub fingerprint_persistence_cap: u8,
    pub fingerprint_behavior_cap: u8,
}

impl SignalBudgetPolicy {
    /// The cap for a family, if that family is capped at all.
    pub open spec fn spec_family_cap(self, family: SignalFamily) -> Option<u8> {
        match family {
            SignalFamily::FingerprintHeaderRuntime => Some(self.fingerprint_header_runtime_cap),
            SignalFamily::FingerprintTransport => Some(self.fingerprint_transport_cap),
            SignalFamily::FingerprintTemporal => Some(self.fingerprint_temporal_cap),
            SignalFamily::FingerprintPersistence => Some(self.fingerprint_persistence_cap),
            SignalFamily::FingerprintBehavior => Some(self.fingerprint_behavior_cap),
            _ => None,
        }
    }

    pub fn family_cap(self, family: SignalFamily) -> (r: Option<u8>)
        ensures
            r == self.spec_family_cap(family),
    {
        match family {
            SignalFamily::FingerprintHeaderRuntime => Some(self.fingerprint_header_runtime_cap),
            SignalFamily::FingerprintTransport => Some(self.fingerprint_transport_cap),
            SignalFamily::FingerprintTemporal => Some(self.fingerprint_temporal_cap),
            SignalFamily::FingerprintPersistence => Some(self.fingerprint_persistence_cap),
            SignalFamily::FingerprintBehavior => Some(self.fingerprint_behavior_cap),
            _ => None,
        }
    }
}

/// One extracted signal with its provenance and scaled contribution.
#[derive(Clone, Debug)]
pub struct BotSignal {
    pub key: &'static str,
    pub label: &'static str,
    pub active: bool,
    pub contribution: u8,
    pub availability: SignalAvailability,
    pub provenance: SignalProvenance,
    pub confidence: u8,
    pub family: SignalFamily,
}

/// A confidence below ten scales the weight down, rounding up.
pub open spec fn spec_scaled(weight: u8, confidence: u8) -> u8 {
    let c: u8 = if confidence > 10 {
        10
    } else {
        confidence
    };
    ((weight * c + 9) / 10) as u8
}

pub fn scale_weight_by_confidence(weight: u8, confidence: u8) -> (r: u8)
    ensures
        r == spec_scaled(weight, confidence),
{
    let c: u32 = if confidence > 10 {
        10
    } else {
        confidence as u32
    };
    let w: u32 = weight as u32;
    proof {
        assert(w * c <= 255 * 10) by (nonlinear_arith)
            requires
                w <= 255,
                c <= 10,
        ;
    }
    ((w * c + 9) / 10) as u8
}

impl BotSignal {
    /// An active-source signal at full confidence in the `Other` family.
    pub fn scored(key: &'static str, label: &'static str, active: bool, weight: u8) -> (r:
        BotSignal)
        ensures
            r.key == key,
            r.label == label,
            r.active == active,
            r.availability is Active,
            r.provenance is Internal,
            r.confidence == 10,
            r.family is Other,
            r.contribution == if active {
                spec_scaled(weight, 10)
            } else {
                0u8
            },
    {
        BotSignal::scored_with_metadata(
            key,
            label,
            active,
            weight,
            SignalProvenance::Internal,
            10,
            SignalFamily::Other,
        )
    }

    /// An active-source signal: it contributes its confidence-scaled
    /// weight when the condition held, and nothing otherwise.
    pub fn scored_with_metadata(
        key: &'static str,
        label: &'static str,
        active: bool,
        weight: u8,
        provenance: SignalProvenance,
        confidence: u8,
        family: SignalFamily,
    ) -> (r: BotSignal)
        ensures
            r.key == key,
            r.label == label,
            r.active == active,
            r.availability is Active,
            r.provenance == provenance,
            r.confidence == if confidence > 10 {
                10u8
            } else {
                confidence
            },
            r.family == family,
            r.contribution == if active {
                spec_scaled(weight, confidence)
            } else {
                0u8
            },
    {
        let c: u8 = if confidence > 10 {
            10
        } else {
            confidence
        };
        let contribution: u8 = if active {
            scale_weight_by_confidence(weight, c)
        } else {
            0
        };
        BotSignal {
            key,
            label,
            active,
            contribution,
            availability: SignalAvailability::Active,
            provenance,
            confidence: c,
            family,
        }
    }

    /// A switched-off signal: inactive, contributing nothing, of
    /// internal provenance at full confidence in the `Other` family.
    pub fn disabled(key: &'static str, label: &'static str) -> (r: BotSignal)
        ensures
            r.key == key,
            r.label == label,
            !r.active,
            r.contribution == 0,
            r.availability is Disabled,
            r.provenance is Internal,
            r.confidence == 10,
            r.family is Other,
    {
        BotSignal::disabled_with_metadata(
            key,
            label,
            SignalProvenance::Internal,
            10,
            SignalFamily::Other,
        )
    }

    /// A switched-off signal with explicit provenance and family.
    pub fn disabled_with_metadata(
        key: &'static str,
        label: &'static str,
        provenance: SignalProvenance,
        confidence: u8,
        family: SignalFamily,
    ) -> (r: BotSignal)
        ensures
            r.key == key,
            r.label == label,
            !r.active,
            r.contribution == 0,
            r.availability is Disabled,
            r.provenance == provenance,
            r.family == family,
            r.confidence == if confidence > 10 {
                10u8
            } else {
                confidence
            },
    {
        BotSignal {
            key,
            label,
            active: false,
            contribution: 0,
            availability: SignalAvailability::Disabled,
            provenance,
            confidence: if confidence > 10 {
                10
            } else {
                confidence
            },
            family,
        }
    }

    /// A signal whose source could not be consulted.
    pub fn unavailable(key: &'static str, label: &'static str) -> (r: BotSignal)
        ensures
            r.key == key,
            r.label == label,
            !r.active,
            r.contribution == 0,
            r.availability is Unavailable,
    {
        BotSignal::unavailable_with_metadata(
            key,
            label,
            SignalProvenance::Internal,
            10,
            SignalFamily::Other,
        )
    }

    /// An unavailable signal with explicit provenance and family.
    pub fn unavailable_with_metadata(
        key: &'static str,
        label: &'static str,
        provenance: SignalProvenance,
        confidence: u8,
        family: SignalFamily,
    ) -> (r: BotSignal)
        ensures
            r.key == key,
            r.label == label,
            !r.active,
            r.contribution == 0,
            r.availability is Unavailable,
            r.provenance == provenance,
            r.family == family,
            r.confidence == if confidence > 10 {
                10u8
            } else {
                confidence
            },
    {
        BotSignal {
            key,
            label,
            active: false,
            contribution: 0,
            availability: SignalAvailability::Unavailable,
            provenance,
            confidence: if confidence > 10 {
                10
            } else {
                confidence
            },
            family,
        }
    }
}

/// Accumulates signals in push order under the configured budget caps.
pub struct SignalAccumulator {
    pub score: u8,
    pub signals: Vec<BotSignal>,
    pub budget_policy: Option<SignalBudgetPolicy>,
    pub fingerprint_total: u8,
    pub header_runtime_total: u8,
    pub transport_total: u8,
    pub temporal_total: u8,
    pub persistence_total: u8,
    pub behavior_total: u8,
}

impl SignalAccumulator {
    /// The running total recorded for one capped family.
    pub open spec fn family_total(self, family: SignalFamily) -> u8 {
        match family {
            SignalFamily::FingerprintHeaderRuntime => self.header_runtime_total,
            SignalFamily::FingerprintTransport => self.transport_total,
            SignalFamily::FingerprintTemporal => self.temporal_total,
            SignalFamily::FingerprintPersistence => self.persistence_total,
            SignalFamily::FingerprintBehavior => self.behavior_total,
            _ => 0,
        }
    }

    /// The budget caps hold of the running totals.
    pub open spec fn wf(self) -> bool {
        self.budget_policy matches Some(p) ==> {
            &&& self.fingerprint_total <= p.fingerprint_total_cap
            &&& self.header_runtime_total <= p.fingerprint_header_runtime_cap
            &&& self.transport_total <= p.fingerprint_transport_cap
            &&& self.temporal_total <= p.fingerprint_temporal_cap
            &&& self.persistence_total <= p.fingerprint_persistence_cap
            &&& self.behavior_total <= p.fingerprint_behavior_cap
        }
    }

    /// What the budget lets a contribution add: it is cut to what is
    /// left of the joint fingerprint budget, then to what is left of
    /// the family's own cap; without a policy it passes unchanged.
    pub open spec fn spec_allowed(self, family: SignalFamily, contribution: u8) -> u8 {
        match self.budget_policy {
            None => contribution,
            Some(p) => {
                let a1: u8 = if family.spec_is_fingerprint() && contribution
                    > p.fingerprint_total_cap - self.fingerprint_total {
                    (p.fingerprint_total_cap - self.fingerprint_total) as u8
                } else {
                    contribution
                };
                match p.spec_family_cap(family) {
                    None => a1,
                    Some(cap) => {
                        if a1 > cap - self.family_total(family) {
                            (cap - self.family_total(family)) as u8
                        } else {
                            a1
                        }
                    },
                }
            },
        }
    }

    /// An empty accumulator with no budget policy.
    pub fn with_capacity(capacity: usize) -> (r: SignalAccumulator)
        ensures
            r.wf(),
            r.score == 0,
            r.signals@.len() == 0,
            r.budget_policy is None,
            r.fingerprint_total == 0,
    {
        SignalAccumulator {
            score: 0,
            signals: Vec::with_capacity(capacity),
            budget_policy: None,
            fingerprint_total: 0,
            header_runtime_total: 0,
            transport_total: 0,
            temporal_total: 0,
            persistence_total: 0,
            behavior_total: 0,
        }
    }

    /// An empty accumulator enforcing the given budget policy.
    pub fn with_capacity_and_policy(capacity: usize, budget_policy: SignalBudgetPolicy) -> (r:
        SignalAccumulator)
        ensures
            r.wf(),
            r.score == 0,
            r.signals@.len() == 0,
            r.budget_policy == Some(budget_policy),
            r.fingerprint_total == 0,
            r.header_runtime_total == 0,
            r.transport_total == 0,
            r.temporal_total == 0,
            r.persistence_total == 0,
            r.behavior_total == 0,
    {
        SignalAccumulator {
            score: 0,
            signals: Vec::with_capacity(capacity),
            budget_policy: Some(budget_policy),
            fingerprint_total: 0,
            header_runtime_total: 0,
            transport_total: 0,
            temporal_total: 0,
            persistence_total: 0,
            behavior_total: 0,
        }
    }

    fn apply_budget(&mut self, family: SignalFamily, contribution: u8) -> (r: u8)
        requires
            old(self).wf(),
        ensures
            final(self).wf(),
            r == old(self).spec_allowed(family, contribution),
            final(self).budget_policy == old(self).budget_policy,
            final(self).score == old(self).score,
            final(self).signals == old(self).signals,
            final(self).fingerprint_total == if old(self).budget_policy is Some
                && family.spec_is_fingerprint() && r > 0 {
                old(self).fingerprint_total + r
            } else {
                old(self).fingerprint_total as int
            },
            forall|f: SignalFamily| #[trigger] final(self).family_total(f) == if old(
                self,
            ).budget_policy is Some && f == family && f.spec_is_fingerprint() && r > 0 {
                old(self).family_total(f) + r
            } else {
                old(self).family_total(f) as int
            },
    {
        let policy = match self.budget_policy {
            None => {
                return contribution;
            },
            Some(p) => p,
        };
        let mut allowed = contribution;
        if family.is_fingerprint() {
            let remaining = policy.fingerprint_total_cap - self.fingerprint_total;
            if allowed > remaining {
                allowed = remaining;
            }
        }
        let family_used: u8 = match family {
            SignalFamily::FingerprintHeaderRuntime => self.header_runtime_total,
            SignalFamily::FingerprintTransport => self.transport_total,
            SignalFamily::FingerprintTemporal => self.temporal_total,
            SignalFamily::FingerprintPersistence => self.persistence_total,
            SignalFamily::FingerprintBehavior => self.behavior_total,
            _ => 0,
        };
        match policy.family_cap(family) {
            Some(cap) => {
                let remaining = cap - family_used;
                if allowed > remaining {
                    allowed = remaining;
                }
            },
            None => {},
        }
        if allowed > 0 {
            match family {
                SignalFamily::FingerprintHeaderRuntime => {
                    self.header_runtime_total = self.header_runtime_total + allowed;
                },
                SignalFamily::FingerprintTransport => {
                    self.transport_total = self.transport_total + allowed;
                },
                SignalFamily::FingerprintTemporal => {
                    self.temporal_total = self.temporal_total + allowed;
                },
                SignalFamily::FingerprintPersistence => {
                    self.persistence_total = self.persistence_total + allowed;
                },
                SignalFamily::FingerprintBehavior => {
                    self.behavior_total = self.behavior_total + allowed;
                },
                _ => {},
            }
            if family.is_fingerprint() {
                self.fingerprint_total = self.fingerprint_total + allowed;
            }
        }
        allowed
    }

    /// Record a signal: its contribution is cut to the remaining budget
    /// and added, saturating, to the running score; the signal itself is
    /// appended with the capped contribution.
    pub fn push(&mut self, signal: BotSignal)
        requires
            old(self).wf(),
        ensures
            final(self).wf(),
            final(self).signals@.len() == old(self).signals@.len() + 1,
            final(self).signals@.subrange(0, old(self).signals@.len() as int) == old(
                self,
            ).signals@,
            final(self).signals@.last().contribution == old(self).spec_allowed(
                signal.family,
                signal.contribution,
            ),
            final(self).signals@.last().key == signal.key,
            final(self).signals@.last().active == signal.active,
            final(self).signals@.last().availability == signal.availability,
            final(self).signals@.last().family == signal.family,
            final(self).score == if old(self).score + old(self).spec_allowed(
                signal.family,
                signal.contribution,
            ) <= 255 {
                old(self).score + old(self).spec_allowed(signal.family, signal.contribution)
            } else {
                255int
            },
            final(self).budget_policy == old(self).budget_policy,
            final(self).fingerprint_total == if old(self).budget_policy is Some
                && signal.family.spec_is_fingerprint() && old(self).spec_allowed(
                signal.family,
                signal.contribution,
            ) > 0 {
                old(self).fingerprint_total + old(self).spec_allowed(
                    signal.family,
                    signal.contribution,
                )
            } else {
                old(self).fingerprint_total as int
            },
            forall|f: SignalFamily| #[trigger] final(self).family_total(f) == if old(
                self,
            ).budget_policy is Some && f == signal.family && f.spec_is_fingerprint() && old(
                self,
            ).spec_allowed(signal.family, signal.contribution) > 0 {
                old(self).family_total(f) + old(self).spec_allowed(
                    signal.family,
                    signal.contribution,
                )
            } else {
                old(self).family_total(f) as int
            },
    {
        let capped = self.apply_budget(signal.family, signal.contribution);
        let ghost mid = *self;
        let recorded = BotSignal {
            key: signal.key,
            label: signal.label,
            active: signal.active,
            contribution: capped,
            availability: signal.availability,
            provenance: signal.provenance,
            confidence: signal.confidence,
            family: signal.family,
        };
        if self.score > 255 - capped {
            self.score = 255;
        } else {
            self.score = self.score + capped;
        }
        let ghost pre = self.signals@;
        self.signals.push(recorded);
        proof {
            assert(self.signals@.subrange(0, pre.len() as int) =~= pre);
            assert forall|f: SignalFamily| #[trigger] self.family_total(f) == mid.family_total(
                f,
            ) by {}
        }
    }

    /// Close the accumulation: the score saturates into the 0..10 band
    /// and the recorded signals come back in push order.
    pub fn finish(self) -> (r: (u8, Vec<BotSignal>))
        ensures
            r.0 == if self.score > 10 {
                10u8
            } else {
                self.score
            },
            r.0 <= 10,
            r.1 == self.signals,
    {
        let score = if self.score > 10 {
            10
        } else {
            self.score
        };
        (score, self.signals)
    }
}

} // verus!
