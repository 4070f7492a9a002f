//! What the platform found before a launch.
use vstd::prelude::*;
use crate::first::{either, first_some};
use crate::first::{lemma_first_at, lemma_first_none, no_first_finding_means_none};
use crate::manifest::AppId;
use crate::ordered::TextSet;
use crate::runtime::error::{reports, RuntimeFault};
use crate::runtime::{Capability, LaunchEnvironment, RuntimeProfile, RuntimeValidationError};
use crate::text::{byte_count, text_admitted, text_eq, CharClass};
use crate::text::{all_admitted, byte_len};

verus! {

/// The result of one check.
#[derive(Clone, Copy, Debug, PartialEq, Eq, Structural)]
pub enum PreflightStatus {
    Passed,
    Warning,
    Failed,
}

/// One check before a launch.
#[derive(Clone, Debug, PartialEq, Eq)]
pub struct PreflightCheck {
    pub id: String,
    pub status: PreflightStatus,
    pub message: String,
}

/// All that was found before a launch.
#[derive(Clone, Debug, PartialEq, Eq)]
pub struct PreflightReport {
    pub app_id: AppId,
    pub profile: RuntimeProfile,
    pub compatible: bool,
    pub checks: Vec<PreflightCheck>,
    pub missing_capabilities: TextSet<Capability>,
    pub missing_libraries: Vec<String>,
    pub launch_environment: Option<LaunchEnvironment>,
}

/// The id of a check.
pub open spec fn valid_check_id(s: Seq<char>) -> bool {
    0 < s.len() && byte_len(s) <= 64 && all_admitted(CharClass::CheckId, s)
}

impl PreflightReport {
    /// The fault of one check: a bad id, or one that stood before.
    pub open spec fn check_fault(&self, i: int) -> Option<RuntimeFault> {
        let id = self.checks@[i].id@;
        if !valid_check_id(id) {
            Some(RuntimeFault::InvalidCheckId(id))
        } else if exists|j: int| 0 <= j < i && (#[trigger] self.checks@[j]).id@ == id {
            Some(RuntimeFault::DuplicateCheckId(id))
        } else {
            None
        }
    }

    /// Nothing failed and nothing is missing.
    pub open spec fn found_compatible(&self) -> bool {
        &&& forall|i: int|
            0 <= i < self.checks@.len() ==> (#[trigger] self.checks@[i]).status
                != PreflightStatus::Failed
        &&& self.missing_capabilities@ == Set::<Seq<char>>::empty()
        &&& self.missing_libraries@.len() == 0
    }

    /// The fault of the environment of a compatible application.
    pub open spec fn environment_fault(&self) -> Option<RuntimeFault> {
        match self.launch_environment {
            None => Some(RuntimeFault::MissingLaunchEnvironment),
            Some(environment) => if environment.app_id@ != self.app_id@ || environment.profile
                != self.profile {
                Some(RuntimeFault::PreflightEnvironmentMismatch)
            } else {
                environment.fault()
            },
        }
    }

    /// The first fault of the report.
    pub open spec fn fault(&self) -> Option<RuntimeFault> {
        either(
            first_some(Seq::new(self.checks@.len(), |i: int| self.check_fault(i))),
            if self.compatible != self.found_compatible() {
                Some(RuntimeFault::IncoherentPreflight)
            } else if self.compatible {
                self.environment_fault()
            } else {
                None
            },
        )
    }

    fn id_repeats(&self, i: usize) -> (r: bool)
        requires
            i < self.checks@.len(),
        ensures
            r == exists|j: int|
                0 <= j < i && (#[trigger] self.checks@[j]).id@ == self.checks@[i as int].id@,
    {
        let mut k: usize = 0;
        while k < i
            invariant
                k <= i < self.checks@.len(),
                forall|j: int|
                    0 <= j < k ==> (#[trigger] self.checks@[j]).id@ != self.checks@[i as int].id@,
            decreases i - k,
        {
            if text_eq(self.checks[k].id.as_str(), self.checks[i].id.as_str()) {
                assert(self.checks@[k as int].id@ == self.checks@[i as int].id@);
                return true;
            }
            k = k + 1;
        }
        false
    }

    fn validate_checks(&self) -> (r: Result<(), RuntimeValidationError>)
        ensures
            reports(r, first_some(Seq::new(self.checks@.len(), |i: int| self.check_fault(i)))),
    {
        let ghost faults = Seq::new(self.checks@.len(), |i: int| self.check_fault(i));
        let mut i: usize = 0;
        while i < self.checks.len()
            invariant
                i <= self.checks@.len(),
                faults == Seq::new(self.checks@.len(), |i: int| self.check_fault(i)),
                forall|j: int| 0 <= j < i ==> faults[j] is None,
            decreases self.checks@.len() - i,
        {
            let id = &self.checks[i].id;
            if id.as_str().is_empty() || byte_count(id.as_str()) > 64 || !text_admitted(
                CharClass::CheckId,
                id.as_str(),
            ) {
                proof {
                    lemma_first_at(faults, i as int);
                }
                return Err(RuntimeValidationError::InvalidCheckId(id.clone()));
            }
            if self.id_repeats(i) {
                proof {
                    lemma_first_at(faults, i as int);
                }
                return Err(RuntimeValidationError::DuplicateCheckId(id.clone()));
            }
            i = i + 1;
        }
        proof {
            lemma_first_none(faults);
        }
        Ok(())
    }

    /// Whether nothing failed and nothing is missing.
    fn computed_compatible(&self) -> (r: bool)
        ensures
            r == self.found_compatible(),
    {
        let mut i: usize = 0;
        while i < self.checks.len()
            invariant
                i <= self.checks@.len(),
                forall|j: int|
                    0 <= j < i ==> (#[trigger] self.checks@[j]).status != PreflightStatus::Failed,
            decreases self.checks@.len() - i,
        {
            if self.checks[i].status == PreflightStatus::Failed {
                assert(self.checks@[i as int].status == PreflightStatus::Failed);
                return false;
            }
            i = i + 1;
        }
        self.missing_capabilities.is_empty() && self.missing_libraries.len() == 0
    }

    /// Checks that the report is coherent, and the environment of a
    /// compatible application.
    pub fn validate(&self) -> (r: Result<(), RuntimeValidationError>)
        ensures
            reports(r, self.fault()),
    {
        if let Err(e) = self.validate_checks() {
            return Err(e);
        }
        if self.compatible != self.computed_compatible() {
            return Err(RuntimeValidationError::IncoherentPreflight);
        }
        if self.compatible {
            match &self.launch_environment {
                None => return Err(RuntimeValidationError::MissingLaunchEnvironment),
                Some(environment) => {
                    if environment.app_id != self.app_id || environment.profile != self.profile {
                        return Err(RuntimeValidationError::PreflightEnvironmentMismatch);
                    }
                    return environment.validate();
                },
            }
        }
        Ok(())
    }
}

/// A report that passes the checks calls an application compatible exactly
/// where nothing failed and nothing is missing.
pub proof fn compatibility_is_derived_from_the_findings(report: PreflightReport)
    requires
        report.fault() is None,
    ensures
        report.compatible == report.found_compatible(),
        report.compatible ==> report.launch_environment is Some
            && report.launch_environment->0.fault() is None,
{
}

/// A report is accepted exactly where its checks have names that differ, it says that the
/// application fits just where no check failed and nothing is missing, and, if it fits, it brings
/// a sound environment for this application and profile.
pub proof fn sound_reports_are_accepted(report: PreflightReport)
    ensures
        report.fault() is None <==> {
            &&& forall|i: int|
                0 <= i < report.checks@.len() ==> valid_check_id((#[trigger] report.checks@[i]).id@)
            &&& forall|i: int, j: int|
                0 <= i < j < report.checks@.len() ==> (#[trigger] report.checks@[i]).id@ != (
                #[trigger] report.checks@[j]).id@
            &&& report.compatible <==> {
                &&& forall|i: int|
                    0 <= i < report.checks@.len() ==> (#[trigger] report.checks@[i]).status
                        != PreflightStatus::Failed
                &&& report.missing_capabilities@ == Set::<Seq<char>>::empty()
                &&& report.missing_libraries@.len() == 0
            }
            &&& report.compatible ==> {
                &&& report.launch_environment is Some
                &&& report.launch_environment->0.app_id@ == report.app_id@
                &&& report.launch_environment->0.profile == report.profile
                &&& report.launch_environment->0.fault() is None
            }
        },
{
    let faults = Seq::new(report.checks@.len(), |i: int| report.check_fault(i));
    no_first_finding_means_none(faults);
    if forall|i: int| 0 <= i < faults.len() ==> (#[trigger] faults[i]) is None {
        assert forall|i: int| 0 <= i < report.checks@.len() implies valid_check_id(
            (#[trigger] report.checks@[i]).id@,
        ) by {
            assert(faults[i] is None);
        }
        assert forall|i: int, j: int| 0 <= i < j < report.checks@.len() implies (
        #[trigger] report.checks@[i]).id@ != (#[trigger] report.checks@[j]).id@ by {
            assert(faults[j] is None);
        }
    } else {
        let i = choose|i: int| 0 <= i < faults.len() && !((#[trigger] faults[i]) is None);
        assert(report.check_fault(i) is Some);
        if valid_check_id(report.checks@[i].id@) {
            let j = choose|j: int|
                0 <= j < i && (#[trigger] report.checks@[j]).id@ == report.checks@[i].id@;
            assert(report.checks@[j].id@ == report.checks@[i].id@);
        }
    }
}

} // verus!
