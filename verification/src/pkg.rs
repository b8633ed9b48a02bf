//! The installed-set tracker and the install orchestrator.
//!
//! The tracker caches the adapter's last installed-package listing as a
//! canonical snapshot. The orchestrator computes the missing set, asks the
//! caller to run the adapter on it, and — because the adapter's own
//! success/failure signal is a weak oracle — classifies a reported failure
//! from the re-observed installed state rather than trusting the report.

use vstd::prelude::*;
use crate::error::ErrorKind;
use crate::manager::{Manager, spec_kind_name};
use crate::names::{
    clone_names, diff_names, lemma_diff_names_empty_iff, lemma_diff_names_membership,
    lemma_diff_names_shorter, lemma_diff_names_disjoint, lemma_sorted_names_distinct,
    missing_names, names_subset, normalize_names, same_names, sorted_names,
};

verus! {

/// The terminal classification of one install invocation.
#[derive(Debug)]
pub enum InstallOutcome {
    /// Nothing was missing, so the adapter was never invoked.
    NoOpNothingMissing,
    /// Every desired package is installed.
    Success,
    /// Some of the missing packages were installed; carries the residual
    /// list of those still missing.
    PartialFailure(Vec<String>),
    /// Nothing from the missing set was installed.
    TotalFailure,
}

/// The orchestrator's decision after computing the missing set: either the
/// outcome is already settled, or the adapter must install the given names.
#[derive(Debug)]
pub enum InstallStep {
    Done(InstallOutcome),
    Invoke(Vec<String>),
}

/// The caller's report on the adapter's install attempt. A reported failure
/// carries the refreshed installed listing the adapter was re-queried for;
/// a failure of that re-query itself is fatal and never reaches the core.
#[derive(Debug)]
pub enum InstallEvent {
    Succeeded,
    Failed(Option<Vec<String>>),
}

/// How a reported install failure is classified from the missing set `m`
/// that was re-computed against the refreshed snapshot: everything still
/// missing is a total failure, a shorter but non-empty residual a partial
/// failure carrying exactly the still-missing names, and an empty residual
/// a success in spite of the report.
pub open spec fn classified(
    r: Result<InstallOutcome, ErrorKind>,
    list: Seq<Seq<char>>,
    m: Seq<Seq<char>>,
) -> bool {
    if m.len() == list.len() {
        r == Result::<InstallOutcome, ErrorKind>::Ok(InstallOutcome::TotalFailure)
    } else if m.len() > 0 {
        r matches Ok(o) && o matches InstallOutcome::PartialFailure(res) && res.deep_view() == m
    } else {
        r == Result::<InstallOutcome, ErrorKind>::Ok(InstallOutcome::Success)
    }
}

/// A package manager together with the last-known installed snapshot and
/// the most recently computed missing set.
#[derive(Debug)]
pub struct Pkg {
    /// Interface for a package manager and associated commands
    pub manager: Manager,
    /// Installed packages, captured at startup and on refresh
    pub installed: Option<Vec<String>>,
    /// Missing packages, computed from input lists
    pub missing: Option<Vec<String>>,
}

impl Pkg {
    /// The snapshot, once present, is canonical: sorted and duplicate-free.
    pub open spec fn well_formed(&self) -> bool {
        self.installed matches Some(v) ==> sorted_names(v.deep_view())
    }

    /// The missing set of a desired list against the current snapshot: the
    /// desired names not installed, or the whole list when there is no
    /// snapshot.
    pub open spec fn spec_missing(&self, list: Seq<Seq<char>>) -> Seq<Seq<char>> {
        match self.installed {
            Some(v) => diff_names(list, v.deep_view()),
            None => list,
        }
    }

    /// An empty tracker for a manager.
    fn new(manager: Manager) -> (pkg: Pkg)
        ensures
            pkg.manager == manager,
            pkg.installed is None,
            pkg.missing is None,
    {
        Pkg { manager, installed: None, missing: None }
    }

    /// Starts the tracker from the adapter's first installed listing. An
    /// absent or empty listing is an error, not a valid empty state: it
    /// most often means the adapter could not be queried correctly.
    pub fn init(manager: Manager, installed: Option<Vec<String>>) -> (r: Result<Pkg, ErrorKind>)
        ensures
            match r {
                Ok(pkg) => {
                    &&& installed matches Some(v) && v@.len() > 0
                    &&& pkg.manager == manager
                    &&& pkg.missing is None
                    &&& pkg.well_formed()
                    &&& pkg.installed matches Some(w) && same_names(
                        w.deep_view(),
                        installed->Some_0.deep_view(),
                    )
                },
                Err(e) => {
                    &&& !(installed matches Some(v) && v@.len() > 0)
                    &&& e matches ErrorKind::PackagesNotFound(m) && m@ == spec_kind_name(
                        manager.kind,
                    )
                },
            },
    {
        let mut pkg = Pkg::new(manager);
        let ok = match &installed {
            Some(v) => v.len() > 0,
            None => false,
        };
        if ok {
            pkg.set_installed(installed);
            Ok(pkg)
        } else {
            Err(ErrorKind::PackagesNotFound(pkg.manager.get_kind_lowercase().to_owned()))
        }
    }

    /// Refreshes the snapshot from a new adapter listing, replacing it
    /// wholesale. An absent or empty listing is fatal, as at startup, and
    /// leaves the snapshot untouched.
    pub fn update_installed(&mut self, installed: Option<Vec<String>>) -> (r: Result<
        (),
        ErrorKind,
    >)
        ensures
            final(self).manager == old(self).manager,
            final(self).missing == old(self).missing,
            match r {
                Ok(_) => {
                    &&& installed matches Some(v) && v@.len() > 0
                    &&& final(self).well_formed()
                    &&& final(self).installed matches Some(w) && same_names(
                        w.deep_view(),
                        installed->Some_0.deep_view(),
                    )
                },
                Err(e) => {
                    &&& !(installed matches Some(v) && v@.len() > 0)
                    &&& final(self).installed == old(self).installed
                    &&& e matches ErrorKind::PackagesNotFound(m) && m@ == spec_kind_name(
                        old(self).manager.kind,
                    )
                },
            },
    {
        let ok = match &installed {
            Some(v) => v.len() > 0,
            None => false,
        };
        if ok {
            self.set_installed(installed);
            Ok(())
        } else {
            Err(ErrorKind::PackagesNotFound(self.manager.get_kind_lowercase().to_owned()))
        }
    }

    /// Replaces the snapshot wholesale, storing it in canonical form; old
    /// and new data are never merged.
    fn set_installed(&mut self, installed: Option<Vec<String>>)
        ensures
            final(self).manager == old(self).manager,
            final(self).missing == old(self).missing,
            match installed {
                Some(v) => final(self).installed matches Some(w) && sorted_names(w.deep_view())
                    && same_names(w.deep_view(), v.deep_view()),
                None => final(self).installed is None,
            },
    {
        match installed {
            Some(v) => {
                let w = normalize_names(&v);
                self.installed = Some(w);
            },
            None => {
                self.installed = None;
            },
        }
    }

    /// Recomputes the missing set of a desired list against the snapshot.
    fn set_missing(&mut self, list: Vec<String>)
        ensures
            final(self).manager == old(self).manager,
            final(self).installed == old(self).installed,
            final(self).missing matches Some(m) && m.deep_view() == old(self).spec_missing(
                list.deep_view(),
            ),
    {
        let missing = match &self.installed {
            Some(installed) => missing_names(&list, installed),
            None => list,
        };
        self.missing = Some(missing);
    }

    /// Computes the missing set of the desired list and decides the next
    /// move: when nothing is missing the invocation is already settled as
    /// `NoOpNothingMissing` and the adapter is never invoked; otherwise the
    /// caller must run the adapter's install on exactly the missing names.
    pub fn install_missing(&mut self, list: Vec<String>) -> (step: InstallStep)
        ensures
            final(self).manager == old(self).manager,
            final(self).installed == old(self).installed,
            final(self).missing matches Some(m) && m.deep_view() == old(self).spec_missing(
                list.deep_view(),
            ),
            old(self).spec_missing(list.deep_view()).len() == 0 ==> step == InstallStep::Done(
                InstallOutcome::NoOpNothingMissing,
            ),
            old(self).spec_missing(list.deep_view()).len() > 0 ==> (step matches
                InstallStep::Invoke(m) && m.deep_view() == old(self).spec_missing(
                list.deep_view(),
            )),
    {
        self.set_missing(list);
        match &self.missing {
            Some(missing) => {
                if missing.len() > 0 {
                    InstallStep::Invoke(clone_names(missing))
                } else {
                    InstallStep::Done(InstallOutcome::NoOpNothingMissing)
                }
            },
            None => InstallStep::Done(InstallOutcome::NoOpNothingMissing),
        }
    }

    /// Concludes an install attempt from the caller's report. A reported
    /// success is trusted without re-verification. After a reported failure
    /// the refreshed listing replaces the snapshot — a listing that could
    /// not be observed is fatal — and the outcome is classified from the
    /// re-computed missing set, treating the observed state as ground truth
    /// rather than the adapter's signal.
    pub fn finish_install(&mut self, list: Vec<String>, event: InstallEvent) -> (r: Result<
        InstallOutcome,
        ErrorKind,
    >)
        ensures
            final(self).manager == old(self).manager,
            match event {
                InstallEvent::Succeeded => {
                    &&& r == Result::<InstallOutcome, ErrorKind>::Ok(InstallOutcome::Success)
                    &&& *final(self) == *old(self)
                },
                InstallEvent::Failed(refreshed) => {
                    if refreshed matches Some(v) && v@.len() > 0 {
                        &&& final(self).well_formed()
                        &&& final(self).installed matches Some(w) && same_names(
                            w.deep_view(),
                            refreshed->Some_0.deep_view(),
                        )
                        &&& final(self).missing matches Some(m) && m.deep_view() == diff_names(
                            list.deep_view(),
                            final(self).installed->Some_0.deep_view(),
                        )
                        &&& classified(
                            r,
                            list.deep_view(),
                            final(self).missing->Some_0.deep_view(),
                        )
                    } else {
                        &&& final(self).installed == old(self).installed
                        &&& final(self).missing == old(self).missing
                        &&& r matches Err(e) && e matches ErrorKind::PackagesNotFound(m)
                            && m@ == spec_kind_name(old(self).manager.kind)
                    }
                },
            },
    {
        match event {
            InstallEvent::Succeeded => Ok(InstallOutcome::Success),
            InstallEvent::Failed(refreshed) => {
                match self.update_installed(refreshed) {
                    Err(e) => Err(e),
                    Ok(_) => {
                        self.set_missing(clone_names(&list));
                        match &self.missing {
                            Some(missing) => {
                                if missing.len() == list.len() {
                                    Ok(InstallOutcome::TotalFailure)
                                } else if missing.len() > 0 {
                                    Ok(InstallOutcome::PartialFailure(clone_names(missing)))
                                } else {
                                    Ok(InstallOutcome::Success)
                                }
                            },
                            None => {
                                proof {
                                    assert(false);
                                }
                                Ok(InstallOutcome::Success)
                            },
                        }
                    },
                }
            },
        }
    }
}

/// Install with nothing missing: when every desired name is already in the
/// snapshot, the missing set is empty, so `install_missing` settles the
/// invocation as `NoOpNothingMissing` and the adapter is never invoked.
pub proof fn lemma_install_noop(pkg: Pkg, list: Seq<Seq<char>>)
    requires
        pkg.installed matches Some(w) && names_subset(list, w.deep_view()),
    ensures
        pkg.spec_missing(list).len() == 0,
{
    lemma_diff_names_empty_iff(list, pkg.installed->Some_0.deep_view());
}

/// Install with total failure: when the refreshed snapshot shares no name
/// with the desired list, everything desired is still missing and the
/// reported failure is classified as `TotalFailure`.
pub proof fn lemma_install_total_failure(
    r: Result<InstallOutcome, ErrorKind>,
    list: Seq<Seq<char>>,
    refreshed: Seq<Seq<char>>,
)
    requires
        forall|x: Seq<char>| #[trigger] list.contains(x) ==> !refreshed.contains(x),
        classified(r, list, diff_names(list, refreshed)),
    ensures
        diff_names(list, refreshed) == list,
        r == Result::<InstallOutcome, ErrorKind>::Ok(InstallOutcome::TotalFailure),
{
    lemma_diff_names_disjoint(list, refreshed);
}

/// Install with partial failure: when the refreshed snapshot contains some
/// desired name (`hit`) but misses another (`miss`), the reported failure
/// is classified as `PartialFailure`, and its residual carries exactly the
/// still-missing names.
pub proof fn lemma_install_partial_failure(
    r: Result<InstallOutcome, ErrorKind>,
    list: Seq<Seq<char>>,
    refreshed: Seq<Seq<char>>,
    hit: Seq<char>,
    miss: Seq<char>,
)
    requires
        sorted_names(list),
        list.contains(hit),
        refreshed.contains(hit),
        list.contains(miss),
        !refreshed.contains(miss),
        classified(r, list, diff_names(list, refreshed)),
    ensures
        r matches Ok(o) && o matches InstallOutcome::PartialFailure(res) && res.deep_view()
            == diff_names(list, refreshed),
{
    lemma_sorted_names_distinct(list);
    lemma_diff_names_shorter(list, refreshed, hit);
    lemma_diff_names_membership(list, refreshed, miss);
    assert(diff_names(list, refreshed).contains(miss));
}

/// Install with masked success: when the refreshed snapshot contains every
/// name of a non-empty desired list, nothing is missing any more, so the
/// adapter's reported failure is suppressed and the classification is
/// `Success`.
pub proof fn lemma_install_masked_success(
    r: Result<InstallOutcome, ErrorKind>,
    list: Seq<Seq<char>>,
    refreshed: Seq<Seq<char>>,
)
    requires
        list.len() > 0,
        names_subset(list, refreshed),
        classified(r, list, diff_names(list, refreshed)),
    ensures
        r == Result::<InstallOutcome, ErrorKind>::Ok(InstallOutcome::Success),
{
    lemma_diff_names_empty_iff(list, refreshed);
}

} // verus!
