//! What holds of the result of every run of the pipeline.

use crate::identity::{
    added, bound, identities_ascend, lemma_added, lemma_ascending_determined, value_for, Identity,
};
use crate::pipeline::{collected, OutcomeView, ReportView};
use vstd::prelude::*;

verus! {

/// Whether every package of the run got both of its processes started.
pub open spec fn all_started(reports: Seq<ReportView>) -> bool {
    forall|k: int| 0 <= k < reports.len() ==> (#[trigger] reports[k]).result is Ok
}

/// Whether no two reports of the run are of the same identity.
pub open spec fn identities_differ(reports: Seq<ReportView>) -> bool {
    forall|i: int, j: int|
        0 <= i < j < reports.len() ==> (#[trigger] reports[i]).identity != (
        #[trigger] reports[j]).identity
}

/// Whether some report of the run is of the identity.
pub open spec fn reported(reports: Seq<ReportView>, identity: Identity) -> bool {
    exists|k: int| 0 <= k < reports.len() && (#[trigger] reports[k]).identity == identity
}

/// The result of a run in which every process was started: each identity of
/// the run is bound, to the outcomes of its first report, and no other is;
/// or two reports were of the same identity.
pub proof fn lemma_collected(reports: Seq<ReportView>)
    requires
        all_started(reports),
    ensures
        match collected(reports) {
            Ok(outcomes) => {
                &&& identities_differ(reports)
                &&& identities_ascend(outcomes)
                &&& outcomes.len() == reports.len()
                &&& forall|identity: Identity| #[trigger]
                    bound(outcomes, identity) == reported(reports, identity)
                &&& forall|k: int|
                    0 <= k < reports.len() ==> value_for(
                        outcomes,
                        (#[trigger] reports[k]).identity,
                    ) == Some(reports[k].result->Ok_0)
            },
            Err(error) => error is Duplicate && !identities_differ(reports),
        },
    decreases reports.len(),
{
    if reports.len() > 0 {
        let init = reports.drop_last();
        let last = reports.last();
        assert(last == reports[reports.len() - 1]);
        assert forall|k: int| 0 <= k < init.len() implies (#[trigger] init[k]).result is Ok by {
            assert(init[k] == reports[k]);
        }
        lemma_collected(init);
        match collected(init) {
            Ok(prior) => {
                if bound(prior, last.identity) {
                    assert(reported(init, last.identity));
                    let k = choose|k: int|
                        0 <= k < init.len() && (#[trigger] init[k]).identity == last.identity;
                    assert(init[k] == reports[k]);
                } else {
                    lemma_added(prior, last.identity, last.result->Ok_0);
                    let outcomes = added(prior, last.identity, last.result->Ok_0);
                    assert forall|i: int, j: int| 0 <= i < j < reports.len() implies (
                    #[trigger] reports[i]).identity != (#[trigger] reports[j]).identity by {
                        assert(init[i] == reports[i]);
                        if j < init.len() {
                            assert(init[j] == reports[j]);
                        } else {
                            assert(!reported(init, last.identity));
                        }
                    }
                    assert forall|identity: Identity| #[trigger]
                        bound(outcomes, identity) == reported(reports, identity) by {
                        if identity == last.identity {
                            assert(reports[reports.len() - 1].identity == identity);
                        } else {
                            assert(value_for(outcomes, identity) == value_for(prior, identity));
                            assert(bound(prior, identity) == reported(init, identity));
                            if reported(init, identity) {
                                let k = choose|k: int|
                                    0 <= k < init.len() && (#[trigger] init[k]).identity
                                        == identity;
                                assert(reports[k] == init[k]);
                            }
                            if reported(reports, identity) {
                                let k = choose|k: int|
                                    0 <= k < reports.len() && (#[trigger] reports[k]).identity
                                        == identity;
                                assert(reports[k] == init[k]);
                            }
                        }
                    }
                    assert forall|k: int| 0 <= k < reports.len() implies value_for(
                        outcomes,
                        (#[trigger] reports[k]).identity,
                    ) == Some(reports[k].result->Ok_0) by {
                        if k < init.len() {
                            assert(init[k] == reports[k]);
                            assert(reported(init, init[k].identity));
                            assert(value_for(outcomes, reports[k].identity) == value_for(
                                prior,
                                reports[k].identity,
                            ));
                        }
                    }
                }
            },
            Err(error) => {
                let (i, j) = choose|i: int, j: int|
                    0 <= i < j < init.len() && (#[trigger] init[i]).identity == (
                    #[trigger] init[j]).identity;
                assert(init[i] == reports[i] && init[j] == reports[j]);
            },
        }
    } else {
        assert forall|identity: Identity| #[trigger]
            bound(Seq::<(Identity, (OutcomeView, OutcomeView))>::empty(), identity) == reported(
                reports,
                identity,
            ) by {}
    }
}

/// A run in which every process was started and in which two
/// reports are of the same identity, whatever they hold, fails: it gives no
/// outcomes but names a duplicate.
pub proof fn law_duplicate_identity_fails(reports: Seq<ReportView>, i: int, j: int)
    requires
        all_started(reports),
        0 <= i < j < reports.len(),
        reports[i].identity == reports[j].identity,
    ensures
        collected(reports) matches Err(error) && error is Duplicate,
{
    lemma_collected(reports);
}

/// A run in which every process was started and no
/// two reports are of the same identity gives outcomes: as many as reports,
/// and for each report its outcomes under its identity.
pub proof fn law_run_is_complete(reports: Seq<ReportView>)
    requires
        all_started(reports),
        identities_differ(reports),
    ensures
        collected(reports) is Ok,
        collected(reports)->Ok_0.len() == reports.len(),
        forall|k: int|
            0 <= k < reports.len() ==> value_for(
                collected(reports)->Ok_0,
                (#[trigger] reports[k]).identity,
            ) == Some(reports[k].result->Ok_0),
{
    lemma_collected(reports);
}

/// The order in which the reports come in does not matter: two runs in which
/// every process was started and no two reports are of the same identity, and
/// which hold the same reports, give the same outcomes.
pub proof fn law_order_does_not_matter(first: Seq<ReportView>, second: Seq<ReportView>)
    requires
        all_started(first),
        all_started(second),
        identities_differ(first),
        identities_differ(second),
        forall|k: int| 0 <= k < first.len() ==> second.contains(#[trigger] first[k]),
        forall|k: int| 0 <= k < second.len() ==> first.contains(#[trigger] second[k]),
    ensures
        collected(first) == collected(second),
{
    lemma_collected(first);
    lemma_collected(second);
    let a = collected(first)->Ok_0;
    let b = collected(second)->Ok_0;
    assert forall|identity: Identity| #[trigger] value_for(a, identity) == value_for(
        b,
        identity,
    ) by {
        if reported(first, identity) {
            let k = choose|k: int|
                0 <= k < first.len() && (#[trigger] first[k]).identity == identity;
            assert(second.contains(first[k]));
            let l = choose|l: int| 0 <= l < second.len() && second[l] == first[k];
            assert(second[l].identity == identity);
        } else if reported(second, identity) {
            let l = choose|l: int|
                0 <= l < second.len() && (#[trigger] second[l]).identity == identity;
            assert(first.contains(second[l]));
            let k = choose|k: int| 0 <= k < first.len() && first[k] == second[l];
            assert(first[k].identity == identity);
        } else {
            assert(!bound(a, identity));
            assert(!bound(b, identity));
        }
    }
    lemma_ascending_determined(a, b);
}

} // verus!
