//! What holds of the registry whatever the platform reports.

use crate::naming::{distinct, lemma_rank, lemma_unique_name_keeps_distinct, unique_name};
use crate::session::{SessionReport, SessionView, Verdict};
use crate::{
    activation_failed, names_of, registered, registered_all, with_endpoint, with_endpoints,
    EndpointReport,
};
use vstd::prelude::*;

verus! {

/// The test that a report has the verdict `verdict`.
pub open spec fn has_verdict<A>(verdict: Verdict) -> spec_fn(SessionReport<A>) -> bool {
    |report: SessionReport<A>| report.spec_verdict() == verdict
}

/// The test that a report is an accepted one.
pub open spec fn is_accepted<A>() -> spec_fn(SessionReport<A>) -> bool {
    |report: SessionReport<A>| report.accepted()
}

/// How many reports of a run have the verdict `verdict`.
pub open spec fn count<A>(reports: Seq<SessionReport<A>>, verdict: Verdict) -> nat {
    reports.filter(has_verdict(verdict)).len()
}

/// A report that is not accepted leaves the registry as it is; an accepted
/// one adds exactly one session, at the end, under a name that no session
/// held before.
pub proof fn lemma_registered<A, B>(sessions: Seq<SessionView<A, B>>, report: SessionReport<A>)
    ensures
        !report.accepted() ==> registered(sessions, report) == sessions,
        report.accepted() ==> {
            &&& registered(sessions, report).len() == sessions.len() + 1
            &&& registered(sessions, report).drop_last() == sessions
            &&& registered(sessions, report).last() is Application
            &&& !names_of(sessions).contains(registered(sessions, report).last().name())
        },
{
    if report.accepted() {
        let info = report->Resolved_info;
        lemma_rank(names_of(sessions), info.process_name@);
        assert(registered(sessions, report).drop_last() =~= sessions);
    }
}

/// A session whose owner is process 0 never enters the registry.
pub proof fn lemma_system_session_is_passed_over<A, B>(
    sessions: Seq<SessionView<A, B>>,
    report: SessionReport<A>,
)
    requires
        report.owner() == Some(0u32),
    ensures
        registered(sessions, report) == sessions,
{
}

/// A scan in which every session is owned by process 0 leaves the registry
/// as it is.
pub proof fn lemma_system_sessions_are_passed_over<A, B>(
    sessions: Seq<SessionView<A, B>>,
    reports: Seq<SessionReport<A>>,
)
    requires
        forall|i: int| 0 <= i < reports.len() ==> (#[trigger] reports[i]).owner() == Some(0u32),
    ensures
        registered_all(sessions, reports) == sessions,
    decreases reports.len(),
{
    if reports.len() > 0 {
        assert forall|i: int| 0 <= i < reports.drop_last().len() implies (
        #[trigger] reports.drop_last()[i]).owner() == Some(0u32) by {
            assert(reports.drop_last()[i] == reports[i]);
        }
        lemma_system_sessions_are_passed_over(sessions, reports.drop_last());
        assert(reports.last() == reports[reports.len() - 1]);
    }
}

/// Taking a reported session in keeps distinct names distinct.
pub proof fn lemma_registered_keeps_names_distinct<A, B>(
    sessions: Seq<SessionView<A, B>>,
    report: SessionReport<A>,
)
    requires
        distinct(names_of(sessions)),
    ensures
        distinct(names_of(registered(sessions, report))),
{
    if report.accepted() {
        let info = report->Resolved_info;
        let names = names_of(sessions);
        lemma_unique_name_keeps_distinct(names, info.process_name@);
        assert(names_of(registered(sessions, report)) =~= names.push(
            unique_name(names, info.process_name@),
        ));
    }
}

/// A scan keeps distinct names distinct: no two sessions of the registry
/// share a name afterwards if none did before.
pub proof fn lemma_scan_keeps_names_distinct<A, B>(
    sessions: Seq<SessionView<A, B>>,
    reports: Seq<SessionReport<A>>,
)
    requires
        distinct(names_of(sessions)),
    ensures
        distinct(names_of(registered_all(sessions, reports))),
    decreases reports.len(),
{
    if reports.len() > 0 {
        lemma_scan_keeps_names_distinct(sessions, reports.drop_last());
        lemma_registered_keeps_names_distinct(
            registered_all(sessions, reports.drop_last()),
            reports.last(),
        );
    }
}

/// A session that is not accepted keeps out neither those before it nor
/// those after it: the scan ends as if it had not been reported.
pub proof fn lemma_failed_session_is_isolated<A, B>(
    sessions: Seq<SessionView<A, B>>,
    before: Seq<SessionReport<A>>,
    failed: SessionReport<A>,
    after: Seq<SessionReport<A>>,
)
    requires
        !failed.accepted(),
    ensures
        registered_all(sessions, before + seq![failed] + after) == registered_all(
            sessions,
            before + after,
        ),
{
    crate::lemma_registered_all_concat(sessions, before + seq![failed], after);
    crate::lemma_registered_all_concat(sessions, before, after);
    let one = before + seq![failed];
    assert(one.drop_last() =~= before);
    assert(one.last() == failed);
}

/// Every report has one of the three verdicts, so the three counts of a run
/// add up to its length.
pub proof fn lemma_counts_add_up<A>(reports: Seq<SessionReport<A>>)
    ensures
        count(reports, Verdict::Registered) + count(reports, Verdict::System) + count(
            reports,
            Verdict::Failed,
        ) == reports.len(),
    decreases reports.len(),
{
    reveal(Seq::filter);
    if reports.len() > 0 {
        lemma_counts_add_up(reports.drop_last());
    }
}

/// After a scan the registry has grown by the sessions that were examined,
/// less those that failed and less those of process 0.
pub proof fn lemma_scan_size<A, B>(
    sessions: Seq<SessionView<A, B>>,
    reports: Seq<SessionReport<A>>,
)
    ensures
        registered_all(sessions, reports).len() == sessions.len() + reports.len() - count(
            reports,
            Verdict::Failed,
        ) - count(reports, Verdict::System),
        registered_all(sessions, reports).len() == sessions.len() + reports.filter(
            is_accepted(),
        ).len(),
    decreases reports.len(),
{
    reveal(Seq::filter);
    lemma_counts_add_up(reports);
    if reports.len() > 0 {
        lemma_scan_size(sessions, reports.drop_last());
        lemma_counts_add_up(reports.drop_last());
        lemma_registered(registered_all(sessions, reports.drop_last()), reports.last());
    }
}

/// A scan keeps what was registered before it, in its place.
pub proof fn lemma_scan_keeps_earlier_sessions<A, B>(
    sessions: Seq<SessionView<A, B>>,
    reports: Seq<SessionReport<A>>,
)
    ensures
        sessions.len() <= registered_all(sessions, reports).len(),
        registered_all(sessions, reports).take(sessions.len() as int) == sessions,
    decreases reports.len(),
{
    if reports.len() == 0 {
        assert(sessions.take(sessions.len() as int) =~= sessions);
    } else {
        let front = registered_all(sessions, reports.drop_last());
        lemma_scan_keeps_earlier_sessions(sessions, reports.drop_last());
        lemma_registered(front, reports.last());
        assert(registered_all(sessions, reports).take(sessions.len() as int) =~= front.take(
            sessions.len() as int,
        ));
    }
}

/// A default device that was resolved and activated gives a session of
/// exactly the name asked for, at the end of the list; any other report
/// changes nothing.
pub proof fn lemma_with_endpoint<A, B, D>(
    sessions: Seq<SessionView<A, B>>,
    name: Seq<char>,
    report: Option<EndpointReport<D, B>>,
)
    ensures
        (report is None || activation_failed(report)) ==> with_endpoint(sessions, name, report)
            == sessions,
        (report matches Some(found) && found.volume_control is Some) ==> with_endpoint(
            sessions,
            name,
            report,
        ) == sessions.push(
            SessionView::Endpoint {
                name,
                volume_control: report->0.volume_control->0,
            },
        ),
{
}

/// The names of the endpoint sessions are literally `master` and `mic`.
pub proof fn lemma_endpoint_names()
    ensures
        "master"@ == seq!['m', 'a', 's', 't', 'e', 'r'],
        "mic"@ == seq!['m', 'i', 'c'],
{
    reveal_strlit("master");
    reveal_strlit("mic");
    assert("master"@ =~= seq!['m', 'a', 's', 't', 'e', 'r']);
    assert("mic"@ =~= seq!['m', 'i', 'c']);
}

/// Each default device gives its session whether or not the other one does:
/// the output's session is named `master` and stands where the list ended
/// before, the input's is named `mic` and stands last.
pub proof fn lemma_endpoints_are_independent<A, B, D>(
    sessions: Seq<SessionView<A, B>>,
    output: Option<EndpointReport<D, B>>,
    input: Option<EndpointReport<D, B>>,
)
    ensures
        (output matches Some(found) && found.volume_control is Some) ==> {
            &&& with_endpoints(sessions, output, input).len() > sessions.len()
            &&& with_endpoints(sessions, output, input)[sessions.len() as int]
                == (SessionView::<A, B>::Endpoint {
                name: "master"@,
                volume_control: output->0.volume_control->0,
            })
        },
        (input matches Some(found) && found.volume_control is Some) ==> {
            &&& with_endpoints(sessions, output, input).len() > sessions.len()
            &&& with_endpoints(sessions, output, input).last() == (SessionView::<
                A,
                B,
            >::Endpoint { name: "mic"@, volume_control: input->0.volume_control->0 })
        },
        with_endpoints(sessions, output, input).take(sessions.len() as int) == sessions,
{
    let both = with_endpoints(sessions, output, input);
    assert(both.take(sessions.len() as int) =~= sessions);
}

/// The endpoint sessions keep distinct names distinct where no session
/// holds the name `master` or `mic` already. (They are not renamed, so a
/// session that holds one of these names makes a second one of that name.)
pub proof fn lemma_endpoints_keep_names_distinct<A, B, D>(
    sessions: Seq<SessionView<A, B>>,
    output: Option<EndpointReport<D, B>>,
    input: Option<EndpointReport<D, B>>,
)
    requires
        distinct(names_of(sessions)),
        !names_of(sessions).contains("master"@),
        !names_of(sessions).contains("mic"@),
    ensures
        distinct(names_of(with_endpoints(sessions, output, input))),
{
    lemma_endpoint_names();
    let names = names_of(sessions);
    let grown = names_of(with_endpoints(sessions, output, input));
    assert forall|i: int, j: int| 0 <= i < j < grown.len() implies grown[i] != grown[j] by {
        if j < sessions.len() {
            assert(grown[i] == names[i]);
            assert(grown[j] == names[j]);
        } else {
            assert(grown[j] == "master"@ || grown[j] == "mic"@);
            if i < sessions.len() {
                assert(grown[i] == names[i]);
                assert(names.contains(names[i]));
            } else {
                assert(grown[i] == "master"@);
                assert(grown[j] == "mic"@);
                assert("master"@.len() != "mic"@.len());
            }
        }
    }
}

/// Where names are distinct, at most one session has a given name: a lookup
/// by exact name finds the only match.
pub proof fn lemma_exact_match_is_unique(names: Seq<Seq<char>>, name: Seq<char>, i: int, j: int)
    requires
        distinct(names),
        0 <= i < names.len(),
        0 <= j < names.len(),
        names[i] == name,
        names[j] == name,
    ensures
        i == j,
{
    if i < j {
        assert(names[i] != names[j]);
    } else if j < i {
        assert(names[j] != names[i]);
    }
}

} // verus!
