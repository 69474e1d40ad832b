//! What the steps of a record guarantee, whatever the resolver, the pinger
//! and the location database answer.

use crate::geo::{all_found, geo_text, GeoView};
use crate::record::{
    consistent, fresh, pending, run, step, AnswerView, RecordView, Request, Stage,
};
use vstd::prelude::*;

verus! {

/// The records of a list of domains, each after its own row of answers.
pub open spec fn analysed(domains: Seq<Seq<char>>, answers: Seq<Seq<AnswerView>>) -> Seq<
    RecordView,
> {
    Seq::new(domains.len(), |i: int| run(fresh(domains[i]), answers[i]))
}

/// The three answers of a domain that resolves.
pub open spec fn full_row(
    resolved: Result<Seq<crate::address::Address>, Seq<char>>,
    probed: Result<nat, Seq<char>>,
    found: Seq<Option<GeoView>>,
) -> Seq<AnswerView> {
    seq![AnswerView::Resolved(resolved), AnswerView::Probed(probed), AnswerView::Located(found)]
}

/// A row of one answer is one step.
pub proof fn lemma_run_one(r: RecordView, a: AnswerView)
    ensures
        run(r, seq![a]) == step(r, a),
{
    let row = seq![a];
    assert(row.drop_last() =~= Seq::<AnswerView>::empty());
    assert(run(r, row.drop_last()) == r);
}

/// A row of three answers is three steps.
pub proof fn lemma_run_three(r: RecordView, a: AnswerView, b: AnswerView, c: AnswerView)
    ensures
        run(r, seq![a, b, c]) == step(step(step(r, a), b), c),
{
    let row = seq![a, b, c];
    assert(row.drop_last() =~= seq![a, b]);
    assert(seq![a, b].drop_last() =~= seq![a]);
    lemma_run_one(r, a);
    assert(run(r, seq![a, b]) == step(run(r, seq![a]), b));
}

/// Two rows one after the other are one row.
pub proof fn lemma_run_append(r: RecordView, first: Seq<AnswerView>, then: Seq<AnswerView>)
    ensures
        run(r, first + then) == run(run(r, first), then),
    decreases then.len(),
{
    if then.len() == 0 {
        assert(first + then =~= first);
    } else {
        assert((first + then).drop_last() =~= first + then.drop_last());
        assert((first + then).last() == then.last());
        lemma_run_append(r, first, then.drop_last());
    }
}

/// A fresh record is consistent.
pub proof fn lemma_fresh_consistent(domain: Seq<char>)
    ensures
        consistent(fresh(domain)),
{
}

/// A step keeps a record consistent.
pub proof fn lemma_step_consistent(r: RecordView, a: AnswerView)
    requires
        consistent(r),
    ensures
        consistent(step(r, a)),
{
}

/// Every record that answers have made of a fresh one is consistent: it
/// has a latency only with addresses and without error, and a location
/// only with addresses.
pub proof fn lemma_run_consistent(domain: Seq<char>, answers: Seq<AnswerView>)
    ensures
        consistent(run(fresh(domain), answers)),
    decreases answers.len(),
{
    if answers.len() > 0 {
        lemma_run_consistent(domain, answers.drop_last());
        lemma_step_consistent(run(fresh(domain), answers.drop_last()), answers.last());
    }
}

/// No answer changes the domain of a record.
pub proof fn lemma_run_keeps_domain(r: RecordView, answers: Seq<AnswerView>)
    ensures
        run(r, answers).domain == r.domain,
    decreases answers.len(),
{
    if answers.len() > 0 {
        lemma_run_keeps_domain(r, answers.drop_last());
    }
}

/// A record that is done stays as it is.
pub proof fn lemma_done_is_final(r: RecordView, answers: Seq<AnswerView>)
    requires
        r.stage is Done,
    ensures
        run(r, answers) == r,
    decreases answers.len(),
{
    if answers.len() > 0 {
        lemma_done_is_final(r, answers.drop_last());
    }
}

/// There is one record for each domain, in the domains' order, whatever
/// the answers are.
pub proof fn lemma_one_record_per_domain(domains: Seq<Seq<char>>, answers: Seq<Seq<AnswerView>>)
    ensures
        analysed(domains, answers).len() == domains.len(),
        forall|i: int|
            0 <= i < domains.len() ==> (#[trigger] analysed(domains, answers)[i]).domain
                == domains[i],
{
    assert forall|i: int| 0 <= i < domains.len() implies (#[trigger] analysed(
        domains,
        answers,
    )[i]).domain == domains[i] by {
        lemma_run_keeps_domain(fresh(domains[i]), answers[i]);
    }
}

/// The record of a domain depends on that domain's answers alone: what
/// the other domains are answered is nothing to it.
pub proof fn lemma_domains_apart(
    domains: Seq<Seq<char>>,
    answers: Seq<Seq<AnswerView>>,
    others: Seq<Seq<AnswerView>>,
    i: int,
)
    requires
        0 <= i < domains.len(),
        answers[i] == others[i],
    ensures
        analysed(domains, answers)[i] == analysed(domains, others)[i],
{
}

/// A domain that does not resolve has no addresses, no latency and no
/// location, and the failure is its error; nothing that follows changes
/// that.
pub proof fn lemma_unresolved(domain: Seq<char>, why: Seq<char>, later: Seq<AnswerView>)
    ensures
        run(fresh(domain), seq![AnswerView::Resolved(Err(why))] + later) == (RecordView {
            err: Some(why),
            stage: Stage::Done,
            ..fresh(domain)
        }),
{
    let first = seq![AnswerView::Resolved(Err(why))];
    lemma_run_one(fresh(domain), AnswerView::Resolved(Err(why)));
    lemma_run_append(fresh(domain), first, later);
    lemma_done_is_final(run(fresh(domain), first), later);
}

/// A domain that resolves but whose round trip fails keeps its addresses,
/// has no latency, has the failure as its error, and is located all the
/// same.
pub proof fn lemma_probe_failed(
    domain: Seq<char>,
    addrs: Seq<crate::address::Address>,
    why: Seq<char>,
    found: Seq<Option<GeoView>>,
)
    requires
        addrs.len() > 0,
    ensures
        run(fresh(domain), full_row(Ok(addrs), Err(why), found)) == (RecordView {
            domain,
            addrs,
            latency: 0,
            geo: geo_text(addrs.len(), found),
            err: Some(why),
            stage: Stage::Done,
        }),
{
    lemma_run_three(
        fresh(domain),
        AnswerView::Resolved(Ok(addrs)),
        AnswerView::Probed(Err(why)),
        AnswerView::Located(found),
    );
}

/// A domain that resolves and whose round trip is measured has no error,
/// its addresses, and the round trip as its latency.
pub proof fn lemma_probe_measured(
    domain: Seq<char>,
    addrs: Seq<crate::address::Address>,
    rtt: nat,
    found: Seq<Option<GeoView>>,
)
    requires
        addrs.len() > 0,
    ensures
        run(fresh(domain), full_row(Ok(addrs), Ok(rtt), found)) == (RecordView {
            domain,
            addrs,
            latency: rtt,
            geo: geo_text(addrs.len(), found),
            err: None,
            stage: Stage::Done,
        }),
{
    lemma_run_three(
        fresh(domain),
        AnswerView::Resolved(Ok(addrs)),
        AnswerView::Probed(Ok(rtt)),
        AnswerView::Located(found),
    );
}

/// A domain that resolves and whose round trip took some time has no
/// error, a latency above zero, and addresses.
pub proof fn lemma_full_success(
    domain: Seq<char>,
    addrs: Seq<crate::address::Address>,
    rtt: nat,
    found: Seq<Option<GeoView>>,
)
    requires
        addrs.len() > 0,
        rtt > 0,
    ensures
        run(fresh(domain), full_row(Ok(addrs), Ok(rtt), found)).err is None,
        run(fresh(domain), full_row(Ok(addrs), Ok(rtt), found)).latency > 0,
        run(fresh(domain), full_row(Ok(addrs), Ok(rtt), found)).addrs.len() > 0,
{
    lemma_probe_measured(domain, addrs, rtt, found);
}

/// A resolver that answers without any address ends the record at once,
/// empty and without error.
pub proof fn lemma_no_address(domain: Seq<char>, later: Seq<AnswerView>)
    ensures
        run(
            fresh(domain),
            seq![AnswerView::Resolved(Ok(Seq::<crate::address::Address>::empty()))] + later,
        ) == (RecordView { stage: Stage::Done, ..fresh(domain) }),
{
    let a = AnswerView::Resolved(Ok(Seq::<crate::address::Address>::empty()));
    lemma_run_one(fresh(domain), a);
    lemma_run_append(fresh(domain), seq![a], later);
    lemma_done_is_final(run(fresh(domain), seq![a]), later);
}

/// After the three answers a record has an error exactly where the domain
/// did not resolve, or resolved to some address and the round trip failed.
pub proof fn lemma_error_iff(
    domain: Seq<char>,
    resolved: Result<Seq<crate::address::Address>, Seq<char>>,
    probed: Result<nat, Seq<char>>,
    found: Seq<Option<GeoView>>,
)
    ensures
        run(fresh(domain), full_row(resolved, probed, found)).err is Some <==> (resolved is Err || (
        resolved matches Ok(addrs) && addrs.len() > 0 && probed is Err)),
{
    lemma_run_three(
        fresh(domain),
        AnswerView::Resolved(resolved),
        AnswerView::Probed(probed),
        AnswerView::Located(found),
    );
}

/// What the lookups find, or fail to find, never touches the error of a
/// record, at whatever stage it is.
pub proof fn lemma_lookup_keeps_error(r: RecordView, found: Seq<Option<GeoView>>)
    ensures
        step(r, AnswerView::Located(found)).err == r.err,
        step(r, AnswerView::Located(found)).addrs == r.addrs,
        step(r, AnswerView::Located(found)).latency == r.latency,
{
}

/// Where a lookup failed or is missing, the location of a record that
/// waits for it stays empty.
pub proof fn lemma_failed_lookup_leaves_empty(r: RecordView, found: Seq<Option<GeoView>>)
    requires
        r.stage is Locate,
        !all_found(r.addrs.len(), found),
    ensures
        step(r, AnswerView::Located(found)).geo.len() == 0,
{
}

/// The same domain with the same answers gives the same record.
pub proof fn lemma_rerun_identical(
    domain: Seq<char>,
    answers: Seq<AnswerView>,
    again: Seq<AnswerView>,
)
    requires
        answers.len() == again.len(),
        forall|i: int| 0 <= i < answers.len() ==> answers[i] == again[i],
    ensures
        run(fresh(domain), answers) == run(fresh(domain), again),
{
    assert(answers =~= again);
}

/// The three services that an analysis needs, each taken as a function of
/// what it is asked: the resolver of the domain, the pinger and the
/// location database of the address.
pub struct Services {
    pub resolve: spec_fn(Seq<char>) -> Result<Seq<crate::address::Address>, Seq<char>>,
    pub probe: spec_fn(crate::address::Address) -> Result<nat, Seq<char>>,
    pub locate: spec_fn(crate::address::Address) -> Option<GeoView>,
}

/// What the location database finds of each address, in the addresses'
/// order.
pub open spec fn lookups(addrs: Seq<crate::address::Address>, services: Services) -> Seq<
    Option<GeoView>,
> {
    Seq::new(addrs.len(), |i: int| (services.locate)(addrs[i]))
}

/// What the services answer to what the record asks for.
pub open spec fn answer(r: RecordView, services: Services) -> AnswerView {
    match pending(r) {
        Request::Resolve => AnswerView::Resolved((services.resolve)(r.domain)),
        Request::Probe(first) => AnswerView::Probed((services.probe)(first)),
        _ => AnswerView::Located(lookups(r.addrs, services)),
    }
}

/// The record after it was served once: as it is where it asks for
/// nothing, else after the answer to what it asks for.
pub open spec fn served(r: RecordView, services: Services) -> RecordView {
    if pending(r) is Done {
        r
    } else {
        step(r, answer(r, services))
    }
}

/// What the services make of a domain: resolve, then measure the round
/// trip to the first address, then locate every address.
pub open spec fn pipeline(domain: Seq<char>, services: Services) -> RecordView {
    match (services.resolve)(domain) {
        Err(why) => RecordView { err: Some(why), stage: Stage::Done, ..fresh(domain) },
        Ok(addrs) => if addrs.len() == 0 {
            RecordView { stage: Stage::Done, ..fresh(domain) }
        } else {
            RecordView {
                domain,
                addrs,
                latency: match (services.probe)(addrs[0]) {
                    Ok(rtt) => rtt,
                    Err(_) => 0,
                },
                geo: geo_text(addrs.len(), lookups(addrs, services)),
                err: match (services.probe)(addrs[0]) {
                    Ok(_) => None,
                    Err(why) => Some(why),
                },
                stage: Stage::Done,
            }
        },
    }
}

/// A fresh record that is served three times is complete, and is what the
/// services make of its domain: each service is asked once at most, the
/// pinger of the first address alone, the location database of all.
pub proof fn lemma_served_is_pipeline(domain: Seq<char>, services: Services)
    ensures
        served(served(served(fresh(domain), services), services), services) == pipeline(
            domain,
            services,
        ),
        pending(pipeline(domain, services)) is Done,
        served(pipeline(domain, services), services) == pipeline(domain, services),
{
}

} // verus!
