//! The report on one domain and the steps that fill it in.
//!
//! A record asks for three things in turn: the addresses of its domain,
//! the round trip to the first of them, and where the addresses lie. Who
//! runs the analysis does what the record asks for and hands back what
//! came of it. A domain that does not resolve is done at once, with the
//! failure as its error. A round trip that fails is the record's error
//! too, but the addresses are still located. A lookup that fails leaves the
//! location empty and is no error.

use crate::address::Address;
use crate::geo::{found_view, geo_text, geo_text_of, GeoRecord, GeoView};
use vstd::prelude::*;
use vstd::string::StringExecFns;

verus! {

/// A span of time in nanoseconds.
#[derive(Clone, Copy, Debug, PartialEq, Eq)]
pub struct Latency {
    pub nanos: u128,
}

/// What a record waits for.
#[derive(Clone, Copy, Debug, PartialEq, Eq)]
pub enum Stage {
    /// The addresses of the domain.
    Resolve,
    /// The round trip to the first address.
    Probe,
    /// The places of the addresses.
    Locate,
    /// Nothing any more.
    Done,
}

/// What a record asks of who runs the analysis.
#[derive(Clone, Copy, Debug, PartialEq, Eq)]
pub enum Request {
    /// Resolve the record's domain.
    Resolve,
    /// Measure the round trip to this address.
    Probe(Address),
    /// Look up each of the record's addresses.
    Locate,
    /// Nothing: the record is complete.
    Done,
}

/// What came of a request.
#[derive(Debug, PartialEq, Eq)]
pub enum Answer {
    /// The addresses of the domain in the resolver's order, or why there
    /// are none.
    Resolved(Result<Vec<Address>, String>),
    /// The round trip, or why it was not measured.
    Probed(Result<Latency, String>),
    /// What the lookup of each address found, in the addresses' order;
    /// `None` for a lookup that failed.
    Located(Vec<Option<GeoRecord>>),
}

/// What came back from one ping.
#[derive(Debug, PartialEq, Eq)]
pub enum PingReply {
    /// No reply in time.
    Idle,
    /// A reply after this round trip.
    Receive(Latency),
    /// The pinger went away; its message.
    Closed(String),
}

/// The report on one domain.
#[derive(Debug)]
pub struct Record {
    domain: String,
    addrs: Vec<Address>,
    latency: Latency,
    geo: String,
    err: Option<String>,
    stage: Stage,
}

/// The model of a [`Record`].
pub struct RecordView {
    pub domain: Seq<char>,
    pub addrs: Seq<Address>,
    pub latency: nat,
    pub geo: Seq<char>,
    pub err: Option<Seq<char>>,
    pub stage: Stage,
}

/// The model of an [`Answer`].
pub enum AnswerView {
    Resolved(Result<Seq<Address>, Seq<char>>),
    Probed(Result<nat, Seq<char>>),
    Located(Seq<Option<GeoView>>),
}

impl View for Answer {
    type V = AnswerView;

    open spec fn view(&self) -> AnswerView {
        match self {
            Answer::Resolved(Ok(addrs)) => AnswerView::Resolved(Ok(addrs@)),
            Answer::Resolved(Err(why)) => AnswerView::Resolved(Err(why@)),
            Answer::Probed(Ok(rtt)) => AnswerView::Probed(Ok(rtt.nanos as nat)),
            Answer::Probed(Err(why)) => AnswerView::Probed(Err(why@)),
            Answer::Located(found) => AnswerView::Located(found_view(found@)),
        }
    }
}

/// The record of a domain of which nothing is known yet.
pub open spec fn fresh(domain: Seq<char>) -> RecordView {
    RecordView {
        domain,
        addrs: Seq::empty(),
        latency: 0,
        geo: Seq::empty(),
        err: None,
        stage: Stage::Resolve,
    }
}

/// The record after an answer. An answer to something that the record does
/// not wait for changes nothing.
pub open spec fn step(r: RecordView, answer: AnswerView) -> RecordView {
    match (r.stage, answer) {
        (Stage::Resolve, AnswerView::Resolved(Err(why))) => RecordView {
            err: Some(why),
            stage: Stage::Done,
            ..r
        },
        (Stage::Resolve, AnswerView::Resolved(Ok(addrs))) => if addrs.len() == 0 {
            RecordView { stage: Stage::Done, ..r }
        } else {
            RecordView { addrs, stage: Stage::Probe, ..r }
        },
        (Stage::Probe, AnswerView::Probed(Ok(rtt))) => RecordView {
            latency: rtt,
            stage: Stage::Locate,
            ..r
        },
        (Stage::Probe, AnswerView::Probed(Err(why))) => RecordView {
            err: Some(why),
            stage: Stage::Locate,
            ..r
        },
        (Stage::Locate, AnswerView::Located(found)) => RecordView {
            geo: geo_text(r.addrs.len(), found),
            stage: Stage::Done,
            ..r
        },
        _ => r,
    }
}

/// The record after a row of answers, taken in their order.
pub open spec fn run(r: RecordView, answers: Seq<AnswerView>) -> RecordView
    decreases answers.len(),
{
    if answers.len() == 0 {
        r
    } else {
        step(run(r, answers.drop_last()), answers.last())
    }
}

/// What the record asks for.
pub open spec fn pending(r: RecordView) -> Request {
    match r.stage {
        Stage::Resolve => Request::Resolve,
        Stage::Probe => if r.addrs.len() > 0 {
            Request::Probe(r.addrs[0])
        } else {
            Request::Done
        },
        Stage::Locate => Request::Locate,
        Stage::Done => Request::Done,
    }
}

/// What holds of every record: it has addresses while it waits for a round
/// trip or for places; without addresses it has neither latency nor
/// location; with an error it has no latency; and it has a latency or an
/// error only once the round trip was asked for, a location only at the
/// end.
pub open spec fn consistent(r: RecordView) -> bool {
    &&& r.stage is Resolve ==> r.addrs.len() == 0 && r.err is None
    &&& r.stage is Probe ==> r.latency == 0 && r.err is None
    &&& r.stage is Probe || r.stage is Locate ==> r.addrs.len() > 0
    &&& r.stage !is Done ==> r.geo.len() == 0
    &&& r.addrs.len() == 0 ==> r.latency == 0 && r.geo.len() == 0
    &&& r.err is Some ==> r.latency == 0
}

/// What one ping comes to: the round trip, or why there is none.
pub open spec fn reply_outcome(reply: PingReply) -> Result<nat, Seq<char>> {
    match reply {
        PingReply::Idle => Err(seq!['i', 'd', 'l', 'e']),
        PingReply::Receive(rtt) => Ok(rtt.nanos as nat),
        PingReply::Closed(why) => Err(why@),
    }
}

/// The model of what [`latency_of`] returns.
pub open spec fn outcome_view(outcome: Result<Latency, String>) -> Result<nat, Seq<char>> {
    match outcome {
        Ok(rtt) => Ok(rtt.nanos as nat),
        Err(why) => Err(why@),
    }
}

/// The model of a list of records.
pub open spec fn record_views(records: Seq<Record>) -> Seq<RecordView> {
    Seq::new(records.len(), |i: int| records[i]@)
}

/// A fresh record for each domain, in the domains' order.
pub open spec fn fresh_all(domains: Seq<Seq<char>>) -> Seq<RecordView> {
    Seq::new(domains.len(), |i: int| fresh(domains[i]))
}

impl View for Record {
    type V = RecordView;

    closed spec fn view(&self) -> RecordView {
        RecordView {
            domain: self.domain@,
            addrs: self.addrs@,
            latency: self.latency.nanos as nat,
            geo: self.geo@,
            err: match self.err {
                Some(why) => Some(why@),
                None => None,
            },
            stage: self.stage,
        }
    }
}

impl Record {
    #[verifier::type_invariant]
    spec fn well_formed(&self) -> bool {
        consistent(self@)
    }

    /// The record of a domain of which nothing is known yet.
    pub fn new(domain: String) -> (r: Record)
        ensures
            r@ == fresh(domain@),
            consistent(r@),
    {
        Record {
            domain,
            addrs: Vec::new(),
            latency: Latency { nanos: 0 },
            geo: String::new(),
            err: None,
            stage: Stage::Resolve,
        }
    }

    /// The domain that the record is about.
    pub fn domain(&self) -> (domain: &str)
        ensures
            domain@ == self@.domain,
    {
        self.domain.as_str()
    }

    /// The addresses of the domain, in the resolver's order.
    pub fn addrs(&self) -> (addrs: &Vec<Address>)
        ensures
            addrs@ == self@.addrs,
    {
        &self.addrs
    }

    /// The round trip to the first address; zero where none was measured.
    pub fn latency(&self) -> (latency: Latency)
        ensures
            latency.nanos == self@.latency,
    {
        self.latency
    }

    /// Where the addresses lie: a line for each, or nothing.
    pub fn geo(&self) -> (geo: &str)
        ensures
            geo@ == self@.geo,
    {
        self.geo.as_str()
    }

    /// Why the domain has no addresses or no latency, if so.
    pub fn err(&self) -> (err: Option<&str>)
        ensures
            match err {
                Some(why) => self@.err == Some(why@),
                None => self@.err is None,
            },
    {
        match &self.err {
            Some(why) => Some(why.as_str()),
            None => None,
        }
    }

    /// What the record waits for.
    pub fn stage(&self) -> (stage: Stage)
        ensures
            stage == self@.stage,
    {
        self.stage
    }

    /// What the record asks for.
    pub fn pending(&self) -> (request: Request)
        ensures
            request == pending(self@),
            consistent(self@),
    {
        proof {
            use_type_invariant(self);
        }
        match self.stage {
            Stage::Resolve => Request::Resolve,
            Stage::Probe => Request::Probe(self.addrs[0]),
            Stage::Locate => Request::Locate,
            Stage::Done => Request::Done,
        }
    }

    /// The record after an answer.
    fn stepped(self, answer: Answer) -> (next: Record)
        ensures
            next@ == step(self@, answer@),
    {
        proof {
            use_type_invariant(&self);
        }
        let Record { domain, addrs, latency, geo, err, stage } = self;
        match (stage, answer) {
            (Stage::Resolve, Answer::Resolved(Err(why))) => Record {
                domain,
                addrs,
                latency,
                geo,
                err: Some(why),
                stage: Stage::Done,
            },
            (Stage::Resolve, Answer::Resolved(Ok(found))) => {
                if found.len() == 0 {
                    Record { domain, addrs, latency, geo, err, stage: Stage::Done }
                } else {
                    Record { domain, addrs: found, latency, geo, err, stage: Stage::Probe }
                }
            },
            (Stage::Probe, Answer::Probed(Ok(rtt))) => Record {
                domain,
                addrs,
                latency: rtt,
                geo,
                err,
                stage: Stage::Locate,
            },
            (Stage::Probe, Answer::Probed(Err(why))) => Record {
                domain,
                addrs,
                latency,
                geo,
                err: Some(why),
                stage: Stage::Locate,
            },
            (Stage::Locate, Answer::Located(found)) => {
                let text: String = geo_text_of(addrs.len(), &found);
                Record { domain, addrs, latency, geo: text, err, stage: Stage::Done }
            },
            (stage, _) => Record { domain, addrs, latency, geo, err, stage },
        }
    }

    /// Takes in what came of the last request and says what to do next.
    pub fn advance(&mut self, answer: Answer) -> (request: Request)
        ensures
            final(self)@ == step(old(self)@, answer@),
            request == pending(final(self)@),
            consistent(final(self)@),
    {
        let mut taken: Record = Record::new(String::new());
        core::mem::swap(self, &mut taken);
        let next: Record = taken.stepped(answer);
        *self = next;
        self.pending()
    }
}

/// What one ping comes to: the round trip, or why there is none.
pub fn latency_of(reply: PingReply) -> (outcome: Result<Latency, String>)
    ensures
        outcome_view(outcome) == reply_outcome(reply),
{
    proof {
        reveal_strlit("idle");
    }
    match reply {
        PingReply::Idle => {
            let why: String = String::from_str("idle");
            assert(why@ =~= seq!['i', 'd', 'l', 'e']);
            Err(why)
        },
        PingReply::Receive(rtt) => Ok(rtt),
        PingReply::Closed(why) => Err(why),
    }
}

/// A fresh record for each domain, in the domains' order.
pub fn build_records(domains: Vec<String>) -> (records: Vec<Record>)
    ensures
        record_views(records@) == fresh_all(domains.deep_view()),
{
    let ghost all: Seq<Seq<char>> = domains.deep_view();
    let mut records: Vec<Record> = Vec::new();
    let mut i: usize = 0;
    while i < domains.len()
        invariant
            i <= domains.len(),
            all == domains.deep_view(),
            records.len() == i,
            forall|j: int| 0 <= j < i ==> (#[trigger] records[j])@ == fresh(all[j]),
        decreases domains.len() - i,
    {
        records.push(Record::new(domains[i].clone()));
        i += 1;
    }
    assert(record_views(records@) =~= fresh_all(all));
    records
}

} // verus!
