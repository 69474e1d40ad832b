use har_analyzer::address::Address;
use har_analyzer::geo::{GeoRecord, Place};
use har_analyzer::record::{
    build_records, latency_of, Answer, Latency, PingReply, Record, Request, Stage,
};

fn names(pairs: &[(&str, &str)]) -> Vec<(String, String)> {
    pairs.iter().map(|(l, n)| (l.to_string(), n.to_string())).collect()
}

fn known(pairs: &[(&str, &str)]) -> Option<Place> {
    Some(Place { names: Some(names(pairs)) })
}

fn sweden() -> GeoRecord {
    GeoRecord { country: known(&[("en", "Sweden")]), city: known(&[("en", "Linköping")]) }
}

fn japan() -> GeoRecord {
    GeoRecord { country: known(&[("en", "Japan")]), city: None }
}

/// Does what the record asks for until it asks for nothing, with the three
/// services given as functions; hands out what the record asked for.
fn drive(
    record: &mut Record,
    resolve: &dyn Fn(&str) -> Result<Vec<Address>, String>,
    probe: &dyn Fn(Address) -> Result<Latency, String>,
    locate: &dyn Fn(&Address) -> Option<GeoRecord>,
) -> Vec<Request> {
    let mut asked = Vec::new();
    let mut request = record.pending();
    loop {
        asked.push(request);
        let answer = match request {
            Request::Resolve => Answer::Resolved(resolve(record.domain())),
            Request::Probe(address) => Answer::Probed(probe(address)),
            Request::Locate => Answer::Located(record.addrs().iter().map(locate).collect()),
            Request::Done => break,
        };
        request = record.advance(answer);
    }
    asked
}

fn resolver(domain: &str) -> Result<Vec<Address>, String> {
    match domain {
        "good.example" => Ok(vec![Address::V4([192, 0, 2, 1])]),
        "two.example" => {
            Ok(vec![Address::V4([192, 0, 2, 2]), Address::V6([0x2001, 0xdb8, 0, 0, 0, 0, 0, 2])])
        }
        "empty.example" => Ok(vec![]),
        other => Err(format!("no record found for {}", other)),
    }
}

fn pinger(address: Address) -> Result<Latency, String> {
    match address {
        Address::V4([192, 0, 2, 1]) => Ok(Latency { nanos: 12_345_678 }),
        Address::V4([192, 0, 2, 2]) => latency_of(PingReply::Idle),
        _ => Err("unreachable".to_string()),
    }
}

fn database(address: &Address) -> Option<GeoRecord> {
    match address {
        Address::V4([192, 0, 2, 1]) => Some(sweden()),
        Address::V4([192, 0, 2, 2]) => Some(japan()),
        Address::V6(_) => Some(sweden()),
        _ => None,
    }
}

fn analysed(domains: &[&str]) -> Vec<Record> {
    let mut records = build_records(domains.iter().map(|d| d.to_string()).collect());
    for record in records.iter_mut() {
        drive(record, &resolver, &pinger, &database);
    }
    records
}

#[test]
fn a_new_record_knows_its_domain_only() {
    let r = Record::new("a.example".to_string());
    assert_eq!(r.domain(), "a.example");
    assert!(r.addrs().is_empty());
    assert_eq!(r.latency(), Latency { nanos: 0 });
    assert_eq!(r.geo(), "");
    assert_eq!(r.err(), None);
    assert_eq!(r.stage(), Stage::Resolve);
    assert_eq!(r.pending(), Request::Resolve);
}

#[test]
fn records_come_one_per_domain_in_order() {
    let records = build_records(vec!["b".to_string(), "a".to_string(), "c".to_string()]);
    let domains: Vec<&str> = records.iter().map(|r| r.domain()).collect();
    assert_eq!(domains, vec!["b", "a", "c"]);
    for r in records.iter() {
        assert_eq!(r.stage(), Stage::Resolve);
        assert!(r.addrs().is_empty());
        assert_eq!(r.err(), None);
    }
}

#[test]
fn no_domains_no_records() {
    assert!(build_records(vec![]).is_empty());
}

#[test]
fn analysis_keeps_length_and_order() {
    let domains = ["two.example", "bad.invalid", "good.example", "empty.example", "bad.invalid"];
    let records = analysed(&domains);
    assert_eq!(records.len(), domains.len());
    for (record, domain) in records.iter().zip(domains.iter()) {
        assert_eq!(record.domain(), *domain);
        assert_eq!(record.stage(), Stage::Done);
    }
}

#[test]
fn one_good_and_one_bad_domain() {
    let records = analysed(&["good.example", "bad.invalid"]);
    assert_eq!(records.len(), 2);
    assert_eq!(records[0].domain(), "good.example");
    assert!(!records[0].addrs().is_empty());
    assert_eq!(records[0].err(), None);
    assert_eq!(records[1].domain(), "bad.invalid");
    assert!(records[1].addrs().is_empty());
    assert!(records[1].err().is_some());
}

#[test]
fn a_domain_that_does_not_resolve_is_done_at_once() {
    let mut r = Record::new("bad.invalid".to_string());
    let asked = drive(&mut r, &resolver, &pinger, &database);
    assert_eq!(asked, vec![Request::Resolve, Request::Done]);
    assert!(r.addrs().is_empty());
    assert_eq!(r.latency(), Latency { nanos: 0 });
    assert_eq!(r.geo(), "");
    assert_eq!(r.err(), Some("no record found for bad.invalid"));
    assert_eq!(r.stage(), Stage::Done);
}

#[test]
fn a_domain_without_addresses_is_done_without_error() {
    let mut r = Record::new("empty.example".to_string());
    let asked = drive(&mut r, &resolver, &pinger, &database);
    assert_eq!(asked, vec![Request::Resolve, Request::Done]);
    assert!(r.addrs().is_empty());
    assert_eq!(r.latency(), Latency { nanos: 0 });
    assert_eq!(r.geo(), "");
    assert_eq!(r.err(), None);
}

#[test]
fn a_domain_that_answers_is_filled_in() {
    let mut r = Record::new("good.example".to_string());
    let asked = drive(&mut r, &resolver, &pinger, &database);
    assert_eq!(
        asked,
        vec![
            Request::Resolve,
            Request::Probe(Address::V4([192, 0, 2, 1])),
            Request::Locate,
            Request::Done
        ]
    );
    assert_eq!(r.addrs(), &vec![Address::V4([192, 0, 2, 1])]);
    assert_eq!(r.latency(), Latency { nanos: 12_345_678 });
    assert!(r.latency().nanos > 0);
    assert_eq!(r.geo(), "Sweden / Linköping");
    assert_eq!(r.err(), None);
}

#[test]
fn a_probe_that_times_out_leaves_addresses_and_location() {
    let mut r = Record::new("two.example".to_string());
    let asked = drive(&mut r, &resolver, &pinger, &database);
    assert_eq!(
        asked,
        vec![
            Request::Resolve,
            Request::Probe(Address::V4([192, 0, 2, 2])),
            Request::Locate,
            Request::Done
        ]
    );
    assert_eq!(
        r.addrs(),
        &vec![Address::V4([192, 0, 2, 2]), Address::V6([0x2001, 0xdb8, 0, 0, 0, 0, 0, 2])]
    );
    assert_eq!(r.latency(), Latency { nanos: 0 });
    assert_eq!(r.err(), Some("idle"));
    assert_eq!(r.geo(), "Japan\nSweden / Linköping");
}

#[test]
fn only_the_first_address_is_probed() {
    let mut r = Record::new("x.example".to_string());
    let first = Address::V6([0xfe80, 0, 0, 0, 0, 0, 0, 1]);
    let second = Address::V4([192, 0, 2, 1]);
    let request = r.advance(Answer::Resolved(Ok(vec![first, second])));
    assert_eq!(request, Request::Probe(first));
    let request = r.advance(Answer::Probed(Ok(Latency { nanos: 5 })));
    assert_eq!(request, Request::Locate);
    assert_eq!(r.latency(), Latency { nanos: 5 });
}

#[test]
fn a_failed_lookup_is_no_error() {
    let mut r = Record::new("x.example".to_string());
    r.advance(Answer::Resolved(Ok(vec![Address::V4([192, 0, 2, 1]), Address::V4([10, 0, 0, 1])])));
    r.advance(Answer::Probed(Ok(Latency { nanos: 1_000 })));
    let request = r.advance(Answer::Located(vec![Some(sweden()), None]));
    assert_eq!(request, Request::Done);
    assert_eq!(r.geo(), "");
    assert_eq!(r.err(), None);
    assert_eq!(r.latency(), Latency { nanos: 1_000 });
    assert_eq!(r.addrs().len(), 2);
}

#[test]
fn a_failed_lookup_keeps_the_error_of_the_probe() {
    let mut r = Record::new("x.example".to_string());
    r.advance(Answer::Resolved(Ok(vec![Address::V4([10, 0, 0, 1])])));
    r.advance(Answer::Probed(Err("timed out".to_string())));
    r.advance(Answer::Located(vec![None]));
    assert_eq!(r.geo(), "");
    assert_eq!(r.err(), Some("timed out"));
    assert_eq!(r.latency(), Latency { nanos: 0 });
    assert_eq!(r.addrs(), &vec![Address::V4([10, 0, 0, 1])]);
}

#[test]
fn lookups_that_do_not_match_the_addresses_leave_the_location_empty() {
    let mut r = Record::new("x.example".to_string());
    r.advance(Answer::Resolved(Ok(vec![Address::V4([192, 0, 2, 1]), Address::V4([192, 0, 2, 2])])));
    r.advance(Answer::Probed(Ok(Latency { nanos: 1 })));
    r.advance(Answer::Located(vec![Some(sweden())]));
    assert_eq!(r.geo(), "");
    assert_eq!(r.err(), None);
    assert_eq!(r.stage(), Stage::Done);
}

#[test]
fn an_answer_that_was_not_asked_for_changes_nothing() {
    let mut r = Record::new("x.example".to_string());
    assert_eq!(r.advance(Answer::Probed(Ok(Latency { nanos: 9 }))), Request::Resolve);
    assert_eq!(r.advance(Answer::Located(vec![Some(sweden())])), Request::Resolve);
    assert_eq!(r.latency(), Latency { nanos: 0 });
    assert_eq!(r.geo(), "");
    assert_eq!(r.stage(), Stage::Resolve);

    let first = Address::V4([192, 0, 2, 1]);
    assert_eq!(r.advance(Answer::Resolved(Ok(vec![first]))), Request::Probe(first));
    assert_eq!(
        r.advance(Answer::Resolved(Ok(vec![Address::V4([1, 1, 1, 1])]))),
        Request::Probe(first)
    );
    assert_eq!(r.advance(Answer::Resolved(Err("late".to_string()))), Request::Probe(first));
    assert_eq!(r.advance(Answer::Located(vec![Some(sweden())])), Request::Probe(first));
    assert_eq!(r.addrs(), &vec![first]);
    assert_eq!(r.err(), None);
    assert_eq!(r.geo(), "");

    assert_eq!(r.advance(Answer::Probed(Ok(Latency { nanos: 7 }))), Request::Locate);
    assert_eq!(r.advance(Answer::Probed(Err("again".to_string()))), Request::Locate);
    assert_eq!(r.latency(), Latency { nanos: 7 });
    assert_eq!(r.err(), None);
}

#[test]
fn a_finished_record_takes_no_more_answers() {
    let mut r = Record::new("good.example".to_string());
    drive(&mut r, &resolver, &pinger, &database);
    assert_eq!(r.advance(Answer::Resolved(Err("late".to_string()))), Request::Done);
    assert_eq!(r.advance(Answer::Probed(Err("late".to_string()))), Request::Done);
    assert_eq!(r.advance(Answer::Located(vec![None])), Request::Done);
    assert_eq!(r.addrs(), &vec![Address::V4([192, 0, 2, 1])]);
    assert_eq!(r.latency(), Latency { nanos: 12_345_678 });
    assert_eq!(r.geo(), "Sweden / Linköping");
    assert_eq!(r.err(), None);
}

#[test]
fn a_round_trip_of_no_time_is_kept_as_measured() {
    let mut r = Record::new("x.example".to_string());
    r.advance(Answer::Resolved(Ok(vec![Address::V4([127, 0, 0, 1])])));
    r.advance(Answer::Probed(Ok(Latency { nanos: 0 })));
    r.advance(Answer::Located(vec![None]));
    assert_eq!(r.latency(), Latency { nanos: 0 });
    assert_eq!(r.err(), None);
}

#[test]
fn the_same_answers_give_the_same_records() {
    let domains = ["good.example", "bad.invalid", "two.example", "empty.example"];
    let once = analysed(&domains);
    let again = analysed(&domains);
    assert_eq!(once.len(), again.len());
    for (a, b) in once.iter().zip(again.iter()) {
        assert_eq!(a.domain(), b.domain());
        assert_eq!(a.addrs(), b.addrs());
        assert_eq!(a.latency(), b.latency());
        assert_eq!(a.geo(), b.geo());
        assert_eq!(a.err(), b.err());
        assert_eq!(a.stage(), b.stage());
        assert_eq!(a.to_tabled(), b.to_tabled());
    }
}

#[test]
fn one_domain_is_nothing_to_another() {
    let alone = analysed(&["good.example"]);
    let among = analysed(&["bad.invalid", "good.example", "two.example"]);
    assert_eq!(alone[0].to_tabled(), among[1].to_tabled());
    assert_eq!(among[1].err(), None);
}

#[test]
fn no_reply_in_time_is_an_error() {
    assert_eq!(latency_of(PingReply::Idle), Err("idle".to_string()));
}

#[test]
fn a_reply_gives_its_round_trip() {
    assert_eq!(
        latency_of(PingReply::Receive(Latency { nanos: 42 })),
        Ok(Latency { nanos: 42 })
    );
    assert_eq!(latency_of(PingReply::Receive(Latency { nanos: 0 })), Ok(Latency { nanos: 0 }));
}

#[test]
fn a_pinger_that_went_away_is_an_error_with_its_message() {
    assert_eq!(
        latency_of(PingReply::Closed("receiving on a closed channel".to_string())),
        Err("receiving on a closed channel".to_string())
    );
}
