//! From an HTTP archive to the list of domains it names: the request URLs
//! of its entries, the host of each, and the hosts in ascending order with
//! none twice.

use crate::order::{
    ascending, key, lemma_ascending_unique, lemma_key_injective, lemma_precedes_asymmetric,
    lemma_precedes_transitive, precedes, rank_of, Rank,
};
use vstd::prelude::*;
use vstd::string::*;

verus! {

/// The error of the `har` crate's readers; carried through as it is.
#[verifier::external_type_specification]
#[verifier::external_body]
pub struct ExArchiveError(har::Error);

/// The request URLs of the archive's entries in their order, where the bytes
/// decode as an archive: what `har::from_slice` finds in them.
pub uninterp spec fn archive_urls(bytes: Seq<u8>) -> Option<Seq<Seq<char>>>;

/// What `url::Url::parse` and `Url::host_str` say of a text: `None` where it
/// is no absolute URL, `Some(None)` where the URL has no host, else the host
/// as the URL spells it.
pub uninterp spec fn url_host(url: Seq<char>) -> Option<Option<Seq<char>>>;

/// What a request URL says of its host.
#[derive(Debug, PartialEq, Eq)]
pub enum UrlHost {
    /// The text is no absolute URL.
    Invalid,
    /// The URL has no host (`data:`, `mailto:` and the like).
    Absent,
    /// The host, as the URL spells it.
    Named(String),
}

impl View for UrlHost {
    type V = Option<Option<Seq<char>>>;

    open spec fn view(&self) -> Option<Option<Seq<char>>> {
        match self {
            UrlHost::Invalid => None,
            UrlHost::Absent => Some(None),
            UrlHost::Named(name) => Some(Some(name@)),
        }
    }
}

impl DeepView for UrlHost {
    type V = Option<Option<Seq<char>>>;

    open spec fn deep_view(&self) -> Option<Option<Seq<char>>> {
        self.view()
    }
}

/// Why no list of domains came out.
#[derive(Debug)]
pub enum DomainError {
    /// The bytes are no archive.
    Archive(har::Error),
    /// The URL at this place in the archive has no host.
    NoHost(usize),
}

/// The host of each URL, place by place.
pub open spec fn hosts_of(urls: Seq<Seq<char>>) -> Seq<Option<Option<Seq<char>>>> {
    Seq::new(urls.len(), |i: int| url_host(urls[i]))
}

/// `at` is the first place in `hosts` that holds a URL without host.
pub open spec fn first_absent(hosts: Seq<Option<Option<Seq<char>>>>, at: int) -> bool {
    &&& 0 <= at < hosts.len()
    &&& hosts[at] == Some(None::<Seq<char>>)
    &&& forall|j: int| 0 <= j < at ==> hosts[j] != Some(None::<Seq<char>>)
}

/// `list` is the list of domains of `hosts`: every URL has a host, `list`
/// ascends, and it holds exactly the hosts that are named.
pub open spec fn lists(hosts: Seq<Option<Option<Seq<char>>>>, list: Seq<Seq<char>>) -> bool {
    &&& forall|j: int| 0 <= j < hosts.len() ==> hosts[j] != Some(None::<Seq<char>>)
    &&& ascending(list)
    &&& forall|name: Seq<char>| list.contains(name) <==> hosts.contains(Some(Some(name)))
}

/// `outcome` is what `hosts` come to: their list of domains, or the first
/// place of a URL without host.
pub open spec fn listing(
    hosts: Seq<Option<Option<Seq<char>>>>,
    outcome: Result<Seq<Seq<char>>, int>,
) -> bool {
    match outcome {
        Ok(list) => lists(hosts, list),
        Err(at) => first_absent(hosts, at),
    }
}

/// The model of what [`domain_list`] and [`get_domains`] return.
pub open spec fn outcome_of(r: Result<Vec<String>, DomainError>) -> Option<
    Result<Seq<Seq<char>>, int>,
> {
    match r {
        Ok(list) => Some(Ok(list.deep_view())),
        Err(DomainError::NoHost(at)) => Some(Err(at as int)),
        Err(DomainError::Archive(_)) => None,
    }
}

/// Hosts come to one thing only: two outcomes of the same hosts are the
/// same outcome.
pub proof fn lemma_listing_unique(
    hosts: Seq<Option<Option<Seq<char>>>>,
    one: Result<Seq<Seq<char>>, int>,
    other: Result<Seq<Seq<char>>, int>,
)
    requires
        listing(hosts, one),
        listing(hosts, other),
    ensures
        one == other,
{
    match (one, other) {
        (Ok(a), Ok(b)) => {
            lemma_ascending_unique(a, b);
        },
        (Err(i), Err(j)) => {},
        (Ok(_), Err(j)) => {},
        (Err(i), Ok(_)) => {},
    }
}

/// The order in which the hosts stand, and how often each stands there, is
/// nothing to their list.
pub proof fn lemma_list_of_members(
    hosts: Seq<Option<Option<Seq<char>>>>,
    others: Seq<Option<Option<Seq<char>>>>,
    list: Seq<Seq<char>>,
    other_list: Seq<Seq<char>>,
)
    requires
        lists(hosts, list),
        lists(others, other_list),
        forall|name: Seq<char>|
            hosts.contains(Some(Some(name))) <==> others.contains(Some(Some(name))),
    ensures
        list == other_list,
{
    lemma_ascending_unique(list, other_list);
}

/// Decodes an archive with `har::from_slice` and hands out the request URL
/// of each entry, in the archive's order; the crate's error where the bytes
/// are no archive of version 1.2 or 1.3.
#[verifier::external_body]
fn request_urls(bytes: &[u8]) -> (r: Result<Vec<String>, har::Error>)
    ensures
        match r {
            Ok(urls) => archive_urls(bytes@) == Some(urls.deep_view()),
            Err(_) => archive_urls(bytes@) is None,
        },
{
    let urls: Vec<String> = match har::from_slice(bytes)?.log {
        har::Spec::V1_2(log) => log.entries.into_iter().map(|e| e.request.url).collect(),
        har::Spec::V1_3(log) => log.entries.into_iter().map(|e| e.request.url).collect(),
    };
    Ok(urls)
}

/// Parses a text with `url::Url::parse` and reads the host with
/// `Url::host_str`: whether it is a URL, whether that URL has a host, and
/// the host as the parsed URL spells it.
#[verifier::external_body]
fn host_of(url: &str) -> (host: UrlHost)
    ensures
        host@ == url_host(url@),
{
    match url::Url::parse(url) {
        Ok(parsed) => match parsed.host_str() {
            Some(name) => UrlHost::Named(name.to_string()),
            None => UrlHost::Absent,
        },
        Err(_) => UrlHost::Invalid,
    }
}

/// The host of each URL, place by place.
pub fn url_hosts(urls: &Vec<String>) -> (hosts: Vec<UrlHost>)
    ensures
        hosts.deep_view() == hosts_of(urls.deep_view()),
{
    let mut hosts: Vec<UrlHost> = Vec::new();
    let mut i: usize = 0;
    while i < urls.len()
        invariant
            i <= urls.len(),
            hosts.len() == i,
            forall|j: int| 0 <= j < i ==> (#[trigger] hosts[j])@ == url_host(urls[j]@),
        decreases urls.len() - i,
    {
        hosts.push(host_of(urls[i].as_str()));
        i += 1;
    }
    assert(hosts.deep_view() =~= hosts_of(urls.deep_view()));
    hosts
}

/// The place in the ascending `list` before which all names precede `name`
/// and from which on none does.
fn lower_bound(list: &Vec<String>, name: &str) -> (at: usize)
    requires
        ascending(list.deep_view()),
    ensures
        at <= list.len(),
        forall|j: int| 0 <= j < at ==> precedes(key(#[trigger] list[j]@), key(name@)),
        forall|j: int| at <= j < list.len() ==> !precedes(key(#[trigger] list[j]@), key(name@)),
{
    let ghost names: Seq<Seq<char>> = list.deep_view();
    let mut lo: usize = 0;
    let mut hi: usize = list.len();
    while lo < hi
        invariant
            lo <= hi <= list.len(),
            names == list.deep_view(),
            ascending(names),
            forall|j: int| 0 <= j < lo ==> precedes(key(#[trigger] list[j]@), key(name@)),
            forall|j: int| hi <= j < list.len() ==> !precedes(key(#[trigger] list[j]@), key(name@)),
        decreases hi - lo,
    {
        let mid: usize = lo + (hi - lo) / 2;
        let r: Rank = rank_of(list[mid].as_str().as_bytes(), name.as_bytes());
        match r {
            Rank::Before => {
                proof {
                    assert forall|j: int| 0 <= j < mid + 1 implies precedes(
                        key(#[trigger] list[j]@),
                        key(name@),
                    ) by {
                        if j < mid {
                            assert(precedes(key(names[j]), key(names[mid as int])));
                            lemma_precedes_transitive(
                                key(list[j]@),
                                key(list[mid as int]@),
                                key(name@),
                            );
                        }
                    }
                }
                lo = mid + 1;
            },
            _ => {
                proof {
                    assert forall|j: int| mid <= j < list.len() implies !precedes(
                        key(#[trigger] list[j]@),
                        key(name@),
                    ) by {
                        if j > mid && precedes(key(list[j]@), key(name@)) {
                            assert(precedes(key(names[mid as int]), key(names[j])));
                            lemma_precedes_transitive(
                                key(list[mid as int]@),
                                key(list[j]@),
                                key(name@),
                            );
                        }
                    }
                }
                hi = mid;
            },
        }
    }
    lo
}

/// Puts `name` into the ascending `list`, unless it is there already.
fn insert_name(list: &mut Vec<String>, name: &str)
    requires
        ascending(old(list).deep_view()),
    ensures
        ascending(final(list).deep_view()),
        forall|other: Seq<char>|
            final(list).deep_view().contains(other) <==> (old(list).deep_view().contains(other)
                || other == name@),
{
    let ghost before: Seq<Seq<char>> = list.deep_view();
    let at: usize = lower_bound(list, name);
    let mut held: bool = false;
    if at < list.len() {
        let r: Rank = rank_of(list[at].as_str().as_bytes(), name.as_bytes());
        match r {
            Rank::Same => {
                held = true;
                proof {
                    lemma_key_injective(list[at as int]@, name@);
                    assert(before[at as int] == name@);
                }
            },
            _ => {},
        }
    }
    if !held {
        list.insert(at, String::from_str(name));
        proof {
            let after: Seq<Seq<char>> = list.deep_view();
            assert(after =~= before.insert(at as int, name@));
            assert forall|i: int, j: int| 0 <= i < j < after.len() implies precedes(
                key(#[trigger] after[i]),
                key(#[trigger] after[j]),
            ) by {
                if j < at {
                    assert(after[i] == before[i] && after[j] == before[j]);
                } else if j == at {
                    assert(after[i] == before[i]);
                } else if i == at {
                    assert(after[j] == before[j - 1]);
                    assert(precedes(key(name@), key(before[at as int])));
                    if j - 1 > at {
                        assert(precedes(key(before[at as int]), key(before[j - 1])));
                        lemma_precedes_transitive(
                            key(name@),
                            key(before[at as int]),
                            key(before[j - 1]),
                        );
                    }
                } else if i < at {
                    assert(after[i] == before[i] && after[j] == before[j - 1]);
                } else {
                    assert(after[i] == before[i - 1] && after[j] == before[j - 1]);
                }
            }
            assert forall|other: Seq<char>| after.contains(other) <==> (before.contains(other)
                || other == name@) by {
                if after.contains(other) {
                    let i = choose|i: int| 0 <= i < after.len() && after[i] == other;
                    if i < at {
                        assert(before[i] == other);
                    } else if i > at {
                        assert(before[i - 1] == other);
                    }
                }
                if before.contains(other) {
                    let i = choose|i: int| 0 <= i < before.len() && before[i] == other;
                    if i < at {
                        assert(after[i] == other);
                    } else {
                        assert(after[i + 1] == other);
                    }
                }
                if other == name@ {
                    assert(after[at as int] == other);
                }
            }
        }
    }
}

/// The list of domains of `hosts`: the named hosts in ascending order, each
/// once; texts that are no URL count for nothing. A URL without host has no
/// domain: the first such place is the error.
pub fn domain_list(hosts: &Vec<UrlHost>) -> (r: Result<Vec<String>, DomainError>)
    ensures
        outcome_of(r) matches Some(outcome) && listing(hosts.deep_view(), outcome),
{
    let ghost all: Seq<Option<Option<Seq<char>>>> = hosts.deep_view();
    let mut list: Vec<String> = Vec::new();
    let mut i: usize = 0;
    while i < hosts.len()
        invariant
            i <= hosts.len(),
            all == hosts.deep_view(),
            forall|j: int| 0 <= j < i ==> all[j] != Some(None::<Seq<char>>),
            ascending(list.deep_view()),
            forall|name: Seq<char>|
                list.deep_view().contains(name) <==> all.take(i as int).contains(Some(Some(name))),
        decreases hosts.len() - i,
    {
        let ghost seen: Seq<Seq<char>> = list.deep_view();
        assert(all[i as int] == hosts[i as int]@);
        match &hosts[i] {
            UrlHost::Invalid => {},
            UrlHost::Absent => {
                return Err(DomainError::NoHost(i));
            },
            UrlHost::Named(name) => {
                insert_name(&mut list, name.as_str());
            },
        }
        proof {
            let upto = all.take(i + 1);
            assert(upto.drop_last() =~= all.take(i as int));
            assert forall|name: Seq<char>|
                list.deep_view().contains(name) <==> upto.contains(Some(Some(name))) by {
                if upto.contains(Some(Some(name))) {
                    let j = choose|j: int| 0 <= j < upto.len() && upto[j] == Some(Some(name));
                    if j < i {
                        assert(all.take(i as int)[j] == Some(Some(name)));
                    }
                }
                if seen.contains(name) {
                    let j = choose|j: int|
                        0 <= j < i && all.take(i as int)[j] == Some(Some(name));
                    assert(upto[j] == Some(Some(name)));
                }
                if all[i as int] == Some(Some(name)) {
                    assert(upto[i as int] == Some(Some(name)));
                }
            }
        }
        i += 1;
    }
    proof {
        assert(all.take(hosts.len() as int) =~= all);
    }
    Ok(list)
}

/// The list of domains of an archive, given as the bytes of its file.
pub fn get_domains(archive: &[u8]) -> (r: Result<Vec<String>, DomainError>)
    ensures
        match archive_urls(archive@) {
            Some(urls) => outcome_of(r) matches Some(outcome) && listing(hosts_of(urls), outcome),
            None => r matches Err(DomainError::Archive(_)),
        },
{
    match request_urls(archive) {
        Ok(urls) => {
            let hosts: Vec<UrlHost> = url_hosts(&urls);
            domain_list(&hosts)
        },
        Err(e) => Err(DomainError::Archive(e)),
    }
}

} // verus!
