//! A record as a row of texts, ready for a table.

use crate::address::{address_texts, Address};
use crate::geo::line_separator;
use crate::record::{Record, RecordView};
use crate::text::{decimal, decimal_text, join, join_text};
use vstd::prelude::*;
use vstd::std_specs::convert::FromSpecImpl;
use vstd::string::StringExecFns;

verus! {

/// One row of the report: every cell a text.
#[derive(Debug, PartialEq, Eq)]
pub struct TabledRecord {
    pub domain: String,
    pub addrs: String,
    pub latency: String,
    pub geo: String,
    pub err: String,
}

/// The model of a [`TabledRecord`].
pub struct TabledView {
    pub domain: Seq<char>,
    pub addrs: Seq<char>,
    pub latency: Seq<char>,
    pub geo: Seq<char>,
    pub err: Seq<char>,
}

impl View for TabledRecord {
    type V = TabledView;

    open spec fn view(&self) -> TabledView {
        TabledView {
            domain: self.domain@,
            addrs: self.addrs@,
            latency: self.latency@,
            geo: self.geo@,
            err: self.err@,
        }
    }
}

/// How many nanoseconds make a millisecond.
pub const NANOS_PER_MILLI: u128 = 1_000_000;

/// The unit behind the latency.
pub open spec fn unit() -> Seq<char> {
    seq!['m', 's']
}

/// The row of a record: the addresses one to a line, the latency in whole
/// milliseconds, and an empty cell where there is no error.
pub open spec fn tabled(r: RecordView) -> TabledView {
    TabledView {
        domain: r.domain,
        addrs: join(address_texts(r.addrs), line_separator()),
        latency: decimal(r.latency / (NANOS_PER_MILLI as nat)) + unit(),
        geo: r.geo,
        err: match r.err {
            Some(why) => why,
            None => Seq::empty(),
        },
    }
}

/// Writes each address.
fn texts_of(addrs: &Vec<Address>) -> (texts: Vec<String>)
    ensures
        texts.deep_view() == address_texts(addrs@),
{
    let mut texts: Vec<String> = Vec::new();
    let mut i: usize = 0;
    while i < addrs.len()
        invariant
            i <= addrs.len(),
            texts.len() == i,
            forall|j: int| 0 <= j < i ==> (#[trigger] texts[j])@ == address_texts(addrs@)[j],
        decreases addrs.len() - i,
    {
        texts.push(addrs[i].text());
        i += 1;
    }
    assert(texts.deep_view() =~= address_texts(addrs@));
    texts
}

impl From<&Record> for TabledRecord {
    /// The row of a record.
    fn from(r: &Record) -> (row: TabledRecord)
        ensures
            row@ == tabled(r@),
    {
        proof {
            reveal_strlit("\n");
            reveal_strlit("ms");
        }
        let texts: Vec<String> = texts_of(r.addrs());
        assert("\n"@ =~= line_separator());
        let addrs: String = join_text(&texts, "\n");
        let mut latency: String = decimal_text(r.latency().nanos / NANOS_PER_MILLI);
        latency.append("ms");
        assert(latency@ =~= decimal(r@.latency / (NANOS_PER_MILLI as nat)) + unit());
        let err: String = match r.err() {
            Some(why) => String::from_str(why),
            None => String::new(),
        };
        TabledRecord {
            domain: String::from_str(r.domain()),
            addrs,
            latency,
            geo: String::from_str(r.geo()),
            err,
        }
    }
}

/// A row is known by its texts, not as one value: what `from` returns is
/// said by its own `ensures`, over the views.
impl FromSpecImpl<&Record> for TabledRecord {
    open spec fn obeys_from_spec() -> bool {
        false
    }

    open spec fn from_spec(r: &Record) -> TabledRecord {
        arbitrary()
    }
}

impl Record {
    /// The row of this record.
    pub fn to_tabled(&self) -> (row: TabledRecord)
        ensures
            row@ == tabled(self@),
    {
        TabledRecord::from(self)
    }
}

} // verus!
