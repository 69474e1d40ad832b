//! Where addresses lie: from what a location database holds of each
//! address to the text that a report shows.

use crate::text::{join, join_text};
use vstd::prelude::*;
use vstd::string::StringExecFns;

verus! {

/// A country or a city as a location database knows it: its names, each a
/// pair of a language and the name in that language, if it has names at
/// all.
#[derive(Debug, PartialEq, Eq)]
pub struct Place {
    pub names: Option<Vec<(String, String)>>,
}

/// What a location database holds of one address: its country and its
/// city, as far as it knows them.
#[derive(Debug, PartialEq, Eq)]
pub struct GeoRecord {
    pub country: Option<Place>,
    pub city: Option<Place>,
}

/// The model of a [`Place`].
pub struct PlaceView {
    pub names: Option<Seq<(Seq<char>, Seq<char>)>>,
}

/// The model of a [`GeoRecord`].
pub struct GeoView {
    pub country: Option<PlaceView>,
    pub city: Option<PlaceView>,
}

impl View for Place {
    type V = PlaceView;

    open spec fn view(&self) -> PlaceView {
        PlaceView { names: self.names.deep_view() }
    }
}

impl DeepView for Place {
    type V = PlaceView;

    open spec fn deep_view(&self) -> PlaceView {
        self.view()
    }
}

impl View for GeoRecord {
    type V = GeoView;

    open spec fn view(&self) -> GeoView {
        GeoView { country: self.country.deep_view(), city: self.city.deep_view() }
    }
}

impl DeepView for GeoRecord {
    type V = GeoView;

    open spec fn deep_view(&self) -> GeoView {
        self.view()
    }
}

/// The language whose names a report shows.
pub open spec fn shown_language() -> Seq<char> {
    seq!['e', 'n']
}

/// The separator between country and city.
pub open spec fn place_separator() -> Seq<char> {
    seq![' ', '/', ' ']
}

/// The separator between the lines of two addresses.
pub open spec fn line_separator() -> Seq<char> {
    seq!['\n']
}

/// The English name among `names`: the first that is marked so, and
/// nothing where none is.
pub open spec fn english(names: Seq<(Seq<char>, Seq<char>)>) -> Seq<char>
    decreases names.len(),
{
    if names.len() == 0 {
        Seq::empty()
    } else if names[0].0 == shown_language() {
        names[0].1
    } else {
        english(names.skip(1))
    }
}

/// The name that a report shows for a place: its English name, and nothing
/// where it has none.
pub open spec fn shown_name(place: PlaceView) -> Seq<char> {
    match place.names {
        Some(names) => english(names),
        None => Seq::empty(),
    }
}

/// The line of one address: country and city with a separator between
/// them; one of them alone where the other is unknown or is shown by the
/// same name.
pub open spec fn geo_line(g: GeoView) -> Seq<char> {
    match (g.country, g.city) {
        (None, None) => Seq::empty(),
        (Some(country), None) => shown_name(country),
        (None, Some(city)) => shown_name(city),
        (Some(country), Some(city)) => if shown_name(country) == shown_name(city) {
            shown_name(country)
        } else {
            shown_name(country) + place_separator() + shown_name(city)
        },
    }
}

/// Every address was looked up and found.
pub open spec fn all_found(wanted: nat, found: Seq<Option<GeoView>>) -> bool {
    &&& found.len() == wanted
    &&& forall|i: int| 0 <= i < found.len() ==> (#[trigger] found[i]) is Some
}

/// The lines of the addresses, in their order.
pub open spec fn geo_lines(found: Seq<Option<GeoView>>) -> Seq<Seq<char>> {
    Seq::new(found.len(), |i: int| geo_line(found[i].unwrap()))
}

/// The text for a domain with `wanted` addresses: a line for each address,
/// or nothing at all where a lookup failed or is missing.
pub open spec fn geo_text(wanted: nat, found: Seq<Option<GeoView>>) -> Seq<char> {
    if all_found(wanted, found) {
        join(geo_lines(found), line_separator())
    } else {
        Seq::empty()
    }
}

/// The model of a list of lookups.
pub open spec fn found_view(found: Seq<Option<GeoRecord>>) -> Seq<Option<GeoView>> {
    Seq::new(
        found.len(),
        |i: int|
            match found[i] {
                Some(g) => Some(g@),
                None => None,
            },
    )
}

/// The English name among `names`.
pub fn english_name(names: &Vec<(String, String)>) -> (name: String)
    ensures
        name@ == english(names.deep_view()),
{
    proof {
        reveal_strlit("en");
    }
    let language: String = String::from_str("en");
    assert(language@ =~= shown_language());
    let ghost all: Seq<(Seq<char>, Seq<char>)> = names.deep_view();
    let mut i: usize = 0;
    assert(all.skip(0) =~= all);
    while i < names.len()
        invariant
            i <= names.len(),
            all == names.deep_view(),
            language@ == shown_language(),
            english(all) == english(all.skip(i as int)),
        decreases names.len() - i,
    {
        let ghost rest: Seq<(Seq<char>, Seq<char>)> = all.skip(i as int);
        assert(rest[0] == all[i as int]);
        assert(all[i as int].0 == names[i as int].0@);
        assert(all[i as int].1 == names[i as int].1@);
        if names[i].0 == language {
            return names[i].1.clone();
        }
        assert(rest.skip(1) =~= all.skip(i + 1));
        i += 1;
    }
    String::new()
}

impl Place {
    /// The name that a report shows for the place.
    pub fn shown_name(&self) -> (name: String)
        ensures
            name@ == shown_name(self@),
    {
        match &self.names {
            Some(names) => english_name(names),
            None => String::new(),
        }
    }
}

/// The name that a report shows for a place, where the place is known.
fn name_of(place: &Option<Place>) -> (name: Option<String>)
    ensures
        match place.deep_view() {
            Some(known) => name matches Some(n) && n@ == shown_name(known),
            None => name is None,
        },
{
    match place {
        Some(known) => Some(known.shown_name()),
        None => None,
    }
}

/// The line that a report shows for one address.
pub fn geo_line_of(g: &GeoRecord) -> (line: String)
    ensures
        line@ == geo_line(g@),
{
    proof {
        reveal_strlit(" / ");
    }
    match (name_of(&g.country), name_of(&g.city)) {
        (None, None) => String::new(),
        (Some(country), None) => country,
        (None, Some(city)) => city,
        (Some(country), Some(city)) => {
            if country == city {
                country
            } else {
                let mut line: String = country;
                line.append(" / ");
                line.append(city.as_str());
                assert(line@ =~= shown_name(g@.country.unwrap()) + place_separator() + shown_name(
                    g@.city.unwrap(),
                ));
                line
            }
        },
    }
}

/// The text that a report shows for a domain with `wanted` addresses,
/// given what each lookup found.
pub fn geo_text_of(wanted: usize, found: &Vec<Option<GeoRecord>>) -> (text: String)
    ensures
        text@ == geo_text(wanted as nat, found_view(found@)),
{
    proof {
        reveal_strlit("\n");
    }
    let ghost all: Seq<Option<GeoView>> = found_view(found@);
    if found.len() != wanted {
        return String::new();
    }
    let mut lines: Vec<String> = Vec::new();
    let mut i: usize = 0;
    while i < found.len()
        invariant
            i <= found.len(),
            all == found_view(found@),
            lines.len() == i,
            forall|j: int| 0 <= j < i ==> (#[trigger] all[j]) is Some,
            forall|j: int| 0 <= j < i ==> (#[trigger] lines[j])@ == geo_line(all[j].unwrap()),
        decreases found.len() - i,
    {
        assert(all[i as int] == match found[i as int] {
            Some(g) => Some(g@),
            None => None,
        });
        match &found[i] {
            Some(g) => {
                lines.push(geo_line_of(g));
            },
            None => {
                return String::new();
            },
        }
        i += 1;
    }
    assert(lines.deep_view() =~= geo_lines(all));
    assert("\n"@ =~= line_separator());
    join_text(&lines, "\n")
}

} // verus!
