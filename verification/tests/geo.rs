use har_analyzer::geo::{english_name, geo_line_of, geo_text_of, GeoRecord, Place};

fn names(pairs: &[(&str, &str)]) -> Vec<(String, String)> {
    pairs.iter().map(|(l, n)| (l.to_string(), n.to_string())).collect()
}

fn known(pairs: &[(&str, &str)]) -> Option<Place> {
    Some(Place { names: Some(names(pairs)) })
}

fn place(country: Option<&str>, city: Option<&str>) -> GeoRecord {
    GeoRecord {
        country: country.and_then(|c| known(&[("de", "irgendwo"), ("en", c)])),
        city: city.and_then(|c| known(&[("en", c), ("fr", "quelque part")])),
    }
}

#[test]
fn the_english_name_is_picked() {
    assert_eq!(
        english_name(&names(&[("de", "Schweden"), ("en", "Sweden"), ("fr", "Suède")])),
        "Sweden"
    );
    assert_eq!(english_name(&names(&[("en", "Linköping")])), "Linköping");
}

#[test]
fn without_an_english_name_the_name_is_empty() {
    assert_eq!(english_name(&names(&[])), "");
    assert_eq!(english_name(&names(&[("de", "Schweden"), ("fr", "Suède")])), "");
    assert_eq!(english_name(&names(&[("EN", "Sweden"), ("en-GB", "Sweden")])), "");
}

#[test]
fn the_first_english_name_counts() {
    assert_eq!(english_name(&names(&[("en", "first"), ("en", "second")])), "first");
}

#[test]
fn a_line_holds_country_and_city() {
    assert_eq!(geo_line_of(&place(Some("Sweden"), Some("Linköping"))), "Sweden / Linköping");
}

#[test]
fn a_line_holds_what_is_known() {
    assert_eq!(geo_line_of(&place(Some("Sweden"), None)), "Sweden");
    assert_eq!(geo_line_of(&place(None, Some("Linköping"))), "Linköping");
    assert_eq!(geo_line_of(&place(None, None)), "");
}

#[test]
fn a_line_says_nothing_twice() {
    assert_eq!(geo_line_of(&place(Some("Singapore"), Some("Singapore"))), "Singapore");
}

#[test]
fn a_place_without_english_name_counts_as_empty() {
    let g =
        GeoRecord { country: known(&[("de", "Schweden")]), city: known(&[("en", "Linköping")]) };
    assert_eq!(geo_line_of(&g), " / Linköping");
    let g = GeoRecord { country: known(&[("en", "Sweden")]), city: known(&[]) };
    assert_eq!(geo_line_of(&g), "Sweden / ");
    let g = GeoRecord { country: known(&[]), city: known(&[("ja", "x")]) };
    assert_eq!(geo_line_of(&g), "");
    let g = GeoRecord { country: known(&[]), city: None };
    assert_eq!(geo_line_of(&g), "");
}

#[test]
fn a_place_without_names_counts_as_empty() {
    let nameless = || Some(Place { names: None });
    assert_eq!(Place { names: None }.shown_name(), "");
    let g = GeoRecord { country: nameless(), city: known(&[("en", "Linköping")]) };
    assert_eq!(geo_line_of(&g), " / Linköping");
    let g = GeoRecord { country: known(&[("en", "Sweden")]), city: nameless() };
    assert_eq!(geo_line_of(&g), "Sweden / ");
    let g = GeoRecord { country: nameless(), city: nameless() };
    assert_eq!(geo_line_of(&g), "");
    let g = GeoRecord { country: None, city: nameless() };
    assert_eq!(geo_line_of(&g), "");
}

#[test]
fn a_place_shows_its_english_name() {
    let sweden = Place { names: Some(names(&[("sv", "Sverige"), ("en", "Sweden")])) };
    assert_eq!(sweden.shown_name(), "Sweden");
}

#[test]
fn the_text_has_a_line_for_each_address() {
    let found = vec![
        Some(place(Some("Sweden"), Some("Linköping"))),
        Some(place(Some("Japan"), None)),
        Some(place(None, None)),
        Some(place(Some("Singapore"), Some("Singapore"))),
    ];
    assert_eq!(geo_text_of(4, &found), "Sweden / Linköping\nJapan\n\nSingapore");
}

#[test]
fn the_text_of_one_address_is_its_line() {
    assert_eq!(geo_text_of(1, &vec![Some(place(Some("Sweden"), None))]), "Sweden");
}

#[test]
fn one_failed_lookup_empties_the_text() {
    let found = vec![Some(place(Some("Sweden"), None)), None, Some(place(Some("Japan"), None))];
    assert_eq!(geo_text_of(3, &found), "");
    assert_eq!(geo_text_of(1, &vec![None]), "");
}

#[test]
fn a_missing_lookup_empties_the_text() {
    let found = vec![Some(place(Some("Sweden"), None))];
    assert_eq!(geo_text_of(2, &found), "");
    assert_eq!(geo_text_of(0, &found), "");
}

#[test]
fn no_address_no_text() {
    assert_eq!(geo_text_of(0, &vec![]), "");
}
