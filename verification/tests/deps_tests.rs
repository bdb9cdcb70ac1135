use mngr::deps::{caret_version, upsert_entry};

fn entries(pairs: &[(&str, &str)]) -> Vec<(String, String)> {
    pairs.iter().map(|(k, v)| (String::from(*k), String::from(*v))).collect()
}

#[test]
fn caret_prefixes_the_fetched_version() {
    assert_eq!(caret_version("4.17.21"), "^4.17.21");
    assert_eq!(caret_version(""), "^");
}

#[test]
fn upsert_appends_a_new_package() {
    let mut deps = entries(&[("lodash", "^4.0.0")]);
    upsert_entry(&mut deps, &String::from("axios"), &String::from("^1.6.0"));
    assert_eq!(deps, entries(&[("lodash", "^4.0.0"), ("axios", "^1.6.0")]));
}

#[test]
fn upsert_overwrites_an_existing_package_in_place() {
    let mut deps = entries(&[("lodash", "^4.0.0"), ("axios", "^1.0.0"), ("react", "^18.0.0")]);
    upsert_entry(&mut deps, &String::from("axios"), &String::from("^1.6.0"));
    assert_eq!(
        deps,
        entries(&[("lodash", "^4.0.0"), ("axios", "^1.6.0"), ("react", "^18.0.0")])
    );
}

#[test]
fn upsert_into_an_empty_table() {
    let mut deps: Vec<(String, String)> = Vec::new();
    upsert_entry(&mut deps, &String::from("concurrently"), &String::from("^9.0.0"));
    assert_eq!(deps, entries(&[("concurrently", "^9.0.0")]));
}
