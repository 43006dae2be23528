use typven::store::{bundle_path, locate, locations_in, locations_of, version_path};
use typven::text::{component, join, numeral, same_text};
use typven::version::Version;

#[test]
fn join_puts_one_separator_between() {
    assert_eq!(join("pkgs", "acme"), "pkgs/acme");
    assert_eq!(join("/home/u", "typst/packages"), "/home/u/typst/packages");
    assert_eq!(join("", "acme"), "/acme");
    assert_eq!(join("pkgs", ""), "pkgs/");
}

#[test]
fn numeral_writes_decimal_digits() {
    assert_eq!(numeral(0), "0");
    assert_eq!(numeral(7), "7");
    assert_eq!(numeral(10), "10");
    assert_eq!(numeral(1234567890), "1234567890");
    assert_eq!(numeral(u64::MAX), "18446744073709551615");
}

#[test]
fn component_is_one_name_without_separator() {
    assert!(component("acme"));
    assert!(component("1.2.0"));
    assert!(component(".."));
    assert!(!component(""));
    assert!(!component("a/b"));
    assert!(!component("/"));
    assert!(!component("acme/"));
}

#[test]
fn same_text_compares_characters() {
    assert!(same_text("acme", "acme"));
    assert!(same_text("", ""));
    assert!(!same_text("acme", "Acme"));
    assert!(!same_text("acme", "acme "));
}

#[test]
fn store_lies_below_the_data_directory() {
    let places = locations_in("/home/u/.local/share");
    assert_eq!(places.data_dir, "/home/u/.local/share");
    assert_eq!(places.store, "/home/u/.local/share/typst/packages/local");
    assert_eq!(places.registry, "/home/u/.local/share/typst/manifest.toml");
}

#[test]
fn version_directory_is_name_then_version() {
    let store = "/data/typst/packages/local";
    assert_eq!(bundle_path(store, "acme"), "/data/typst/packages/local/acme");
    assert_eq!(
        version_path(store, "acme", &Version::new(1, 2, 0)),
        "/data/typst/packages/local/acme/1.2.0"
    );
    assert_eq!(
        version_path(store, "acme", &Version::parse("2.0.0-rc.1").expect("a version")),
        "/data/typst/packages/local/acme/2.0.0-rc.1"
    );
}

#[test]
fn locate_places_the_store_below_the_data_directory() {
    if let Some(places) = locate() {
        assert_eq!(places, locations_in(&places.data_dir));
        assert_eq!(places.store, format!("{}/typst/packages/local", places.data_dir));
        assert_eq!(places.registry, format!("{}/typst/manifest.toml", places.data_dir));
    }
}

#[test]
fn locations_of_follows_the_data_directory() {
    assert_eq!(locations_of(None), None);
    let places = locations_of(Some("/home/u/.local/share".to_string())).expect("places");
    assert_eq!(places.data_dir, "/home/u/.local/share");
    assert_eq!(places.store, "/home/u/.local/share/typst/packages/local");
    assert_eq!(places.registry, "/home/u/.local/share/typst/manifest.toml");
    assert_eq!(places, locations_in("/home/u/.local/share"));
}
