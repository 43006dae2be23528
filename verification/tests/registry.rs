use typven::error::Error;
use typven::manifest::Manifest;

const PATH: &str = "/data/typst/manifest.toml";

fn fresh() -> Manifest {
    Manifest::get_or_create(PATH, None).0
}

#[test]
fn get_or_create_makes_an_empty_registry_where_there_is_none() {
    let (manifest, text) = Manifest::get_or_create(PATH, None);
    assert_eq!(manifest.path(), PATH);
    assert_eq!(manifest.default_package(), None);
    assert_eq!(
        manifest.package_path("acme"),
        Err(Error::UnknownPackage { name: "acme".to_string() })
    );
    let text = text.expect("a new registry has to be written");
    assert_eq!(text, "[package]\nversion = \"0.1.0\"\n\n[packages]\n");
    assert_eq!(manifest.text(), text);
}

#[test]
fn get_or_create_makes_an_empty_registry_of_what_is_no_document() {
    let (manifest, text) = Manifest::get_or_create(PATH, Some("[packages\nacme = "));
    assert_eq!(manifest.package_path("acme"), Err(Error::UnknownPackage { name: "acme".into() }));
    assert_eq!(text, Some("[package]\nversion = \"0.1.0\"\n\n[packages]\n".to_string()));
}

#[test]
fn get_or_create_makes_an_empty_registry_of_what_is_no_registry() {
    let (manifest, text) = Manifest::get_or_create(PATH, Some("packages = 3\n"));
    assert_eq!(manifest.package_path("acme"), Err(Error::UnknownPackage { name: "acme".into() }));
    assert!(text.is_some());
    let (_, text) = Manifest::get_or_create(PATH, Some("package = \"x\"\n[packages]\n"));
    assert!(text.is_some());
    let (_, text) = Manifest::get_or_create(PATH, Some("[[packages]]\nacme = \"/src\"\n"));
    assert!(text.is_some());
}

#[test]
fn get_or_create_takes_up_what_was_written() {
    let text = "[package]\nversion = \"0.1.0\"\ndefault = \"acme\"\n\n[packages]\n\
                acme = \"/src/acme\"\nother = \"rel/other\"\n";
    let (manifest, to_write) = Manifest::get_or_create(PATH, Some(text));
    assert_eq!(to_write, None);
    assert_eq!(manifest.package_path("acme"), Ok("/src/acme".to_string()));
    assert_eq!(manifest.package_path("other"), Ok("rel/other".to_string()));
    assert_eq!(manifest.default_package(), Some("acme".to_string()));
    assert_eq!(manifest.text(), text);
}

#[test]
fn get_or_create_takes_up_a_document_without_tables() {
    let (mut manifest, to_write) = Manifest::get_or_create(PATH, Some("# nothing yet\n"));
    assert_eq!(to_write, None);
    assert_eq!(manifest.default_package(), None);
    assert!(manifest.register("acme", "/src/acme").is_ok());
    assert_eq!(manifest.package_path("acme"), Ok("/src/acme".to_string()));
    assert_eq!(manifest.default("acme".to_string()).map(|_| ()), Ok(()));
    assert_eq!(manifest.default_package(), Some("acme".to_string()));
}

#[test]
fn get_or_create_reads_inline_tables() {
    let text = "package = { default = \"acme\" }\npackages = { acme = \"/src/acme\" }\n";
    let (mut manifest, to_write) = Manifest::get_or_create(PATH, Some(text));
    assert_eq!(to_write, None);
    assert_eq!(manifest.package_path("acme"), Ok("/src/acme".to_string()));
    assert_eq!(manifest.default_package(), Some("acme".to_string()));
    assert!(manifest.register("beta", "/src/beta").is_ok());
    assert_eq!(manifest.package_path("beta"), Ok("/src/beta".to_string()));
    manifest.unregister("acme");
    assert_eq!(manifest.package_path("acme"), Err(Error::UnknownPackage { name: "acme".into() }));
    assert_eq!(manifest.default_package(), None);
}

#[test]
fn get_or_create_drops_a_default_that_is_not_registered() {
    let text = "[package]\ndefault = \"ghost\"\n\n[packages]\nacme = \"/src/acme\"\n";
    let (manifest, to_write) = Manifest::get_or_create(PATH, Some(text));
    assert_eq!(manifest.default_package(), None);
    assert_eq!(manifest.package_path("acme"), Ok("/src/acme".to_string()));
    assert_eq!(to_write, Some("[package]\n\n[packages]\nacme = \"/src/acme\"\n".to_string()));
}

#[test]
fn register_then_resolve_returns_the_path() {
    let mut manifest = fresh();
    let text = manifest.register("acme", "/src/acme").expect("registered");
    assert_eq!(manifest.package_path("acme"), Ok("/src/acme".to_string()));
    assert_eq!(text, "[package]\nversion = \"0.1.0\"\n\n[packages]\nacme = \"/src/acme\"\n");
    assert_eq!(manifest.text(), text);
}

#[test]
fn register_twice_fails_and_keeps_the_first_path() {
    let mut manifest = fresh();
    manifest.register("acme", "/src/acme").expect("registered");
    let before = manifest.text();
    assert_eq!(
        manifest.register("acme", "/elsewhere"),
        Err(Error::AlreadyRegistered { name: "acme".to_string() })
    );
    assert_eq!(manifest.package_path("acme"), Ok("/src/acme".to_string()));
    assert_eq!(manifest.text(), before);
}

#[test]
fn unregister_then_resolve_fails() {
    let mut manifest = fresh();
    manifest.register("acme", "/src/acme").expect("registered");
    manifest.register("beta", "/src/beta").expect("registered");
    let text = manifest.unregister("acme");
    assert_eq!(
        manifest.package_path("acme"),
        Err(Error::UnknownPackage { name: "acme".to_string() })
    );
    assert_eq!(manifest.package_path("beta"), Ok("/src/beta".to_string()));
    assert_eq!(text, "[package]\nversion = \"0.1.0\"\n\n[packages]\nbeta = \"/src/beta\"\n");
}

#[test]
fn unregister_of_what_is_not_registered_is_no_error() {
    let mut manifest = fresh();
    manifest.register("acme", "/src/acme").expect("registered");
    let before = manifest.text();
    assert_eq!(manifest.unregister("ghost"), before);
    assert_eq!(manifest.package_path("acme"), Ok("/src/acme".to_string()));
}

#[test]
fn default_names_a_registered_package() {
    let mut manifest = fresh();
    manifest.register("acme", "/src/acme").expect("registered");
    let text = manifest.default("acme".to_string()).expect("set");
    assert_eq!(manifest.default_package(), Some("acme".to_string()));
    assert_eq!(
        text,
        "[package]\nversion = \"0.1.0\"\ndefault = \"acme\"\n\n[packages]\nacme = \"/src/acme\"\n"
    );
}

#[test]
fn default_refuses_a_name_that_is_not_registered() {
    let mut manifest = fresh();
    manifest.register("acme", "/src/acme").expect("registered");
    manifest.default("acme".to_string()).expect("set");
    assert_eq!(
        manifest.default("ghost".to_string()),
        Err(Error::UnregisteredDefault { name: "ghost".to_string() })
    );
    assert_eq!(manifest.default_package(), Some("acme".to_string()));
}

#[test]
fn unregister_of_the_default_clears_the_default() {
    let mut manifest = fresh();
    manifest.register("acme", "/src/acme").expect("registered");
    manifest.register("beta", "/src/beta").expect("registered");
    manifest.default("acme".to_string()).expect("set");
    manifest.unregister("beta");
    assert_eq!(manifest.default_package(), Some("acme".to_string()));
    manifest.unregister("acme");
    assert_eq!(manifest.default_package(), None);
}

#[test]
fn what_is_written_is_read_back() {
    let mut manifest = fresh();
    manifest.register("acme", "/src/acme").expect("registered");
    manifest.register("with space", "C:\\src\\x").expect("registered");
    manifest.default("with space".to_string()).expect("set");
    let text = manifest.text();
    let (again, to_write) = Manifest::get_or_create(PATH, Some(&text));
    assert_eq!(to_write, None);
    assert_eq!(again.package_path("acme"), Ok("/src/acme".to_string()));
    assert_eq!(again.package_path("with space"), Ok("C:\\src\\x".to_string()));
    assert_eq!(again.default_package(), Some("with space".to_string()));
}

#[test]
fn what_the_document_holds_besides_is_kept() {
    let text = "# my registry\nnote = \"keep me\"\n\n[package]\nversion = \"9.9.9\"\n\n\
                [packages]\n# the first\nacme = \"/src/acme\"\n";
    let (mut manifest, _) = Manifest::get_or_create(PATH, Some(text));
    let written = manifest.register("beta", "/src/beta").expect("registered");
    assert_eq!(
        written,
        "# my registry\nnote = \"keep me\"\n\n[package]\nversion = \"9.9.9\"\n\n\
         [packages]\n# the first\nacme = \"/src/acme\"\nbeta = \"/src/beta\"\n"
    );
}

#[test]
fn an_entry_that_is_no_string_is_no_registration() {
    let text = "[packages]\nacme = 3\n";
    let (mut manifest, _) = Manifest::get_or_create(PATH, Some(text));
    assert_eq!(manifest.package_path("acme"), Err(Error::UnknownPackage { name: "acme".into() }));
    assert!(manifest.register("acme", "/src/acme").is_ok());
    assert_eq!(manifest.package_path("acme"), Ok("/src/acme".to_string()));
}
