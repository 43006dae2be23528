//! The registry: the document that maps the names of packages to the
//! directories they are installed from, with an optional default package.
//!
//! The registry is kept as the document that was read, so that what it holds
//! besides the registrations is written back as it was. The library does not
//! write the document: each operation that changes it hands back the text
//! that the caller has to write to [`Manifest::path`] before it reports
//! success.

use crate::document::Node;
use crate::error::{Error, ErrorView};
use vstd::prelude::*;

verus! {

#[verifier::external_type_specification]
#[verifier::external_body]
pub struct ExDocument(toml_edit::Document);

#[verifier::external_type_specification]
#[verifier::external_body]
pub struct ExItem(toml_edit::Item);

/// The document that `text` denotes, as `toml_edit::Document::from_str` reads
/// it: the table of its top level. `None` where the text is no such document.
pub uninterp spec fn edit_document(text: Seq<char>) -> Option<Node>;

/// What a `toml_edit::Document` holds: the node of its root item.
pub uninterp spec fn document_node(document: toml_edit::Document) -> Node;

/// What a `toml_edit::Item` holds: `Text` for a string value, `Table` for a
/// table or an inline table with the node of each entry that `Item::get`
/// finds in it, `Other` for the rest.
pub uninterp spec fn item_node(item: toml_edit::Item) -> Node;

/// The text that `toml_edit::Document::to_string` writes for a document.
pub uninterp spec fn document_text(document: toml_edit::Document) -> Seq<char>;

/// Calls `toml_edit::Document::from_str` through `str::parse`. The contract
/// names the result: the document parsed holds what the text denotes, its root
/// is a table, and parsing fails exactly where the text denotes no document.
#[verifier::external_body]
fn parse_document(text: &str) -> (parsed: Option<toml_edit::Document>)
    ensures
        parsed matches Some(document) ==> edit_document(text@) == Some(document_node(document))
            && document_node(document) is Table,
        parsed is None ==> edit_document(text@) is None,
{
    match text.parse::<toml_edit::Document>() {
        Ok(document) => Some(document),
        Err(_) => None,
    }
}

/// Calls `toml_edit::Document::new`: a document whose root is an empty table.
#[verifier::external_body]
fn new_document() -> (document: toml_edit::Document)
    ensures
        document_node(document) == Node::Table(Map::empty()),
{
    toml_edit::Document::new()
}

/// Calls `toml_edit::Document::as_item`: the root item of the document.
#[verifier::external_body]
fn document_root<'a>(document: &'a toml_edit::Document) -> (root: &'a toml_edit::Item)
    ensures
        item_node(*root) == document_node(*document),
{
    document.as_item()
}

/// Calls `toml_edit::Item::get` with a string index: the item under `key`
/// where `item` is a table or an inline table that has the key, else `None`.
#[verifier::external_body]
fn item_get<'a>(item: &'a toml_edit::Item, key: &str) -> (found: Option<&'a toml_edit::Item>)
    ensures
        found matches Some(inner) ==> item_node(*item).entry(key@) == Some(item_node(*inner)),
        found is None ==> item_node(*item).entry(key@) is None,
{
    item.get(key)
}

/// Calls `toml_edit::Item::as_str`: the string where `item` is a string
/// value, else `None`.
#[verifier::external_body]
fn item_as_str<'a>(item: &'a toml_edit::Item) -> (found: Option<&'a str>)
    ensures
        found matches Some(text) ==> item_node(*item) == Node::Text(text@),
        found is None ==> !(item_node(*item) is Text),
{
    item.as_str()
}

/// Calls `toml_edit::Item::is_table_like`: whether `item` is a table or an
/// inline table.
#[verifier::external_body]
fn item_is_table(item: &toml_edit::Item) -> (yes: bool)
    ensures
        yes == (item_node(*item) is Table),
{
    item.is_table_like()
}

/// Calls `toml_edit::Table::insert` on the root of the document, with the
/// empty table of `toml_edit::table`: afterwards the root holds an empty table
/// under `key`, and its other entries as before.
#[verifier::external_body]
fn document_insert_table(document: &mut toml_edit::Document, key: &str)
    requires
        document_node(*old(document)) is Table,
    ensures
        document_node(*final(document)) == document_node(*old(document)).with_table(key@),
{
    document.insert(key, toml_edit::table());
}

/// Assigns the string value of `toml_edit::value` to `document[section][key]`,
/// through `IndexMut` of `toml_edit::Table` and of `toml_edit::Item`. The
/// second index panics where the root holds something else than a table
/// under `section`, which the precondition excludes; nothing else in the
/// assignment panics. Afterwards the table under `section` holds the string
/// under `key`; all else is as before.
#[verifier::external_body]
fn document_put(document: &mut toml_edit::Document, section: &str, key: &str, text: &str)
    requires
        document_node(*old(document)).open_at(section@),
    ensures
        document_node(*final(document)) == document_node(*old(document)).put(
            section@,
            key@,
            text@,
        ),
    no_unwind
{
    document[section][key] = toml_edit::value(text);
}

/// Calls `toml_edit::TableLike::remove` on the table or inline table that
/// `toml_edit::Table::get_mut` finds under `section` in the root, if there is
/// one: afterwards that table has no entry under `key`; all else is as before.
/// None of the calls panics.
#[verifier::external_body]
fn document_cut(document: &mut toml_edit::Document, section: &str, key: &str)
    requires
        document_node(*old(document)) is Table,
    ensures
        document_node(*final(document)) == document_node(*old(document)).cut(section@, key@),
    no_unwind
{
    document.get_mut(section).and_then(|item| item.as_table_like_mut()).and_then(
        |table| table.remove(key),
    );
}

/// Calls `toml_edit::Document::to_string`. The contract names the result.
#[verifier::external_body]
fn document_render(document: &toml_edit::Document) -> (text: String)
    ensures
        text@ == document_text(*document),
{
    document.to_string()
}

/// What a registry says: which name is registered with which directory, and
/// which name is the default.
pub struct Registry {
    pub entries: Map<Seq<char>, Seq<char>>,
    pub default: Option<Seq<char>>,
}

impl Registry {
    /// The registry that holds nothing.
    pub open spec fn empty() -> Registry {
        Registry { entries: Map::empty(), default: None }
    }

    /// The invariant of a registry: the default, if there is one, is a
    /// registered name.
    pub open spec fn wf(self) -> bool {
        self.default matches Some(name) ==> self.entries.contains_key(name)
    }

    /// This registry without a default that is not registered.
    pub open spec fn mended(self) -> Registry {
        if self.wf() {
            self
        } else {
            Registry { default: None, ..self }
        }
    }

    /// Registers `name` with `path`, unless the name is registered.
    pub open spec fn register(self, name: Seq<char>, path: Seq<char>) -> Result<
        Registry,
        ErrorView,
    > {
        if self.entries.contains_key(name) {
            Err(ErrorView::AlreadyRegistered { name })
        } else {
            Ok(Registry { entries: self.entries.insert(name, path), ..self })
        }
    }

    /// Removes `name`, and the default with it if it is the default.
    pub open spec fn unregister(self, name: Seq<char>) -> Registry {
        Registry {
            entries: self.entries.remove(name),
            default: if self.default == Some(name) {
                None
            } else {
                self.default
            },
        }
    }

    /// The directory that `name` is registered with.
    pub open spec fn resolve(self, name: Seq<char>) -> Result<Seq<char>, ErrorView> {
        if self.entries.contains_key(name) {
            Ok(self.entries[name])
        } else {
            Err(ErrorView::UnknownPackage { name })
        }
    }

    /// Makes `name` the default, if it is registered.
    pub open spec fn set_default(self, name: Seq<char>) -> Result<Registry, ErrorView> {
        if self.entries.contains_key(name) {
            Ok(Registry { default: Some(name), ..self })
        } else {
            Err(ErrorView::UnregisteredDefault { name })
        }
    }
}

/// Whether the document `root` can be kept as a registry: its root is a
/// table, and what it holds under `packages` and under `package` is a table
/// or nothing.
pub open spec fn shaped(root: Node) -> bool {
    root.open_at("packages"@) && root.open_at("package"@)
}

/// What the document `root` says as a registry: each string of the table
/// under `packages` registers its key, and the string under `default` of the
/// table under `package` names the default.
pub open spec fn registry(root: Node) -> Registry {
    Registry {
        entries: Map::new(
            |name: Seq<char>| root.section("packages"@).text_at(name) is Some,
            |name: Seq<char>| root.section("packages"@).text_at(name)->0,
        ),
        default: root.section("package"@).text_at("default"@),
    }
}

/// The registry that the text of a document denotes, where it denotes a
/// document that can be kept as one.
pub open spec fn registry_in(text: Seq<char>) -> Option<Registry> {
    match edit_document(text) {
        Some(root) => if shaped(root) {
            Some(registry(root))
        } else {
            None
        },
        None => None,
    }
}

/// The registry of the user: a document and the place where it is kept.
#[derive(Debug)]
pub struct Manifest {
    data: toml_edit::Document,
    path: String,
}

/// The mathematical value of a [`Manifest`].
pub struct ManifestView {
    /// What the registry says.
    pub registry: Registry,
    /// Where the document is kept.
    pub path: Seq<char>,
    /// The text of the document as it has to stand on disk.
    pub text: Seq<char>,
}

impl View for Manifest {
    type V = ManifestView;

    closed spec fn view(&self) -> ManifestView {
        ManifestView {
            registry: registry(document_node(self.data)),
            path: self.path@,
            text: document_text(self.data),
        }
    }
}

/// The two tables of a registry document have different names.
proof fn lemma_section_names_differ()
    ensures
        "packages"@ != "package"@,
{
    reveal_strlit("packages");
    reveal_strlit("package");
    assert("packages"@.len() == 8);
    assert("package"@.len() == 7);
}

/// A string put under `packages` registers its key, and changes nothing
/// else of what the document says.
proof fn lemma_put_registers(root: Node, name: Seq<char>, path: Seq<char>)
    requires
        shaped(root),
    ensures
        shaped(root.put("packages"@, name, path)),
        registry(root.put("packages"@, name, path)) == (Registry {
            entries: registry(root).entries.insert(name, path),
            ..registry(root)
        }),
{
    lemma_section_names_differ();
    let after = root.put("packages"@, name, path);
    assert(registry(after).entries =~= registry(root).entries.insert(name, path));
    assert(after.section("package"@) == root.section("package"@));
}

/// A string put under `default` of `package` names the default, and changes
/// nothing else of what the document says.
proof fn lemma_put_default(root: Node, name: Seq<char>)
    requires
        shaped(root),
    ensures
        shaped(root.put("package"@, "default"@, name)),
        registry(root.put("package"@, "default"@, name)) == (Registry {
            default: Some(name),
            ..registry(root)
        }),
{
    lemma_section_names_differ();
    let after = root.put("package"@, "default"@, name);
    assert(after.section("packages"@) == root.section("packages"@));
    assert(registry(after).entries =~= registry(root).entries);
}

/// Without the entry under `default` of `package` the document names no
/// default, and says nothing else than before.
proof fn lemma_cut_default(root: Node)
    requires
        shaped(root),
    ensures
        shaped(root.cut("package"@, "default"@)),
        registry(root.cut("package"@, "default"@)) == (Registry {
            default: None,
            ..registry(root)
        }),
{
    lemma_section_names_differ();
    let after = root.cut("package"@, "default"@);
    assert(after.section("packages"@) == root.section("packages"@));
    assert(registry(after).entries =~= registry(root).entries);
}

/// Without the entry of a name under `packages` the name is not registered,
/// and the document says nothing else than before.
proof fn lemma_cut_registration(root: Node, name: Seq<char>)
    requires
        shaped(root),
    ensures
        shaped(root.cut("packages"@, name)),
        registry(root.cut("packages"@, name)) == (Registry {
            entries: registry(root).entries.remove(name),
            ..registry(root)
        }),
{
    lemma_section_names_differ();
    let after = root.cut("packages"@, name);
    assert(after.section("package"@) == root.section("package"@));
    assert(registry(after).entries =~= registry(root).entries.remove(name));
}

impl Manifest {
    /// The document can be kept as a registry, and its default, if it names
    /// one, is registered.
    #[verifier::type_invariant]
    spec fn inv(&self) -> bool {
        shaped(document_node(self.data)) && registry(document_node(self.data)).wf()
    }

    /// The string under `key` of the table under `section`.
    fn lookup(&self, section: &str, key: &str) -> (found: Option<String>)
        ensures
            found matches Some(text) ==> document_node(self.data).section(section@).text_at(key@)
                == Some(text@),
            found is None ==> document_node(self.data).section(section@).text_at(key@) is None,
    {
        let root = document_root(&self.data);
        let table = match item_get(root, section) {
            Some(table) => table,
            None => {
                return None;
            },
        };
        if !item_is_table(table) {
            return None;
        }
        match item_get(table, key) {
            Some(item) => match item_as_str(item) {
                Some(text) => Some(text.to_owned()),
                None => None,
            },
            None => None,
        }
    }

    /// A new registry at `path`: a document with a table `package` that
    /// records the version of this tool, and an empty table `packages`.
    fn create(path: &str) -> (manifest: Manifest)
        ensures
            manifest@.registry == Registry::empty(),
            manifest@.path == path@,
    {
        let mut data = new_document();
        document_insert_table(&mut data, "package");
        document_put(&mut data, "package", "version", "0.1.0");
        document_insert_table(&mut data, "packages");
        proof {
            lemma_section_names_differ();
            reveal_strlit("version");
            reveal_strlit("default");
            let root = document_node(data);
            assert("version"@ != "default"@) by {
                assert("version"@[0] == 'v');
                assert("default"@[0] == 'd');
            }
            assert(registry(root).entries =~= Map::empty());
            assert(root.section("package"@).text_at("default"@) is None);
        }
        Manifest { data, path: path.to_owned() }
    }

    /// Whether `data` can be kept as a registry.
    fn keeps(data: &toml_edit::Document) -> (yes: bool)
        requires
            document_node(*data) is Table,
        ensures
            yes == shaped(document_node(*data)),
    {
        let root = document_root(data);
        let packages = match item_get(root, "packages") {
            Some(item) => item_is_table(item),
            None => true,
        };
        let package = match item_get(root, "package") {
            Some(item) => item_is_table(item),
            None => true,
        };
        packages && package
    }

    /// Takes up the registry that is kept at `path`. `contents` is the text of
    /// the document there, or `None` where it cannot be read.
    ///
    /// Where the text denotes a registry, that registry is taken up, without
    /// its default if the default is not registered. Where there is no text, or
    /// it denotes no document that can be kept as a registry, an empty registry
    /// is made. The second part of the result is the text that the caller has to
    /// write to `path`: it is there whenever the registry is not the one that
    /// was read.
    pub fn get_or_create(path: &str, contents: Option<&str>) -> (loaded: (Manifest, Option<String>))
        ensures
            loaded.0@.path == path@,
            loaded.0@.registry == match contents {
                Some(text) => match registry_in(text@) {
                    Some(registry) => registry.mended(),
                    None => Registry::empty(),
                },
                None => Registry::empty(),
            },
            loaded.1 is None <==> (contents matches Some(text) && registry_in(text@) matches Some(
                registry,
            ) && registry.wf()),
            loaded.1 matches Some(text) ==> text@ == loaded.0@.text,
    {
        let parsed = match contents {
            Some(text) => parse_document(text),
            None => None,
        };
        match parsed {
            Some(data) => {
                if Manifest::keeps(&data) {
                    let mut data = data;
                    let ghost root = document_node(data);
                    let root_item = document_root(&data);
                    let default = match item_get(root_item, "package") {
                        Some(table) => if item_is_table(table) {
                            match item_get(table, "default") {
                                Some(item) => match item_as_str(item) {
                                    Some(text) => Some(text.to_owned()),
                                    None => None,
                                },
                                None => None,
                            }
                        } else {
                            None
                        },
                        None => None,
                    };
                    assert(crate::text::text_of(default) == registry(root).default);
                    let live = match &default {
                        Some(name) => {
                            let packages = match item_get(root_item, "packages") {
                                Some(table) => if item_is_table(table) {
                                    match item_get(table, name.as_str()) {
                                        Some(item) => item_as_str(item).is_some(),
                                        None => false,
                                    }
                                } else {
                                    false
                                },
                                None => false,
                            };
                            packages
                        },
                        None => true,
                    };
                    assert(live == registry(root).wf());
                    if live {
                        (Manifest { data, path: path.to_owned() }, None)
                    } else {
                        document_cut(&mut data, "package", "default");
                        proof {
                            lemma_cut_default(root);
                        }
                        let text = document_render(&data);
                        (Manifest { data, path: path.to_owned() }, Some(text))
                    }
                } else {
                    let manifest = Manifest::create(path);
                    let text = document_render(&manifest.data);
                    (manifest, Some(text))
                }
            },
            None => {
                let manifest = Manifest::create(path);
                let text = document_render(&manifest.data);
                (manifest, Some(text))
            },
        }
    }

    /// Where the document of the registry is kept.
    pub fn path(&self) -> (path: &str)
        ensures
            path@ == self@.path,
    {
        self.path.as_str()
    }

    /// The text of the document as it has to stand on disk.
    pub fn text(&self) -> (text: String)
        ensures
            text@ == self@.text,
    {
        document_render(&self.data)
    }

    /// Makes the registered package `package_name` the default. Fails with
    /// [`Error::UnregisteredDefault`] where the name is not registered, and
    /// then changes nothing. On success the result is the text that the caller
    /// has to write.
    pub fn default(&mut self, package_name: String) -> (done: Result<String, Error>)
        ensures
            final(self)@.path == old(self)@.path,
            match done {
                Ok(text) => old(self)@.registry.set_default(package_name@) == Ok::<
                    Registry,
                    ErrorView,
                >(final(self)@.registry) && text@ == final(self)@.text,
                Err(error) => old(self)@.registry.set_default(package_name@) == Err::<
                    Registry,
                    ErrorView,
                >(error@) && final(self)@ == old(self)@,
            },
    {
        proof {
            use_type_invariant(&*self);
        }
        match self.lookup("packages", package_name.as_str()) {
            Some(_) => {
                proof {
                    lemma_put_default(document_node(self.data), package_name@);
                }
                document_put(&mut self.data, "package", "default", package_name.as_str());
                Ok(document_render(&self.data))
            },
            None => Err(Error::UnregisteredDefault { name: package_name }),
        }
    }

    /// Registers `package_name` with the directory `path`. Fails with
    /// [`Error::AlreadyRegistered`] where the name is registered, and then
    /// changes nothing: a registration is never overwritten. On success the
    /// result is the text that the caller has to write.
    pub fn register(&mut self, package_name: &str, path: &str) -> (done: Result<String, Error>)
        ensures
            final(self)@.path == old(self)@.path,
            match done {
                Ok(text) => old(self)@.registry.register(package_name@, path@) == Ok::<
                    Registry,
                    ErrorView,
                >(final(self)@.registry) && text@ == final(self)@.text,
                Err(error) => old(self)@.registry.register(package_name@, path@) == Err::<
                    Registry,
                    ErrorView,
                >(error@) && final(self)@ == old(self)@,
            },
    {
        proof {
            use_type_invariant(&*self);
        }
        match self.lookup("packages", package_name) {
            Some(_) => Err(Error::AlreadyRegistered { name: package_name.to_owned() }),
            None => {
                proof {
                    lemma_put_registers(document_node(self.data), package_name@, path@);
                }
                document_put(&mut self.data, "packages", package_name, path);
                Ok(document_render(&self.data))
            },
        }
    }

    /// The directory that `package_name` is registered with. Fails with
    /// [`Error::UnknownPackage`] where the name is not registered.
    pub fn package_path(&self, package_name: &str) -> (found: Result<String, Error>)
        ensures
            match found {
                Ok(path) => self@.registry.resolve(package_name@) == Ok::<Seq<char>, ErrorView>(
                    path@,
                ),
                Err(error) => self@.registry.resolve(package_name@) == Err::<
                    Seq<char>,
                    ErrorView,
                >(error@),
            },
    {
        match self.lookup("packages", package_name) {
            Some(path) => Ok(path),
            None => Err(Error::UnknownPackage { name: package_name.to_owned() }),
        }
    }

    /// The name of the default package, if there is one. It is always a
    /// registered name.
    pub fn default_package(&self) -> (name: Option<String>)
        ensures
            crate::text::text_of(name) == self@.registry.default,
            self@.registry.wf(),
    {
        proof {
            use_type_invariant(self);
        }
        self.lookup("package", "default")
    }

    /// Removes the registration of `package_name`, and the default with it if
    /// the name is the default. A name that is not registered is no error. The
    /// result is the text that the caller has to write.
    pub fn unregister(&mut self, package_name: &str) -> (text: String)
        ensures
            final(self)@.path == old(self)@.path,
            final(self)@.registry == old(self)@.registry.unregister(package_name@),
            text@ == final(self)@.text,
    {
        proof {
            use_type_invariant(&*self);
        }
        let is_default = match self.lookup("package", "default") {
            Some(name) => crate::text::same_text(name.as_str(), package_name),
            None => false,
        };
        if is_default {
            proof {
                lemma_cut_default(document_node(self.data));
            }
            document_cut(&mut self.data, "package", "default");
        }
        proof {
            lemma_cut_registration(document_node(self.data), package_name@);
        }
        document_cut(&mut self.data, "packages", package_name);
        document_render(&self.data)
    }
}

/// What is registered can be resolved, is never registered twice, and cannot
/// be resolved once it is unregistered; and each of these keeps the invariant
/// of the registry.
pub proof fn law_registry_round_trip(
    registry: Registry,
    name: Seq<char>,
    path: Seq<char>,
    other: Seq<char>,
)
    requires
        registry.wf(),
    ensures
        registry.register(name, path) matches Ok(after) ==> after.wf() && after.resolve(name)
            == Ok::<Seq<char>, ErrorView>(path) && after.register(name, other) == Err::<
            Registry,
            ErrorView,
        >(ErrorView::AlreadyRegistered { name }),
        registry.unregister(name).wf(),
        registry.unregister(name).resolve(name) == Err::<Seq<char>, ErrorView>(
            ErrorView::UnknownPackage { name },
        ),
        registry.set_default(name) matches Ok(after) ==> after.wf() && after.default == Some(name),
{
}

} // verus!
