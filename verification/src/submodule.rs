//! The submodule configuration format.
//!
//! A configuration is a TOML document holding an array of tables named
//! `submodule`; each table gives the `name`, `url` and `commit` of one
//! repository:
//!
//! ```toml
//! [[submodule]]
//! name = "nixos"
//! url = "https://github.com/Noratrieb/nixos.git"
//! commit = "c5b2fc10b9266b105d792d958b8f13479866a7bd"
//! ```

use vstd::prelude::*;

use crate::text::str_equal;

verus! {

/// `toml::Value`, carried through unread.
#[verifier::external_type_specification]
#[verifier::external_body]
pub struct ExTomlValue(toml::Value);

/// `toml::de::Error`, the error of a TOML parse.
#[verifier::external_type_specification]
#[verifier::external_body]
pub struct ExTomlError(toml::de::Error);

/// What this library reads of a TOML value: strings, arrays and tables,
/// in the order in which the document holds them. Every other kind of
/// value (integers, floats, booleans, datetimes) is `Other`.
pub enum TomlValue {
    Str(String),
    Array(Vec<TomlValue>),
    Table(Vec<(String, TomlValue)>),
    Other,
}

impl TomlValue {
    /// Turns a parsed `toml::Value` into the library's model of it, one for
    /// one: strings, arrays and tables keep their contents and order (a
    /// table's entries come in the order of its map, which the `toml` crate
    /// keeps sorted by key), every other value becomes `Other`. It makes no
    /// call of its own and has no contract: it is the conversion half of
    /// `parse_toml_table`, written as a function because it recurses.
    #[verifier::external_body]
    fn from_toml(value: toml::Value) -> TomlValue {
        match value {
            toml::Value::String(s) => TomlValue::Str(s),
            toml::Value::Array(items) => TomlValue::Array(
                items.into_iter().map(TomlValue::from_toml).collect(),
            ),
            toml::Value::Table(t) => TomlValue::Table(
                t.into_iter().map(|(k, v)| (k, TomlValue::from_toml(v))).collect(),
            ),
            _ => TomlValue::Other,
        }
    }
}

/// The top-level table that the TOML parser of the `toml` crate reads from
/// `text`, as entries of the library's model, or `None` where it refuses
/// the text.
pub uninterp spec fn toml_document(text: Seq<char>) -> Option<Seq<(String, TomlValue)>>;

/// Parses `text` with `<toml::Table as FromStr>::from_str` and hands back its
/// entries. Claimed: the outcome is a function of the text alone, named
/// `toml_document`; nothing more is said of which texts the parser accepts.
#[verifier::external_body]
fn parse_toml_table(text: &str) -> (res: Result<Vec<(String, TomlValue)>, toml::de::Error>)
    ensures
        match res {
            Ok(entries) => toml_document(text@) == Some(entries@),
            Err(_) => toml_document(text@) is None,
        },
{
    text.parse::<toml::Table>().map(
        |t| t.into_iter().map(|(k, v)| (k, TomlValue::from_toml(v))).collect(),
    )
}

/// The three string fields of a submodule table.
#[derive(Debug, Clone, Copy, PartialEq, Eq, Structural)]
pub enum Field {
    Name,
    Url,
    Commit,
}

/// Why a submodule configuration was refused.
#[derive(Debug, Clone, Copy, PartialEq, Eq, Structural)]
pub enum SubmoduleError {
    /// The text is not a TOML document.
    InvalidToml,
    /// There is no top-level `submodule` key.
    NoSubmoduleTables,
    /// `submodule` is not an array.
    NotAnArray,
    /// An element of the `submodule` array is not a table.
    NotATable,
    /// A submodule table lacks this field.
    Missing(Field),
    /// This field of a submodule table is not a string.
    NotAString(Field),
}

/// The key under which a field is stored.
pub open spec fn field_key(f: Field) -> Seq<char> {
    match f {
        Field::Name => "name"@,
        Field::Url => "url"@,
        Field::Commit => "commit"@,
    }
}

/// The value stored under `key` among `entries[i..]`, the first one where a
/// key occurs more than once.
pub open spec fn lookup_from(entries: Seq<(String, TomlValue)>, key: Seq<char>, i: int) -> Option<
    TomlValue,
>
    decreases entries.len() - i,
{
    if i < 0 || i >= entries.len() {
        None
    } else if entries[i].0@ == key {
        Some(entries[i].1)
    } else {
        lookup_from(entries, key, i + 1)
    }
}

/// The value of a table stored under `key`.
pub open spec fn lookup(entries: Seq<(String, TomlValue)>, key: Seq<char>) -> Option<TomlValue> {
    lookup_from(entries, key, 0)
}

/// What a submodule table holds, as (name, url, commit).
pub type SyncConfigView = (Seq<char>, Seq<char>, Seq<char>);

/// The string stored in a table under a field's key.
pub open spec fn string_field(entries: Seq<(String, TomlValue)>, f: Field) -> Result<
    Seq<char>,
    SubmoduleError,
> {
    match lookup(entries, field_key(f)) {
        None => Err(SubmoduleError::Missing(f)),
        Some(TomlValue::Str(s)) => Ok(s@),
        Some(_) => Err(SubmoduleError::NotAString(f)),
    }
}

/// The configuration one element of the `submodule` array describes; the
/// fields are read in the order name, url, commit, and the first that fails
/// decides the error.
pub open spec fn config_of(item: TomlValue) -> Result<SyncConfigView, SubmoduleError> {
    match item {
        TomlValue::Table(entries) => match string_field(entries@, Field::Name) {
            Err(e) => Err(e),
            Ok(name) => match string_field(entries@, Field::Url) {
                Err(e) => Err(e),
                Ok(url) => match string_field(entries@, Field::Commit) {
                    Err(e) => Err(e),
                    Ok(commit) => Ok((name, url, commit)),
                },
            },
        },
        _ => Err(SubmoduleError::NotATable),
    }
}

/// `prefix` put in front of the configurations of a successful read.
pub open spec fn prepend(prefix: Seq<SyncConfigView>, r: Result<Seq<SyncConfigView>, SubmoduleError>) -> Result<
    Seq<SyncConfigView>,
    SubmoduleError,
> {
    match r {
        Ok(rest) => Ok(prefix + rest),
        Err(e) => Err(e),
    }
}

/// The configurations of `items[i..]`, in order, or the error of the first
/// element that is refused.
pub open spec fn configs_from(items: Seq<TomlValue>, i: int) -> Result<
    Seq<SyncConfigView>,
    SubmoduleError,
>
    decreases items.len() - i,
{
    if i < 0 || i >= items.len() {
        Ok(seq![])
    } else {
        match config_of(items[i]) {
            Err(e) => Err(e),
            Ok(c) => prepend(seq![c], configs_from(items, i + 1)),
        }
    }
}

/// What a TOML document describes: the configurations of the elements of its
/// `submodule` array, in order.
pub open spec fn submodules_of(doc: Seq<(String, TomlValue)>) -> Result<
    Seq<SyncConfigView>,
    SubmoduleError,
> {
    match lookup(doc, "submodule"@) {
        None => Err(SubmoduleError::NoSubmoduleTables),
        Some(TomlValue::Array(items)) => configs_from(items@, 0),
        Some(_) => Err(SubmoduleError::NotAnArray),
    }
}

/// A read of `items[i..]` that succeeds yields one configuration per
/// element, in order, each the one that element describes.
pub proof fn law_one_config_per_element(items: Seq<TomlValue>, i: int)
    requires
        0 <= i <= items.len(),
        configs_from(items, i) is Ok,
    ensures
        ({
            let v = configs_from(items, i)->Ok_0;
            &&& v.len() == items.len() - i
            &&& forall|j: int|
                i <= j < items.len() ==> config_of(#[trigger] items[j]) == Ok::<
                    SyncConfigView,
                    SubmoduleError,
                >(v[j - i])
        }),
    decreases items.len() - i,
{
    if i < items.len() {
        law_one_config_per_element(items, i + 1);
        let v = configs_from(items, i)->Ok_0;
        let rest = configs_from(items, i + 1)->Ok_0;
        let c = config_of(items[i])->Ok_0;
        assert(v == seq![c] + rest);
        assert forall|j: int| i <= j < items.len() implies config_of(#[trigger] items[j]) == Ok::<
            SyncConfigView,
            SubmoduleError,
        >(v[j - i]) by {
            if j > i {
                assert(v[j - i] == rest[j - (i + 1)]);
            }
        }
    }
}

/// A read of `items[i..]` that fails, fails with the error of the first
/// element that is refused; every element before it is accepted.
pub proof fn law_first_refusal_decides(items: Seq<TomlValue>, i: int)
    requires
        0 <= i <= items.len(),
        configs_from(items, i) is Err,
    ensures
        exists|k: int|
            i <= k < items.len() && config_of(#[trigger] items[k]) == Err::<SyncConfigView, SubmoduleError>(
                configs_from(items, i)->Err_0,
            ) && forall|j: int| i <= j < k ==> (#[trigger] config_of(items[j])) is Ok,
    decreases items.len() - i,
{
    if config_of(items[i]) is Err {
        assert(i <= i < items.len() && config_of(items[i]) == Err::<SyncConfigView, SubmoduleError>(
            configs_from(items, i)->Err_0,
        ) && forall|j: int| i <= j < i ==> (#[trigger] config_of(items[j])) is Ok);
    } else {
        law_first_refusal_decides(items, i + 1);
        let k = choose|k: int|
            i + 1 <= k < items.len() && config_of(#[trigger] items[k]) == Err::<SyncConfigView, SubmoduleError>(
                configs_from(items, i + 1)->Err_0,
            ) && forall|j: int| i + 1 <= j < k ==> (#[trigger] config_of(items[j])) is Ok;
        assert(forall|j: int| i <= j < k ==> (#[trigger] config_of(items[j])) is Ok);
    }
}

/// Whether two values describe the same submodule: both tables holding the
/// same values under `name`, `url` and `commit`, whatever else they hold, or
/// both something other than a table.
pub open spec fn same_fields(a: TomlValue, b: TomlValue) -> bool {
    match (a, b) {
        (TomlValue::Table(x), TomlValue::Table(y)) => {
            &&& lookup(x@, field_key(Field::Name)) == lookup(y@, field_key(Field::Name))
            &&& lookup(x@, field_key(Field::Url)) == lookup(y@, field_key(Field::Url))
            &&& lookup(x@, field_key(Field::Commit)) == lookup(y@, field_key(Field::Commit))
        },
        (TomlValue::Table(_), _) => false,
        (_, TomlValue::Table(_)) => false,
        _ => true,
    }
}

/// Whether two values stored under `submodule` describe the same
/// submodules: both missing, both arrays of the same length whose elements
/// describe the same submodules pairwise, or both present and not arrays.
pub open spec fn same_submodules(a: Option<TomlValue>, b: Option<TomlValue>) -> bool {
    match (a, b) {
        (None, None) => true,
        (Some(TomlValue::Array(x)), Some(TomlValue::Array(y))) => x@.len() == y@.len() && forall|i: int|
            0 <= i < x@.len() ==> same_fields(#[trigger] x@[i], y@[i]),
        (Some(TomlValue::Array(_)), _) => false,
        (_, Some(TomlValue::Array(_))) => false,
        (Some(_), Some(_)) => true,
        _ => false,
    }
}

proof fn configs_agree(x: Seq<TomlValue>, y: Seq<TomlValue>, i: int)
    requires
        0 <= i <= x.len(),
        x.len() == y.len(),
        forall|j: int| 0 <= j < x.len() ==> same_fields(#[trigger] x[j], y[j]),
    ensures
        configs_from(x, i) == configs_from(y, i),
    decreases x.len() - i,
{
    if i < x.len() {
        configs_agree(x, y, i + 1);
        assert(same_fields(x[i], y[i]));
        assert(config_of(x[i]) == config_of(y[i]));
    }
}

/// Only what the reader looks at decides a configuration: two documents
/// whose `submodule` entries describe the same submodules, however many
/// other keys either holds at the top level or in the submodule tables,
/// are read alike.
pub proof fn law_other_keys_do_not_matter(d1: Seq<(String, TomlValue)>, d2: Seq<(String, TomlValue)>)
    requires
        same_submodules(lookup(d1, "submodule"@), lookup(d2, "submodule"@)),
    ensures
        submodules_of(d1) == submodules_of(d2),
{
    match (lookup(d1, "submodule"@), lookup(d2, "submodule"@)) {
        (Some(TomlValue::Array(x)), Some(TomlValue::Array(y))) => {
            configs_agree(x@, y@, 0);
        },
        _ => {},
    }
}

proof fn lookup_after_insert_shifted(
    e: Seq<(String, TomlValue)>,
    key: Seq<char>,
    i: int,
    entry: (String, TomlValue),
    m: int,
)
    requires
        0 <= i <= m <= e.len(),
    ensures
        lookup_from(e.insert(i, entry), key, m + 1) == lookup_from(e, key, m),
    decreases e.len() - m,
{
    if m < e.len() {
        lookup_after_insert_shifted(e, key, i, entry, m + 1);
        assert(e.insert(i, entry)[m + 1] == e[m]);
    }
}

proof fn lookup_after_insert(
    e: Seq<(String, TomlValue)>,
    key: Seq<char>,
    i: int,
    entry: (String, TomlValue),
    j: int,
)
    requires
        0 <= j <= i <= e.len(),
        entry.0@ != key,
    ensures
        lookup_from(e.insert(i, entry), key, j) == lookup_from(e, key, j),
    decreases i - j,
{
    if j < i {
        lookup_after_insert(e, key, i, entry, j + 1);
        assert(e.insert(i, entry)[j] == e[j]);
    } else {
        lookup_after_insert_shifted(e, key, i, entry, i);
        assert(e.insert(i, entry)[i] == entry);
    }
}

/// Adding an entry under another key, anywhere in a table, leaves what the
/// table holds under `key` as it was.
pub proof fn law_other_entry_keeps_lookup(
    e: Seq<(String, TomlValue)>,
    key: Seq<char>,
    i: int,
    entry: (String, TomlValue),
)
    requires
        0 <= i <= e.len(),
        entry.0@ != key,
    ensures
        lookup(e.insert(i, entry), key) == lookup(e, key),
{
    lookup_after_insert(e, key, i, entry, 0);
}

/// One repository to keep checked out.
pub struct SyncConfig {
    name: String,
    url: String,
    commit: String,
}

impl View for SyncConfig {
    type V = SyncConfigView;

    closed spec fn view(&self) -> SyncConfigView {
        (self.name@, self.url@, self.commit@)
    }
}

impl SyncConfig {
    /// The directory name of the checkout.
    pub fn name(&self) -> (res: &str)
        ensures
            res@ == self@.0,
    {
        self.name.as_str()
    }

    /// Where the repository is cloned from.
    pub fn url(&self) -> (res: &str)
        ensures
            res@ == self@.1,
    {
        self.url.as_str()
    }

    /// The commit the checkout must be at.
    pub fn commit(&self) -> (res: &str)
        ensures
            res@ == self@.2,
    {
        self.commit.as_str()
    }
}

/// The submodules a configuration names, in the order of the document.
pub struct Submodules {
    configs: Vec<SyncConfig>,
}

impl View for Submodules {
    type V = Seq<SyncConfigView>;

    closed spec fn view(&self) -> Seq<SyncConfigView> {
        self.configs@.map_values(|c: SyncConfig| c@)
    }
}

/// The key a field is stored under.
fn field_key_str(f: Field) -> (res: &'static str)
    ensures
        res@ == field_key(f),
{
    match f {
        Field::Name => "name",
        Field::Url => "url",
        Field::Commit => "commit",
    }
}

/// The value of a table stored under `key`.
fn lookup_exec<'a>(entries: &'a Vec<(String, TomlValue)>, key: &str) -> (res: Option<&'a TomlValue>)
    ensures
        match res {
            Some(v) => lookup(entries@, key@) == Some(*v),
            None => lookup(entries@, key@) is None,
        },
{
    let mut i: usize = 0;
    while i < entries.len()
        invariant
            i <= entries.len(),
            lookup(entries@, key@) == lookup_from(entries@, key@, i as int),
        decreases entries.len() - i,
    {
        if str_equal(entries[i].0.as_str(), key) {
            return Some(&entries[i].1);
        }
        i = i + 1;
    }
    None
}

/// The string stored in a table under a field's key.
fn string_field_exec(entries: &Vec<(String, TomlValue)>, f: Field) -> (res: Result<String, SubmoduleError>)
    ensures
        match res {
            Ok(s) => string_field(entries@, f) == Ok::<Seq<char>, SubmoduleError>(s@),
            Err(e) => string_field(entries@, f) == Err::<Seq<char>, SubmoduleError>(e),
        },
{
    match lookup_exec(entries, field_key_str(f)) {
        None => Err(SubmoduleError::Missing(f)),
        Some(TomlValue::Str(s)) => Ok(s.clone()),
        Some(_) => Err(SubmoduleError::NotAString(f)),
    }
}

impl SyncConfig {
    /// Reads one element of the `submodule` array.
    fn from_value(item: &TomlValue) -> (res: Result<SyncConfig, SubmoduleError>)
        ensures
            match res {
                Ok(c) => config_of(*item) == Ok::<SyncConfigView, SubmoduleError>(c@),
                Err(e) => config_of(*item) == Err::<SyncConfigView, SubmoduleError>(e),
            },
    {
        match item {
            TomlValue::Table(entries) => {
                let name = match string_field_exec(entries, Field::Name) {
                    Ok(s) => s,
                    Err(e) => return Err(e),
                };
                let url = match string_field_exec(entries, Field::Url) {
                    Ok(s) => s,
                    Err(e) => return Err(e),
                };
                let commit = match string_field_exec(entries, Field::Commit) {
                    Ok(s) => s,
                    Err(e) => return Err(e),
                };
                Ok(SyncConfig { name, url, commit })
            },
            _ => Err(SubmoduleError::NotATable),
        }
    }
}

impl Submodules {
    /// The configurations, in the order of the document.
    pub fn configs(&self) -> (res: &Vec<SyncConfig>)
        ensures
            res@.map_values(|c: SyncConfig| c@) == self@,
    {
        &self.configs
    }

    /// Reads the submodules that a parsed TOML document describes.
    pub fn from_document(doc: &Vec<(String, TomlValue)>) -> (res: Result<Submodules, SubmoduleError>)
        ensures
            match submodules_of(doc@) {
                Ok(v) => res matches Ok(s) && s@ == v,
                Err(e) => res matches Err(x) && x == e,
            },
    {
        let items = match lookup_exec(doc, "submodule") {
            None => return Err(SubmoduleError::NoSubmoduleTables),
            Some(TomlValue::Array(items)) => items,
            Some(_) => return Err(SubmoduleError::NotAnArray),
        };
        let mut configs: Vec<SyncConfig> = Vec::new();
        let mut i: usize = 0;
        assert(configs@.map_values(|c: SyncConfig| c@) =~= Seq::<SyncConfigView>::empty());
        while i < items.len()
            invariant
                i <= items.len(),
                submodules_of(doc@) == configs_from(items@, 0),
                configs_from(items@, 0) == prepend(
                    configs@.map_values(|c: SyncConfig| c@),
                    configs_from(items@, i as int),
                ),
            decreases items.len() - i,
        {
            let c = match SyncConfig::from_value(&items[i]) {
                Ok(c) => c,
                Err(e) => {
                    assert(configs_from(items@, i as int) == Err::<Seq<SyncConfigView>, SubmoduleError>(e));
                    return Err(e);
                },
            };
            let ghost before = configs@.map_values(|c: SyncConfig| c@);
            configs.push(c);
            assert(configs@.map_values(|c: SyncConfig| c@) =~= before + seq![c@]);
            proof {
                match configs_from(items@, i + 1) {
                    Ok(rest) => {
                        assert(before + (seq![c@] + rest) =~= (before + seq![c@]) + rest);
                    },
                    Err(_) => {},
                }
            }
            i = i + 1;
        }
        let res = Submodules { configs };
        assert(prepend(res@, configs_from(items@, i as int)) == Ok::<Seq<SyncConfigView>, SubmoduleError>(
            res@ + Seq::<SyncConfigView>::empty(),
        ));
        assert(res@ + Seq::<SyncConfigView>::empty() =~= res@);
        Ok(res)
    }

    /// Parses a submodule configuration.
    pub fn parse(s: &str) -> (res: Result<Submodules, SubmoduleError>)
        ensures
            match toml_document(s@) {
                None => res matches Err(x) && x == SubmoduleError::InvalidToml,
                Some(doc) => match submodules_of(doc) {
                    Ok(v) => res matches Ok(m) && m@ == v,
                    Err(e) => res matches Err(x) && x == e,
                },
            },
    {
        match parse_toml_table(s) {
            Ok(doc) => Submodules::from_document(&doc),
            Err(_) => Err(SubmoduleError::InvalidToml),
        }
    }
}

} // verus!
