//! The package records that search, ranking and discovery work on.
use vstd::prelude::*;

verus! {

/// Where a package comes from: the kind of source ("repo", "aur", "flatpak", "local"),
/// the repository or remote id, the version there and a label for the UI.
#[derive(Debug, Clone)]
pub struct PackageSource {
    pub source_type: String,
    pub id: String,
    pub version: String,
    pub label: String,
    pub package_name: Option<String>,
}

/// A package as shown in the store.
#[derive(Debug, Clone)]
pub struct Package {
    pub name: String,
    pub display_name: Option<String>,
    pub description: String,
    pub version: String,
    pub source: PackageSource,
    pub installed: bool,
    pub app_id: Option<String>,
    pub icon: Option<String>,
    pub keywords: Option<Vec<String>>,
    pub canonical_id: String,
    pub available_sources: Option<Vec<PackageSource>>,
    pub is_featured: Option<bool>,
    pub maintainer: Option<String>,
    pub url: Option<String>,
}

/// One installable variant of a package, from one source: its version, the repository it
/// comes from when that is Chaotic-AUR, the package name there, sizes, maintainer, licence,
/// description, screenshots and security summary, where known.
#[derive(Debug, Clone)]
pub struct PackageVariant {
    pub source: PackageSource,
    pub version: String,
    pub repo_name: Option<String>,
    pub pkg_name: Option<String>,
    pub download_size: Option<u64>,
    pub installed_size: Option<u64>,
    pub maintainer: Option<String>,
    pub license: Option<Vec<String>>,
    pub description: Option<String>,
    pub screenshots: Option<Vec<String>>,
    pub security: Option<crate::package::PackageSecuritySummary>,
}

impl PackageSource {
    /// A source with no separate package name.
    pub fn new(source_type: &str, id: &str, version: &str, label: &str) -> (r: Self)
        ensures
            r.source_type@ == source_type@,
            r.id@ == id@,
            r.version@ == version@,
            r.label@ == label@,
            r.package_name is None,
    {
        PackageSource {
            source_type: String::from_str(source_type),
            id: String::from_str(id),
            version: String::from_str(version),
            label: String::from_str(label),
            package_name: None,
        }
    }

    /// A source that names the package it provides.
    pub fn new_with_name(source_type: &str, id: &str, version: &str, label: &str, name: &str) -> (r: Self)
        ensures
            r.source_type@ == source_type@,
            r.id@ == id@,
            r.version@ == version@,
            r.label@ == label@,
            r.package_name matches Some(n) && n@ == name@,
    {
        PackageSource {
            source_type: String::from_str(source_type),
            id: String::from_str(id),
            version: String::from_str(version),
            label: String::from_str(label),
            package_name: Some(String::from_str(name)),
        }
    }
}

impl Package {
    /// A package with the given name, description, version and source and nothing else
    /// known: not installed, no display name, app id, icon or keywords.
    pub fn basic(name: String, description: String, version: String, source: PackageSource) -> (r: Self)
        ensures
            r.name == name,
            r.description == description,
            r.version == version,
            r.source == source,
            !r.installed,
            r.display_name is None,
            r.app_id is None,
            r.icon is None,
            r.keywords is None,
            r.canonical_id@ == Seq::<char>::empty(),
            r.available_sources is None,
            r.is_featured is None,
            r.maintainer is None,
            r.url is None,
    {
        Package {
            name,
            display_name: None,
            description,
            version,
            source,
            installed: false,
            app_id: None,
            icon: None,
            keywords: None,
            canonical_id: String::new(),
            available_sources: None,
            is_featured: None,
            maintainer: None,
            url: None,
        }
    }
}

/// The characters of an optional string.
pub open spec fn opt_str(o: Option<String>) -> Option<Seq<char>> {
    match o {
        Some(s) => Some(s@),
        None => None,
    }
}

/// Two sources with the same fields.
pub open spec fn same_source(a: PackageSource, b: PackageSource) -> bool {
    a.source_type@ == b.source_type@ && a.id@ == b.id@ && a.version@ == b.version@ && a.label@
        == b.label@ && opt_str(a.package_name) == opt_str(b.package_name)
}

/// Two lists of sources with the same fields.
pub open spec fn same_sources(a: Seq<PackageSource>, b: Seq<PackageSource>) -> bool {
    a.len() == b.len() && forall|i: int| 0 <= i < a.len() ==> same_source(#[trigger] a[i], b[i])
}

/// Two packages with the same fields.
pub open spec fn same_package(a: Package, b: Package) -> bool {
    &&& a.name@ == b.name@
    &&& opt_str(a.display_name) == opt_str(b.display_name)
    &&& a.description@ == b.description@
    &&& a.version@ == b.version@
    &&& same_source(a.source, b.source)
    &&& a.installed == b.installed
    &&& opt_str(a.app_id) == opt_str(b.app_id)
    &&& opt_str(a.icon) == opt_str(b.icon)
    &&& match (a.keywords, b.keywords) {
        (Some(x), Some(y)) => x@.map_values(|s: String| s@) == y@.map_values(|s: String| s@),
        (None, None) => true,
        _ => false,
    }
    &&& a.canonical_id@ == b.canonical_id@
    &&& match (a.available_sources, b.available_sources) {
        (Some(x), Some(y)) => same_sources(x@, y@),
        (None, None) => true,
        _ => false,
    }
    &&& a.is_featured == b.is_featured
    &&& opt_str(a.maintainer) == opt_str(b.maintainer)
    &&& opt_str(a.url) == opt_str(b.url)
}

fn copy_opt(o: &Option<String>) -> (r: Option<String>)
    ensures
        opt_str(r) == opt_str(*o),
{
    match o {
        Some(s) => Some(s.clone()),
        None => None,
    }
}

fn copy_strings(v: &Vec<String>) -> (r: Vec<String>)
    ensures
        r@.map_values(|s: String| s@) == v@.map_values(|s: String| s@),
{
    let mut out: Vec<String> = Vec::new();
    let mut i: usize = 0;
    while i < v.len()
        invariant
            0 <= i <= v@.len(),
            out@.map_values(|s: String| s@) == v@.take(i as int).map_values(|s: String| s@),
        decreases v@.len() - i,
    {
        out.push(v[i].clone());
        assert(v@.take(i + 1).map_values(|s: String| s@) == v@.take(i as int).map_values(
            |s: String| s@,
        ).push(v@[i as int]@));
        i += 1;
    }
    assert(v@.take(v@.len() as int) == v@);
    out
}

impl PackageSource {
    /// A copy of this source.
    pub fn copy(&self) -> (r: PackageSource)
        ensures
            same_source(r, *self),
    {
        PackageSource {
            source_type: self.source_type.clone(),
            id: self.id.clone(),
            version: self.version.clone(),
            label: self.label.clone(),
            package_name: copy_opt(&self.package_name),
        }
    }
}

fn copy_sources(v: &Vec<PackageSource>) -> (r: Vec<PackageSource>)
    ensures
        same_sources(r@, v@),
{
    let mut out: Vec<PackageSource> = Vec::new();
    let mut i: usize = 0;
    while i < v.len()
        invariant
            0 <= i <= v@.len(),
            out@.len() == i,
            forall|k: int| 0 <= k < i ==> same_source(#[trigger] out@[k], v@[k]),
        decreases v@.len() - i,
    {
        out.push(v[i].copy());
        i += 1;
    }
    out
}

impl Package {
    /// A copy of this package.
    pub fn copy(&self) -> (r: Package)
        ensures
            same_package(r, *self),
    {
        Package {
            name: self.name.clone(),
            display_name: copy_opt(&self.display_name),
            description: self.description.clone(),
            version: self.version.clone(),
            source: self.source.copy(),
            installed: self.installed,
            app_id: copy_opt(&self.app_id),
            icon: copy_opt(&self.icon),
            keywords: match &self.keywords {
                Some(k) => Some(copy_strings(k)),
                None => None,
            },
            canonical_id: self.canonical_id.clone(),
            available_sources: match &self.available_sources {
                Some(v) => Some(copy_sources(v)),
                None => None,
            },
            is_featured: self.is_featured,
            maintainer: copy_opt(&self.maintainer),
            url: copy_opt(&self.url),
        }
    }
}

} // verus!
