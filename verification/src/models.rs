//! The catalog's data model: entries, categories, the persisted document,
//! and the id lookups every operation builds on.

use vstd::prelude::*;

verus! {

/// The update-tracking block of one entry: the version and file fingerprint
/// captured when tracking was initialized, and the bookkeeping of the last
/// check.
#[derive(Clone)]
pub struct UpdateMetadata {
    pub baseline_version: Option<String>,
    pub baseline_file_size: Option<u64>,
    pub baseline_modified_time: Option<u64>,
    pub last_checked_at: Option<u64>,
    pub update_status: Option<String>,
    pub update_confidence: Option<String>,
}

/// A tracked launchable target: identity, display metadata, an optional
/// icon-asset reference, and an optional update-tracking baseline.
pub struct App {
    pub id: String,
    pub name: String,
    pub path: String,
    pub category: String,
    pub icon: Option<String>,
    pub last_launched: Option<u64>,
    pub created_at: u64,
    pub update_metadata: Option<UpdateMetadata>,
}

/// A named, ordered grouping of entries; `apps` holds the ids of its
/// members.
pub struct Category {
    pub id: String,
    pub name: String,
    pub icon: Option<String>,
    pub apps: Vec<String>,
    pub order: usize,
}

/// The persisted catalog document: a schema version tag, the categories and
/// entries, and a settings bag that is opaque to this core (the shell keeps
/// it serialized).
///
/// Both id-keyed collections are held in insertion order, so batch
/// operations iterate in a fixed order and their error lists are
/// reproducible; well-formedness asks that ids be unique.
pub struct Config {
    pub version: String,
    pub categories: Vec<Category>,
    pub apps: Vec<App>,
    pub settings: String,
}

/// True when some entry of `apps` carries the id `id`.
pub open spec fn has_app_id(apps: Seq<App>, id: Seq<char>) -> bool {
    exists|i: int| 0 <= i < apps.len() && apps[i].id@ == id
}

/// True when some category of `cats` carries the id `id`.
pub open spec fn has_cat_id(cats: Seq<Category>, id: Seq<char>) -> bool {
    exists|i: int| 0 <= i < cats.len() && cats[i].id@ == id
}

/// Entry ids are pairwise distinct.
pub open spec fn apps_wf(apps: Seq<App>) -> bool {
    forall|i: int, j: int| 0 <= i < j < apps.len() ==> apps[i].id@ != apps[j].id@
}

/// Category ids are pairwise distinct.
pub open spec fn cats_wf(cats: Seq<Category>) -> bool {
    forall|i: int, j: int| 0 <= i < j < cats.len() ==> cats[i].id@ != cats[j].id@
}

impl Config {
    /// The document's well-formedness: globally unique entry ids and
    /// category ids.
    pub open spec fn wf(self) -> bool {
        apps_wf(self.apps@) && cats_wf(self.categories@)
    }
}

impl Default for Config {
    /// The empty default document that `load` synthesizes when nothing is
    /// on disk: version tag `1.0`, no categories, no entries, and an empty
    /// settings bag for the shell to fill with its defaults.
    fn default() -> (r: Config)
        ensures
            r.version@ == "1.0"@,
            r.categories@.len() == 0,
            r.apps@.len() == 0,
            r.settings@.len() == 0,
            r.wf(),
    {
        Config {
            version: String::from_str("1.0"),
            categories: Vec::new(),
            apps: Vec::new(),
            settings: String::new(),
        }
    }
}

/// The position of the entry with id `id`, scanning in insertion order.
pub fn find_app_index(apps: &Vec<App>, id: &str) -> (r: Option<usize>)
    ensures
        match r {
            Some(i) => i < apps@.len() && apps@[i as int].id@ == id@ && (forall|j: int|
                0 <= j < i ==> apps@[j].id@ != id@),
            None => !has_app_id(apps@, id@),
        },
{
    let mut i: usize = 0;
    while i < apps.len()
        invariant
            i <= apps@.len(),
            forall|j: int| 0 <= j < i ==> apps@[j].id@ != id@,
        decreases apps@.len() - i,
    {
        if crate::strutil::str_eq(apps[i].id.as_str(), id) {
            return Some(i);
        }
        i += 1;
    }
    None
}

/// The position of the category with id `id`, scanning in insertion order.
pub fn find_cat_index(cats: &Vec<Category>, id: &str) -> (r: Option<usize>)
    ensures
        match r {
            Some(i) => i < cats@.len() && cats@[i as int].id@ == id@ && (forall|j: int|
                0 <= j < i ==> cats@[j].id@ != id@),
            None => !has_cat_id(cats@, id@),
        },
{
    let mut i: usize = 0;
    while i < cats.len()
        invariant
            i <= cats@.len(),
            forall|j: int| 0 <= j < i ==> cats@[j].id@ != id@,
        decreases cats@.len() - i,
    {
        if crate::strutil::str_eq(cats[i].id.as_str(), id) {
            return Some(i);
        }
        i += 1;
    }
    None
}

} // verus!
