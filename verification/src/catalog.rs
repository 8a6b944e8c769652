//! Single-entity catalog mutations: creating categories and entries,
//! deleting an entry, and the duplicate-path query.
//!
//! Every mutation keeps the document well-formed (unique ids) and keeps an
//! entry's `category` field consistent with its owning category's member
//! list.

use vstd::prelude::*;
use crate::codec::fresh_id;
use crate::models::App;
use crate::models::Category;
use crate::models::Config;
use crate::models::find_app_index;
use crate::models::find_cat_index;
use crate::models::has_app_id;
use crate::models::has_cat_id;
use crate::CoreError;
use crate::sequtil::lemma_filter_push;
use crate::strutil::eq_ignore_ascii_case;
use crate::strutil::lower_seq;
use crate::strutil::starts_with;
use crate::strutil::str_eq;
use crate::strutil::str_starts_with;

verus! {

/// `i` is the position of the first entry with id `id`.
pub open spec fn is_first_app_index(apps: Seq<App>, id: Seq<char>, i: int) -> bool {
    &&& 0 <= i < apps.len()
    &&& apps[i].id@ == id
    &&& forall|j: int| 0 <= j < i ==> apps[j].id@ != id
}

/// The position of the first entry with id `id`.
pub open spec fn first_app_index(apps: Seq<App>, id: Seq<char>) -> int {
    choose|i: int| is_first_app_index(apps, id, i)
}

/// `i` is the position of the first category with id `id`.
pub open spec fn is_first_cat_index(cats: Seq<Category>, id: Seq<char>, i: int) -> bool {
    &&& 0 <= i < cats.len()
    &&& cats[i].id@ == id
    &&& forall|j: int| 0 <= j < i ==> cats[j].id@ != id
}

/// The position of the first category with id `id`.
pub open spec fn first_cat_index(cats: Seq<Category>, id: Seq<char>) -> int {
    choose|i: int| is_first_cat_index(cats, id, i)
}

pub proof fn lemma_first_app_index_unique(apps: Seq<App>, id: Seq<char>, i: int, j: int)
    requires
        is_first_app_index(apps, id, i),
        is_first_app_index(apps, id, j),
    ensures
        i == j,
{
    if i < j {
        assert(apps[i].id@ != id);
    }
    if j < i {
        assert(apps[j].id@ != id);
    }
}

pub proof fn lemma_first_cat_index_unique(cats: Seq<Category>, id: Seq<char>, i: int, j: int)
    requires
        is_first_cat_index(cats, id, i),
        is_first_cat_index(cats, id, j),
    ensures
        i == j,
{
    if i < j {
        assert(cats[i].id@ != id);
    }
    if j < i {
        assert(cats[j].id@ != id);
    }
}

/// The entries after a keyed insert of `a`: the first entry already
/// carrying `a`'s id is replaced, or `a` is appended when the id is new.
pub open spec fn app_upserted(before: Seq<App>, after: Seq<App>, a: App) -> bool {
    if has_app_id(before, a.id@) {
        after == before.update(first_app_index(before, a.id@), a)
    } else {
        after == before.push(a)
    }
}

/// `c1` is `c0` with `c1.apps` differing as stated and every other field
/// kept; `c1.apps` holds `c0`'s members followed by `app_id`.
pub open spec fn cat_with_member(c0: Category, c1: Category, app_id: Seq<char>) -> bool {
    &&& c1.id == c0.id
    &&& c1.name == c0.name
    &&& c1.icon == c0.icon
    &&& c1.order == c0.order
    &&& c1.apps@.len() == c0.apps@.len() + 1
    &&& forall|j: int| 0 <= j < c0.apps@.len() ==> c1.apps@[j] == c0.apps@[j]
    &&& c1.apps@[c0.apps@.len() as int]@ == app_id
}

/// The categories after `app_id` joins `category_id`'s member list: the
/// first category with that id gains the member; with no such category,
/// nothing changes.
pub open spec fn member_added(
    before: Seq<Category>,
    after: Seq<Category>,
    category_id: Seq<char>,
    app_id: Seq<char>,
) -> bool {
    if has_cat_id(before, category_id) {
        let i = first_cat_index(before, category_id);
        &&& after.len() == before.len()
        &&& forall|j: int| 0 <= j < before.len() && j != i ==> after[j] == before[j]
        &&& cat_with_member(before[i], after[i], app_id)
    } else {
        after == before
    }
}

/// The member predicate a deletion filters with: keep every id other than
/// the deleted one.
pub open spec fn ne_id(id: Seq<char>) -> spec_fn(String) -> bool {
    |m: String| m@ != id
}

/// `c1` is `c0` with the member `id` removed (every occurrence) and every
/// other field kept.
pub open spec fn cat_purged(c0: Category, c1: Category, id: Seq<char>) -> bool {
    &&& c1.id == c0.id
    &&& c1.name == c0.name
    &&& c1.icon == c0.icon
    &&& c1.order == c0.order
    &&& c1.apps@ == c0.apps@.filter(ne_id(id))
}

/// A category's member list with every occurrence of `id` removed.
fn purged_members(members: &Vec<String>, id: &str) -> (out: Vec<String>)
    ensures
        out@ == members@.filter(ne_id(id@)),
{
    let n = members.len();
    let mut out: Vec<String> = Vec::new();
    let mut j: usize = 0;
    while j < n
        invariant
            j <= n,
            n == members@.len(),
            out@ == members@.take(j as int).filter(ne_id(id@)),
        decreases n - j,
    {
        proof {
            assert(members@.take(j + 1) =~= members@.take(j as int).push(members@[j as int]));
            lemma_filter_push(members@.take(j as int), ne_id(id@), members@[j as int]);
        }
        if !str_eq(members[j].as_str(), id) {
            out.push(members[j].clone());
        }
        j += 1;
    }
    proof {
        assert(members@.take(n as int) =~= members@);
    }
    out
}

/// Creates a category under a freshly generated id: the given name, no
/// icon, an empty member list, and an order index equal to the number of
/// categories before the call.  The stored category and the returned one
/// agree field for field.  Should the generated id collide with an
/// existing one, the new category replaces the old, as a keyed insert
/// would.
pub fn add_category(config: &mut Config, name: String) -> (r: Category)
    requires
        old(config).wf(),
    ensures
        final(config).wf(),
        final(config).apps == old(config).apps,
        final(config).version == old(config).version,
        final(config).settings == old(config).settings,
        r.name@ == name@,
        r.icon is None,
        r.apps@.len() == 0,
        r.order == old(config).categories@.len(),
        r.id@.len() == 36,
        cat_upserted(old(config).categories@, final(config).categories@, r),
{
    let id = fresh_id();
    let order = config.categories.len();
    let stored = Category {
        id: id.clone(),
        name: name.clone(),
        icon: None,
        apps: Vec::new(),
        order,
    };
    let returned = Category { id, name, icon: None, apps: Vec::new(), order };
    let ghost cats0 = config.categories@;
    match find_cat_index(&config.categories, stored.id.as_str()) {
        Some(i) => {
            proof {
                assert(is_first_cat_index(cats0, stored.id@, i as int));
                lemma_first_cat_index_unique(
                    cats0,
                    stored.id@,
                    i as int,
                    first_cat_index(cats0, stored.id@),
                );
            }
            let _ = config.categories.remove(i);
            config.categories.insert(i, stored);
            proof {
                assert(config.categories@ =~= cats0.update(
                    i as int,
                    config.categories@[i as int],
                ));
            }
        },
        None => {
            config.categories.push(stored);
        },
    }
    returned
}

/// The categories after a keyed insert of `c`: the first category already
/// carrying `c`'s id is replaced (field for field as `c` reads), or one
/// like `c` is appended when the id is new.
pub open spec fn cat_upserted(before: Seq<Category>, after: Seq<Category>, c: Category) -> bool {
    if has_cat_id(before, c.id@) {
        let i = first_cat_index(before, c.id@);
        &&& after.len() == before.len()
        &&& forall|j: int| 0 <= j < before.len() && j != i ==> after[j] == before[j]
        &&& cat_like(after[i], c)
    } else {
        &&& after.len() == before.len() + 1
        &&& forall|j: int| 0 <= j < before.len() ==> after[j] == before[j]
        &&& cat_like(after[before.len() as int], c)
    }
}

/// Two categories agree on every field (member lists by their views).
pub open spec fn cat_like(a: Category, b: Category) -> bool {
    &&& a.id == b.id
    &&& a.name == b.name
    &&& a.icon == b.icon
    &&& a.order == b.order
    &&& a.apps@ == b.apps@
}

/// Inserts a new entry into the catalog: stores it under the given id,
/// adds the id to the chosen category's member list (when that category
/// exists), and returns the stored entry.  The id is the caller's; a fresh
/// one makes this an append, while a colliding one replaces the entry that
/// carried it, as a keyed insert would.
pub fn add_app(
    config: &mut Config,
    id: String,
    name: String,
    path: String,
    category_id: String,
    icon: Option<String>,
    now: u64,
) -> (r: App)
    requires
        old(config).wf(),
    ensures
        final(config).wf(),
        final(config).version == old(config).version,
        final(config).settings == old(config).settings,
        r.id@ == id@,
        r.name@ == name@,
        r.path@ == path@,
        r.category@ == category_id@,
        r.icon == icon,
        r.last_launched is None,
        r.created_at == now,
        r.update_metadata is None,
        app_upserted(old(config).apps@, final(config).apps@, r),
        member_added(old(config).categories@, final(config).categories@, category_id@, id@),
{
    let returned = App {
        id: id.clone(),
        name: name.clone(),
        path: path.clone(),
        category: category_id.clone(),
        icon: match &icon {
            Some(s) => Some(s.clone()),
            None => None,
        },
        last_launched: None,
        created_at: now,
        update_metadata: None,
    };
    let stored = App {
        id: id.clone(),
        name,
        path,
        category: category_id.clone(),
        icon,
        last_launched: None,
        created_at: now,
        update_metadata: None,
    };
    let ghost apps0 = config.apps@;
    match find_app_index(&config.apps, id.as_str()) {
        Some(i) => {
            proof {
                assert(is_first_app_index(apps0, id@, i as int));
                lemma_first_app_index_unique(
                    apps0,
                    id@,
                    i as int,
                    first_app_index(apps0, id@),
                );
            }
            let _ = config.apps.remove(i);
            config.apps.insert(i, stored);
            proof {
                assert(config.apps@ =~= apps0.update(i as int, config.apps@[i as int]));
            }
        },
        None => {
            config.apps.push(stored);
        },
    }
    let ghost cats0 = config.categories@;
    match find_cat_index(&config.categories, category_id.as_str()) {
        Some(ci) => {
            proof {
                assert(is_first_cat_index(cats0, category_id@, ci as int));
                lemma_first_cat_index_unique(
                    cats0,
                    category_id@,
                    ci as int,
                    first_cat_index(cats0, category_id@),
                );
            }
            let mut cat = config.categories.remove(ci);
            cat.apps.push(id);
            config.categories.insert(ci, cat);
            proof {
                assert(config.categories@ =~= cats0.update(
                    ci as int,
                    config.categories@[ci as int],
                ));
            }
        },
        None => {},
    }
    returned
}

/// Removes the entry with the given id, drops the id from its owning
/// category's member list, and hands back the entry's icon-asset filename
/// when it had a file-based icon, for the shell to delete.  An unknown id
/// is the not-found error and leaves the document untouched.
pub fn delete_app(config: &mut Config, app_id: &str) -> (r: Result<Option<String>, CoreError>)
    requires
        old(config).wf(),
    ensures
        final(config).wf(),
        final(config).version == old(config).version,
        final(config).settings == old(config).settings,
        !has_app_id(old(config).apps@, app_id@) ==> final(config).apps == old(config).apps
            && final(config).categories == old(config).categories && (r matches Err(e) && e
            is NotFound),
        has_app_id(old(config).apps@, app_id@) ==> (r matches Ok(icon) && {
            let i = first_app_index(old(config).apps@, app_id@);
            let a = old(config).apps@[i];
            &&& final(config).apps@ == old(config).apps@.remove(i)
            &&& member_purged(
                old(config).categories@,
                final(config).categories@,
                a.category@,
                app_id@,
            )
            &&& file_based_icon(a) ==> (icon matches Some(f) && a.icon matches Some(ic) && f@
                == ic@)
            &&& !file_based_icon(a) ==> icon is None
        }),
{
    let ghost apps0 = config.apps@;
    let idx = match find_app_index(&config.apps, app_id) {
        Some(i) => i,
        None => {
            return Err(CoreError::NotFound);
        },
    };
    proof {
        assert(is_first_app_index(apps0, app_id@, idx as int));
        lemma_first_app_index_unique(
            apps0,
            app_id@,
            idx as int,
            first_app_index(apps0, app_id@),
        );
    }
    let app = config.apps.remove(idx);
    let ghost cats0 = config.categories@;
    match find_cat_index(&config.categories, app.category.as_str()) {
        Some(ci) => {
            proof {
                assert(is_first_cat_index(cats0, app.category@, ci as int));
                lemma_first_cat_index_unique(
                    cats0,
                    app.category@,
                    ci as int,
                    first_cat_index(cats0, app.category@),
                );
            }
            let mut cat = config.categories.remove(ci);
            cat.apps = purged_members(&cat.apps, app_id);
            config.categories.insert(ci, cat);
            proof {
                assert(config.categories@ =~= cats0.update(
                    ci as int,
                    config.categories@[ci as int],
                ));
            }
        },
        None => {},
    }
    match app.icon {
        Some(ic) => {
            if !str_starts_with(ic.as_str(), "data:") {
                Ok(Some(ic))
            } else {
                Ok(None)
            }
        },
        None => Ok(None),
    }
}

/// An icon reference that names an asset file rather than embedding the
/// image inline.
pub open spec fn file_based_icon(a: App) -> bool {
    a.icon matches Some(ic) && !starts_with(ic@, "data:"@)
}

/// The categories after `app_id` leaves `category_id`'s member list: the
/// first category with that id loses every occurrence of the member; with
/// no such category, nothing changes.
pub open spec fn member_purged(
    before: Seq<Category>,
    after: Seq<Category>,
    category_id: Seq<char>,
    app_id: Seq<char>,
) -> bool {
    if has_cat_id(before, category_id) {
        let i = first_cat_index(before, category_id);
        &&& after.len() == before.len()
        &&& forall|j: int| 0 <= j < before.len() && j != i ==> after[j] == before[j]
        &&& cat_purged(before[i], after[i], app_id)
    } else {
        after == before
    }
}

/// Whether some tracked entry already points at this path, compared
/// case-insensitively (ASCII fold): launch-target filesystems preserve
/// case but do not distinguish it.
pub fn check_app_exists(config: &Config, path: &str) -> (r: bool)
    ensures
        r == exists|i: int|
            0 <= i < config.apps@.len() && lower_seq(#[trigger] config.apps@[i].path@) == lower_seq(
                path@,
            ),
{
    let n = config.apps.len();
    let mut i: usize = 0;
    while i < n
        invariant
            i <= n,
            n == config.apps@.len(),
            forall|j: int|
                0 <= j < i ==> lower_seq(#[trigger] config.apps@[j].path@) != lower_seq(path@),
        decreases n - i,
    {
        if eq_ignore_ascii_case(config.apps[i].path.as_str(), path) {
            return true;
        }
        i += 1;
    }
    false
}

/// The launch-target path of the entry with the given id, for the shell to
/// spawn; an unknown id is the not-found error.
pub fn get_app_path(config: &Config, app_id: &str) -> (r: Result<String, CoreError>)
    ensures
        match r {
            Ok(p) => has_app_id(config.apps@, app_id@) && p@ == config.apps@[first_app_index(
                config.apps@,
                app_id@,
            )].path@,
            Err(e) => !has_app_id(config.apps@, app_id@) && e is NotFound,
        },
{
    match find_app_index(&config.apps, app_id) {
        Some(i) => {
            proof {
                assert(is_first_app_index(config.apps@, app_id@, i as int));
                lemma_first_app_index_unique(
                    config.apps@,
                    app_id@,
                    i as int,
                    first_app_index(config.apps@, app_id@),
                );
            }
            Ok(config.apps[i].path.clone())
        },
        None => Err(CoreError::NotFound),
    }
}

} // verus!
