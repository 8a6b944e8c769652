//! Document paths and the legacy-icon migration.
//!
//! The shell owns the actual filesystem round-trips (reading and writing
//! the JSON document and the asset files); the path derivations and the
//! migration rewrite are verified here.  Migration hands back the asset
//! writes it calls for, so persisting them and re-saving the document stay
//! one thin, unverified step.

use vstd::prelude::*;
use crate::codec::b64_accepts;
use crate::codec::b64_decode;
use crate::codec::b64_decode_of;
use crate::models::App;
use crate::models::Config;
use crate::strutil::contains_seq;
use crate::strutil::find_sub;
use crate::strutil::match_at;
use crate::strutil::starts_with;
use crate::strutil::str_starts_with;

verus! {

/// A pending icon-asset write produced by migration: the shell persists
/// `bytes` under `filename` in the asset directory.
pub struct IconWrite {
    pub filename: String,
    pub bytes: Vec<u8>,
}

/// The document's path under a given per-user configuration directory.
pub fn get_config_path(config_dir: &str) -> (r: String)
    ensures
        r@ == config_dir@ + "/config.json"@,
{
    String::from_str(config_dir).concat("/config.json")
}

/// An icon asset's full path under the asset directory.
pub fn get_icon_path(icons_dir: &str, icon_filename: &str) -> (r: String)
    ensures
        r@ == icons_dir@ + "/"@ + icon_filename@,
{
    String::from_str(icons_dir).concat("/").concat(icon_filename)
}

/// An entry's derived icon-asset filename.
pub fn icon_asset_filename(app_id: &str) -> (r: String)
    ensures
        r@ == app_id@ + ".png"@,
{
    String::from_str(app_id).concat(".png")
}

/// A legacy inline icon value: a `data:image` URI.
pub open spec fn is_data_uri(s: Seq<char>) -> bool {
    starts_with(s, "data:image"@)
}

/// Whether an icon value carries a `base64,` marker.
pub open spec fn has_b64_marker(s: Seq<char>) -> bool {
    contains_seq(s, "base64,"@)
}

/// The first `base64,` marker occurs at this position and nowhere earlier.
pub open spec fn marker_match(s: Seq<char>, i: int) -> bool {
    match_at(s, "base64,"@, i) && (forall|j: int| 0 <= j < i ==> !match_at(s, "base64,"@, j))
}

/// The position of the first `base64,` marker.
pub open spec fn marker_index(s: Seq<char>) -> int {
    choose|i: int| marker_match(s, i)
}

/// The base64 payload of an inline icon: everything after the first
/// `base64,` marker.
pub open spec fn b64_payload(s: Seq<char>) -> Seq<char>
    recommends
        has_b64_marker(s),
{
    s.subrange(marker_index(s) + "base64,"@.len(), s.len() as int)
}

proof fn lemma_marker_match_unique(s: Seq<char>, i: int, j: int)
    requires
        marker_match(s, i),
        marker_match(s, j),
    ensures
        i == j,
{
    if i < j {
        assert(!match_at(s, "base64,"@, i));
    }
    if j < i {
        assert(!match_at(s, "base64,"@, j));
    }
}

/// A migration candidate: an entry whose icon is a legacy inline data URI
/// carrying a base64 payload.
pub open spec fn legacy_inline_icon(a: App) -> bool {
    a.icon matches Some(ic) && is_data_uri(ic@) && has_b64_marker(ic@)
}

/// A migration candidate whose payload the decoder accepts: exactly the
/// entries one `migrate` call must rewrite.
pub open spec fn migration_accepted(a: App) -> bool {
    a.icon matches Some(ic) && is_data_uri(ic@) && has_b64_marker(ic@) && b64_accepts(
        b64_payload(ic@),
    )
}

/// `b` is `a` migrated: the icon rewritten to the entry's derived asset
/// filename, everything else untouched.
pub open spec fn migrated_app(a: App, b: App) -> bool {
    &&& legacy_inline_icon(a)
    &&& b.icon matches Some(f) && f@ == a.id@ + ".png"@
    &&& b.id == a.id
    &&& b.name == a.name
    &&& b.path == a.path
    &&& b.category == a.category
    &&& b.last_launched == a.last_launched
    &&& b.created_at == a.created_at
    &&& b.update_metadata == a.update_metadata
}

/// Migration runs at most once: a rewritten entry carries the derived
/// `<id>.png` filename, which is no inline data URI, so a second pass
/// leaves it alone.  The one proviso is that the entry's own id must not
/// itself begin with the inline prefix; ids are generated, never chosen,
/// so none does.
pub proof fn lemma_rewritten_not_legacy(a: App, b: App)
    requires
        migrated_app(a, b),
        !starts_with(a.id@, "data:image"@),
    ensures
        !legacy_inline_icon(b),
{
    reveal_strlit("data:image");
    reveal_strlit(".png");
    if legacy_inline_icon(b) {
        let id = a.id@;
        let f = id + ".png"@;
        let p = "data:image"@;
        assert(is_data_uri(f));
        assert(f.subrange(0, p.len() as int) == p);
        if id.len() >= 10 {
            assert(id.subrange(0, 10) =~= f.subrange(0, 10)) by {
                assert(forall|j: int| 0 <= j < 10 ==> f[j] == id.subrange(0, 10)[j]);
            }
            assert(starts_with(id, p));
        } else {
            // the dot of ".png" falls inside the first ten characters,
            // where "data:image" has none
            let k = id.len() as int;
            assert(6 <= k <= 9);
            assert(f[k] == '.');
            assert(f.subrange(0, 10)[k] == '.');
            assert(p[k] != '.');
        }
    }
}

/// The asset write a migrated entry calls for: its embedded bytes, decoded,
/// under its derived filename.
pub open spec fn write_for(w: IconWrite, a: App) -> bool {
    &&& w.filename@ == a.id@ + ".png"@
    &&& a.icon matches Some(ic) && w.bytes@ == b64_decode_of(b64_payload(ic@))
}

/// Some pending write carries entry `a`'s decoded icon.
pub open spec fn has_write_for(a: App, ws: Seq<IconWrite>) -> bool {
    exists|k: int| 0 <= k < ws.len() && write_for(#[trigger] ws[k], a)
}

/// Write `w` belongs to some entry that the migration rewrote.
pub open spec fn write_belongs(w: IconWrite, before: Seq<App>, after: Seq<App>) -> bool {
    exists|i: int|
        {
            &&& 0 <= i < before.len()
            &&& before.len() == after.len()
            &&& migrated_app(#[trigger] before[i], after[i])
            &&& write_for(w, before[i])
        }
}

/// Rewrites one entry from its decoded inline payload: with decoded bytes
/// in hand the icon field becomes the entry's derived asset filename and
/// the bytes come back as the pending write, every other field untouched;
/// with nothing decoded the entry comes back exactly as it was.  This is
/// where the migration's outcome is pinned for every possible answer of
/// the decoder.
pub fn apply_inline_migration(app: App, decoded: Option<Vec<u8>>) -> (r: (App, Option<IconWrite>))
    ensures
        decoded is None ==> r.0 == app && r.1 is None,
        decoded matches Some(b) ==> {
            &&& r.0.icon matches Some(f) && f@ == app.id@ + ".png"@
            &&& r.0.id == app.id
            &&& r.0.name == app.name
            &&& r.0.path == app.path
            &&& r.0.category == app.category
            &&& r.0.last_launched == app.last_launched
            &&& r.0.created_at == app.created_at
            &&& r.0.update_metadata == app.update_metadata
            &&& r.1 matches Some(w) && w.filename@ == app.id@ + ".png"@ && w.bytes == b
        },
{
    match decoded {
        Some(bytes) => {
            let filename = icon_asset_filename(app.id.as_str());
            let stored = filename.clone();
            let mut rewritten = app;
            rewritten.icon = Some(stored);
            (rewritten, Some(IconWrite { filename, bytes }))
        },
        None => (app, None),
    }
}

/// Migrates every legacy inline icon to a file-based asset: each such
/// entry's icon field becomes its derived filename, and the decoded
/// embedded bytes come back as a pending asset write for the shell to
/// persist.  An entry whose payload the decoder rejects is left exactly as
/// it was, as is every entry that carries no legacy inline icon.  The shell
/// saves the document when any write came back, so the step runs at most
/// once.
pub fn migrate_icons(config: &mut Config) -> (writes: Vec<IconWrite>)
    ensures
        final(config).version == old(config).version,
        final(config).categories == old(config).categories,
        final(config).settings == old(config).settings,
        final(config).apps@.len() == old(config).apps@.len(),
        forall|i: int|
            0 <= i < old(config).apps@.len() ==> (#[trigger] final(config).apps@[i]).id == old(
                config,
            ).apps@[i].id,
        forall|i: int|
            0 <= i < old(config).apps@.len() && !migration_accepted(#[trigger] old(
                config,
            ).apps@[i]) ==> final(config).apps@[i] == old(config).apps@[i],
        forall|i: int|
            0 <= i < old(config).apps@.len() && migration_accepted(#[trigger] old(
                config,
            ).apps@[i]) ==> migrated_app(old(config).apps@[i], final(config).apps@[i])
                && has_write_for(old(config).apps@[i], writes@),
        forall|k: int|
            0 <= k < writes@.len() ==> write_belongs(
                #[trigger] writes@[k],
                old(config).apps@,
                final(config).apps@,
            ),
{
    let ghost apps0 = old(config).apps@;
    let n = config.apps.len();
    let mut writes: Vec<IconWrite> = Vec::new();
    // ghost bookkeeping: which entry each write belongs to, and which write
    // each rewritten entry produced (-1 where the entry was left unchanged)
    let ghost mut owners: Seq<int> = Seq::empty();
    let ghost mut widx: Seq<int> = Seq::empty();
    let mut i: usize = 0;
    while i < n
        invariant
            n == apps0.len(),
            config.apps@.len() == n,
            i <= n,
            config.version == old(config).version,
            config.categories == old(config).categories,
            config.settings == old(config).settings,
            apps0 == old(config).apps@,
            forall|j: int| i <= j < n ==> config.apps@[j] == apps0[j],
            forall|j: int|
                0 <= j < n ==> (#[trigger] config.apps@[j]).id == apps0[j].id,
            forall|j: int|
                0 <= j < i && !migration_accepted(#[trigger] apps0[j]) ==> config.apps@[j]
                    == apps0[j],
            forall|j: int|
                0 <= j < i && migration_accepted(#[trigger] apps0[j]) ==> {
                    &&& migrated_app(apps0[j], config.apps@[j])
                    &&& 0 <= widx[j] < writes@.len()
                    &&& write_for(writes@[widx[j]], apps0[j])
                },
            widx.len() == i,
            owners.len() == writes@.len(),
            forall|k: int|
                0 <= k < owners.len() ==> {
                    &&& 0 <= #[trigger] owners[k] < i
                    &&& migrated_app(apps0[owners[k]], config.apps@[owners[k]])
                    &&& write_for(writes@[k], apps0[owners[k]])
                },
        decreases n - i,
    {
        let decoded: Option<Vec<u8>> = {
            match &config.apps[i].icon {
                Some(ic) => {
                    if str_starts_with(ic.as_str(), "data:image") {
                        match find_sub(ic.as_str(), "base64,") {
                            Some(idx) => {
                                let len = ic.as_str().unicode_len();
                                proof {
                                    reveal_strlit("base64,");
                                    assert(marker_match(ic@, idx as int));
                                    assert(exists|k: int| marker_match(ic@, k));
                                    lemma_marker_match_unique(
                                        ic@,
                                        idx as int,
                                        marker_index(ic@),
                                    );
                                }
                                let payload = ic.as_str().substring_char(idx + 7, len);
                                assert(payload@ == b64_payload(ic@));
                                b64_decode(payload)
                            },
                            None => None,
                        }
                    } else {
                        None
                    }
                },
                None => None,
            }
        };
        if decoded.is_some() {
            let ghost cur = config.apps@;
            let app = config.apps.remove(i);
            let (rewritten, write) = apply_inline_migration(app, decoded);
            config.apps.insert(i, rewritten);
            let ghost ow = writes@;
            match write {
                Some(w) => writes.push(w),
                None => (),
            }
            proof {
                assert(config.apps@ =~= cur.update(i as int, config.apps@[i as int]));
                assert(migration_accepted(apps0[i as int]));
                assert(migrated_app(apps0[i as int], config.apps@[i as int]));
                assert(write_for(writes@[ow.len() as int], apps0[i as int]));
                owners = owners.push(i as int);
                widx = widx.push(ow.len() as int);
            }
        } else {
            proof {
                widx = widx.push(-1);
                assert(!migration_accepted(apps0[i as int]));
            }
        }
        i += 1;
    }
    proof {
        assert forall|j: int|
            0 <= j < n && migration_accepted(#[trigger] apps0[j]) implies migrated_app(
            apps0[j],
            config.apps@[j],
        ) && has_write_for(apps0[j], writes@) by {
            assert(write_for(writes@[widx[j]], apps0[j]));
        }
        assert forall|k: int| 0 <= k < writes@.len() implies write_belongs(
            #[trigger] writes@[k],
            apps0,
            config.apps@,
        ) by {
            let j0 = owners[k];
            assert(migrated_app(apps0[j0], config.apps@[j0]));
            assert(write_for(writes@[k], apps0[j0]));
        }
    }
    writes
}

} // verus!
