//! Shared model store: catalog and installed-state records, their schema
//! checks, and the upsert and health rules that keep them consistent.

use vstd::prelude::*;
use crate::hardware::owned;
use crate::paths::{joined, no_verbatim, path_join, plain_relative};
use crate::text::{ascii_lower, chars_of, ends_with, ends_with_exec, eq_ignore_ascii_case, str_views, views};
use crate::order::{sorted_positions, stable_order};

verus! {

pub const STORE_SCHEMA_VERSION: &'static str = "shared_model_store.v1";

pub const CATALOG_SCHEMA_VERSION: &'static str = "model_catalog.v1";

#[derive(Debug, Clone)]
pub struct ModelCatalog {
    pub schema_version: String,
    pub catalog_version: String,
    pub updated_at: String,
    pub models: Vec<CatalogModel>,
}

#[derive(Debug, Clone)]
pub struct CatalogModel {
    pub id: String,
    pub family: String,
    pub display_name: String,
    pub size_bytes: u64,
    pub quality_profile: String,
    pub speed_profile: String,
    pub supported_backends: Vec<String>,
    pub recommended_tiers: Vec<String>,
    pub download_filename: Option<String>,
    pub download_url: Option<String>,
    pub required_files: Vec<String>,
}

#[derive(Debug, Clone)]
pub struct SharedModelStore {
    pub schema_version: String,
    pub store_version: u64,
    pub models_root_path: String,
    pub active_runtime_id: Option<String>,
    pub active_model_id: Option<String>,
    pub updated_at: Option<String>,
    pub updated_by: String,
    pub installed_runtimes: Vec<InstalledRuntime>,
    pub installed_models: Vec<InstalledModel>,
}

#[derive(Debug, Clone)]
pub struct InstalledRuntime {
    pub id: String,
    pub display_name: String,
    pub kind: String,
    pub version: Option<String>,
    pub entry_path: String,
    pub disk_usage_bytes: Option<u64>,
}

#[derive(Debug, Clone)]
pub struct InstalledModel {
    pub id: String,
    pub runtime_id: String,
    pub directory_path: String,
    pub size_bytes: Option<u64>,
    pub is_default: Option<bool>,
    pub health: String,
    pub required_files: Option<Vec<String>>,
    pub registered_at: Option<String>,
}

/// Why a store or catalog document was refused.
#[derive(Debug, Clone)]
pub enum ModelStoreError {
    /// The store document declares another schema version.
    UnexpectedStoreSchema(String),
    /// The catalog document declares another schema version.
    UnexpectedCatalogSchema(String),
}

/// The store file inside a models root: `<root>/shared_model_store.v1.json`.
pub fn default_store_path(models_root: &str) -> (r: String)
    ensures
        crate::text::ends_with(r@, "shared_model_store.v1.json"@),
{
    proof {
        reveal_strlit("shared_model_store.v1.json");
    }
    path_join(models_root, "shared_model_store.v1.json")
}

/// The store used when no store file exists yet.
pub fn default_store(models_root: &str) -> (s: SharedModelStore)
    ensures
        s.schema_version@ == STORE_SCHEMA_VERSION@,
        s.store_version == 1,
        s.models_root_path@ == models_root@,
        s.active_runtime_id is None,
        s.active_model_id is None,
        s.updated_at is None,
        s.updated_by@ == "unknown"@,
        s.installed_runtimes@.len() == 0,
        s.installed_models@.len() == 0,
{
    SharedModelStore {
        schema_version: owned(STORE_SCHEMA_VERSION),
        store_version: 1,
        models_root_path: owned(models_root),
        active_runtime_id: None,
        active_model_id: None,
        updated_at: None,
        updated_by: owned("unknown"),
        installed_runtimes: Vec::new(),
        installed_models: Vec::new(),
    }
}

/// Accepts a parsed store only when it declares the store schema version.
pub fn check_store_schema(store: SharedModelStore) -> (r: Result<SharedModelStore, ModelStoreError>)
    ensures
        store.schema_version@ == STORE_SCHEMA_VERSION@ ==> r == Ok::<
            SharedModelStore,
            ModelStoreError,
        >(store),
        store.schema_version@ != STORE_SCHEMA_VERSION@ ==> (r matches Err(
            ModelStoreError::UnexpectedStoreSchema(v),
        ) && v@ == store.schema_version@),
{
    let v = chars_of(store.schema_version.as_str());
    let expected = chars_of(STORE_SCHEMA_VERSION);
    if crate::text::occurs_at_exec(&v, &expected, 0) && v.len() == expected.len() {
        assert(v@.subrange(0, expected@.len() as int) == v@);
        Ok(store)
    } else {
        assert(v@ != expected@ || !crate::text::occurs_at(v@, expected@, 0)) by {
            if v@ == expected@ {
                assert(v@.subrange(0, expected@.len() as int) =~= v@);
            }
        }
        let found = store.schema_version;
        Err(ModelStoreError::UnexpectedStoreSchema(found))
    }
}

/// Accepts a parsed catalog only when it declares the catalog schema version.
pub fn check_catalog_schema(catalog: ModelCatalog) -> (r: Result<ModelCatalog, ModelStoreError>)
    ensures
        catalog.schema_version@ == CATALOG_SCHEMA_VERSION@ ==> r == Ok::<
            ModelCatalog,
            ModelStoreError,
        >(catalog),
        catalog.schema_version@ != CATALOG_SCHEMA_VERSION@ ==> (r matches Err(
            ModelStoreError::UnexpectedCatalogSchema(v),
        ) && v@ == catalog.schema_version@),
{
    let v = chars_of(catalog.schema_version.as_str());
    let expected = chars_of(CATALOG_SCHEMA_VERSION);
    if crate::text::occurs_at_exec(&v, &expected, 0) && v.len() == expected.len() {
        assert(v@.subrange(0, expected@.len() as int) == v@);
        Ok(catalog)
    } else {
        assert(v@ != expected@ || !crate::text::occurs_at(v@, expected@, 0)) by {
            if v@ == expected@ {
                assert(v@.subrange(0, expected@.len() as int) =~= v@);
            }
        }
        let found = catalog.schema_version;
        Err(ModelStoreError::UnexpectedCatalogSchema(found))
    }
}

// ---------------------------------------------------------------------------
// Upserts.
// ---------------------------------------------------------------------------

/// The index of the first id equal to `id` up to ASCII case.
pub open spec fn first_match(ids: Seq<Seq<char>>, id: Seq<char>) -> Option<int>
    decreases ids.len(),
{
    if ids.len() == 0 {
        None
    } else {
        match first_match(ids.drop_last(), id) {
            Some(i) => Some(i),
            None => if ascii_lower(ids.last()) == ascii_lower(id) {
                Some(ids.len() - 1)
            } else {
                None
            },
        }
    }
}

pub open spec fn runtime_ids(rs: Seq<InstalledRuntime>) -> Seq<Seq<char>> {
    rs.map_values(|r: InstalledRuntime| r.id@)
}

pub open spec fn model_ids(ms: Seq<InstalledModel>) -> Seq<Seq<char>> {
    ms.map_values(|m: InstalledModel| m.id@)
}

/// Replacing the first entry with a matching id, or appending.
pub open spec fn upserted<T>(items: Seq<T>, at: Option<int>, item: T) -> Seq<T> {
    match at {
        Some(i) => items.update(i, item),
        None => items.push(item),
    }
}

pub proof fn lemma_first_match_props(ids: Seq<Seq<char>>, id: Seq<char>)
    ensures
        first_match(ids, id) matches Some(i) ==> 0 <= i < ids.len() && ascii_lower(ids[i])
            == ascii_lower(id) && forall|j: int| 0 <= j < i ==> ascii_lower(#[trigger] ids[j])
            != ascii_lower(id),
        first_match(ids, id) is None ==> forall|j: int| 0 <= j < ids.len() ==> ascii_lower(
            #[trigger] ids[j],
        ) != ascii_lower(id),
    decreases ids.len(),
{
    if ids.len() > 0 {
        lemma_first_match_props(ids.drop_last(), id);
        assert forall|j: int| 0 <= j < ids.len() - 1 implies ids[j] == ids.drop_last()[j] by {}
    }
}

proof fn lemma_first_match_unique(ids: Seq<Seq<char>>, id: Seq<char>, i: int)
    requires
        0 <= i < ids.len(),
        ascii_lower(ids[i]) == ascii_lower(id),
        forall|j: int| 0 <= j < i ==> ascii_lower(#[trigger] ids[j]) != ascii_lower(id),
    ensures
        first_match(ids, id) == Some(i),
    decreases ids.len(),
{
    lemma_first_match_props(ids, id);
    if i < ids.len() - 1 {
        lemma_first_match_unique(ids.drop_last(), id, i);
    } else {
        lemma_first_match_props(ids.drop_last(), id);
    }
}

/// Replaces the runtime with the same id (up to ASCII case), or appends it.
pub fn upsert_runtime(store: &mut SharedModelStore, runtime: InstalledRuntime)
    ensures
        final(store).installed_runtimes@ == upserted(
            old(store).installed_runtimes@,
            first_match(runtime_ids(old(store).installed_runtimes@), runtime.id@),
            runtime,
        ),
        final(store).installed_models == old(store).installed_models,
        final(store).schema_version == old(store).schema_version,
        final(store).store_version == old(store).store_version,
        final(store).models_root_path == old(store).models_root_path,
        final(store).active_runtime_id == old(store).active_runtime_id,
        final(store).active_model_id == old(store).active_model_id,
        final(store).updated_at == old(store).updated_at,
        final(store).updated_by == old(store).updated_by,
{
    let ghost ids = runtime_ids(store.installed_runtimes@);
    let id = chars_of(runtime.id.as_str());
    let mut i: usize = 0;
    while i < store.installed_runtimes.len()
        invariant
            i <= store.installed_runtimes@.len(),
            *store == *old(store),
            ids == runtime_ids(store.installed_runtimes@),
            id@ == runtime.id@,
            forall|j: int| 0 <= j < i ==> ascii_lower(#[trigger] ids[j]) != ascii_lower(id@),
        decreases store.installed_runtimes@.len() - i,
    {
        let existing = chars_of(store.installed_runtimes[i].id.as_str());
        assert(existing@ == ids[i as int]);
        if eq_ignore_ascii_case(&existing, &id) {
            proof {
                lemma_first_match_unique(ids, id@, i as int);
            }
            store.installed_runtimes.set(i, runtime);
            return;
        }
        i = i + 1;
    }
    proof {
        lemma_first_match_props(ids, id@);
        if first_match(ids, id@) is Some {
            let k = first_match(ids, id@)->0;
            assert(ascii_lower(ids[k]) == ascii_lower(id@));
        }
    }
    store.installed_runtimes.push(runtime);
}

/// Replaces the model with the same id (up to ASCII case), or appends it.
pub fn upsert_model(store: &mut SharedModelStore, model: InstalledModel)
    ensures
        final(store).installed_models@ == upserted(
            old(store).installed_models@,
            first_match(model_ids(old(store).installed_models@), model.id@),
            model,
        ),
        final(store).installed_runtimes == old(store).installed_runtimes,
        final(store).schema_version == old(store).schema_version,
        final(store).store_version == old(store).store_version,
        final(store).models_root_path == old(store).models_root_path,
        final(store).active_runtime_id == old(store).active_runtime_id,
        final(store).active_model_id == old(store).active_model_id,
        final(store).updated_at == old(store).updated_at,
        final(store).updated_by == old(store).updated_by,
{
    let ghost ids = model_ids(store.installed_models@);
    let id = chars_of(model.id.as_str());
    let mut i: usize = 0;
    while i < store.installed_models.len()
        invariant
            i <= store.installed_models@.len(),
            *store == *old(store),
            ids == model_ids(store.installed_models@),
            id@ == model.id@,
            forall|j: int| 0 <= j < i ==> ascii_lower(#[trigger] ids[j]) != ascii_lower(id@),
        decreases store.installed_models@.len() - i,
    {
        let existing = chars_of(store.installed_models[i].id.as_str());
        assert(existing@ == ids[i as int]);
        if eq_ignore_ascii_case(&existing, &id) {
            proof {
                lemma_first_match_unique(ids, id@, i as int);
            }
            store.installed_models.set(i, model);
            return;
        }
        i = i + 1;
    }
    proof {
        lemma_first_match_props(ids, id@);
        if first_match(ids, id@) is Some {
            let k = first_match(ids, id@)->0;
            assert(ascii_lower(ids[k]) == ascii_lower(id@));
        }
    }
    store.installed_models.push(model);
}

// ---------------------------------------------------------------------------
// Health.
// ---------------------------------------------------------------------------

/// The health verdict from what was found on disk: `ok` when the model
/// directory and every required file exist, else `missing_files`.
pub open spec fn health_verdict(dir_exists: bool, files_exist: Seq<bool>) -> Seq<char> {
    if dir_exists && forall|i: int| 0 <= i < files_exist.len() ==> #[trigger] files_exist[i] {
        "ok"@
    } else {
        "missing_files"@
    }
}

/// The health verdict from the presence of the model directory and of each
/// required file.
pub fn model_health_verdict(dir_exists: bool, files_exist: &[bool]) -> (r: String)
    ensures
        r@ == health_verdict(dir_exists, files_exist@),
{
    proof {
        reveal_strlit("ok");
        reveal_strlit("missing_files");
    }
    if !dir_exists {
        return owned("missing_files");
    }
    let mut i: usize = 0;
    while i < files_exist.len()
        invariant
            i <= files_exist@.len(),
            forall|j: int| 0 <= j < i ==> #[trigger] files_exist@[j],
        decreases files_exist@.len() - i,
    {
        if !files_exist[i] {
            return owned("missing_files");
        }
        i = i + 1;
    }
    owned("ok")
}

/// `r` is the verdict for some outcome of the disk checks: whether the model
/// directory exists and, when it does, whether each of the `n` required
/// files does.
pub open spec fn health_found(r: Seq<char>, n: nat) -> bool {
    exists|d: bool, fs: Seq<bool>|
        #[trigger] health_verdict(d, fs) == r && fs.len() == (if d {
            n
        } else {
            0
        })
}

/// `q` is where a required file `f` is looked for under `dir`: a path that
/// ends with `f` and, under a directory that is not verbatim, is `dir`
/// joined with `f` (`path_join`), for a plain file name `f`.
pub open spec fn probe_path_for(q: Seq<char>, dir: Seq<char>, f: Seq<char>) -> bool {
    &&& plain_relative(f) ==> ends_with(q, f)
    &&& plain_relative(f) && no_verbatim(dir) ==> joined(q, dir, f)
}

/// The existence check answered `a` for the place where `f` is looked for
/// under `dir`.
pub open spec fn file_probe<F: Fn(&str) -> bool>(exists_fn: F, dir: Seq<char>, f: Seq<char>, a: bool) -> bool {
    exists|q: &str| #[trigger] call_ensures(exists_fn, (q,), a) && probe_path_for(q@, dir, f)
}

/// The existence check answered `a` for the path text `path`.
pub open spec fn probe_answer<F: Fn(&str) -> bool>(exists_fn: F, path: Seq<char>, a: bool) -> bool {
    exists|q: &str| #[trigger] call_ensures(exists_fn, (q,), a) && q@ == path
}

/// `r` is the health verdict for the answers that the existence check
/// `exists_fn` gave: first for `dir` itself and then, where it exists, for
/// the place of each required file in order.
pub open spec fn health_answered<F: Fn(&str) -> bool>(
    exists_fn: F,
    dir: Seq<char>,
    files: Seq<Seq<char>>,
    r: Seq<char>,
) -> bool {
    exists|d: bool, fs: Seq<bool>|
        #[trigger] health_verdict(d, fs) == r && probe_answer(exists_fn, dir, d) && fs.len() == (
        if d {
            files.len()
        } else {
            0
        }) && forall|i: int| 0 <= i < fs.len() ==> #[trigger] file_probe(exists_fn, dir, files[i], fs[i])
}

/// Checks that the model directory and each required file (relative to it)
/// exist, asking `probe` (the caller's check on the disk, `Path::exists`):
/// `ok` when all do, else `missing_files`. The directory is asked first;
/// only when it exists is each required file's place under it asked, in
/// order. What the disk answers is the caller's; the verdict is stated for
/// those answers.
pub fn evaluate_model_health<F: Fn(&str) -> bool>(
    model_dir: &str,
    required_files: &[String],
    probe: &F,
) -> (r: String)
    requires
        forall|p: &str| #[trigger] call_requires(*probe, (p,)),
    ensures
        r@ == "ok"@ || r@ == "missing_files"@,
        health_answered(*probe, model_dir@, str_views(required_files@), r@),
        health_found(r@, required_files@.len()),
{
    proof {
        reveal_strlit("ok");
        reveal_strlit("missing_files");
    }
    let dir_exists = probe(model_dir);
    let ghost files = str_views(required_files@);
    let mut found: Vec<bool> = Vec::new();
    if dir_exists {
        let mut i: usize = 0;
        while i < required_files.len()
            invariant
                i <= required_files@.len(),
                found@.len() == i,
                files == str_views(required_files@),
                forall|p: &str| #[trigger] call_requires(*probe, (p,)),
                forall|k: int| 0 <= k < i ==> #[trigger] file_probe(*probe, model_dir@, files[k], found@[k]),
            decreases required_files@.len() - i,
        {
            let p = path_join(model_dir, required_files[i].as_str());
            let q = p.as_str();
            let a = probe(q);
            proof {
                assert(probe_path_for(q@, model_dir@, files[i as int]));
                assert(call_ensures(*probe, (q,), a));
                assert(file_probe(*probe, model_dir@, files[i as int], a));
            }
            let ghost before = found@;
            found.push(a);
            proof {
                assert forall|k: int| 0 <= k < i + 1 implies #[trigger] file_probe(*probe, model_dir@, files[k], found@[k]) by {
                    if k < i {
                        assert(found@[k] == before[k]);
                    }
                }
            }
            i = i + 1;
        }
    }
    let r = model_health_verdict(dir_exists, &found);
    proof {
        assert(health_verdict(dir_exists, found@) == r@);
        assert(probe_answer(*probe, model_dir@, dir_exists));
        assert(health_answered(*probe, model_dir@, files, r@));
        assert(health_found(r@, required_files@.len()));
    }
    r
}


// ---------------------------------------------------------------------------
// Laws of the upserts.
// ---------------------------------------------------------------------------

/// Upserting an item leaves it in the list; the list grows by one exactly
/// when no entry had the same id (up to ASCII case), and every other entry
/// stays where it was.
pub proof fn lemma_upsert_places_item<T>(items: Seq<T>, ids: Seq<Seq<char>>, id: Seq<char>, item: T)
    requires
        ids.len() == items.len(),
    ensures
        ({
            let r = upserted(items, first_match(ids, id), item);
            &&& r.contains(item)
            &&& first_match(ids, id) is None ==> r.len() == items.len() + 1 && r.last() == item
            &&& first_match(ids, id) is Some ==> r.len() == items.len()
            &&& forall|j: int|
                0 <= j < items.len() && Some(j) != first_match(ids, id) ==> #[trigger] r[j]
                    == items[j]
        }),
{
    lemma_first_match_props(ids, id);
    let r = upserted(items, first_match(ids, id), item);
    match first_match(ids, id) {
        Some(i) => {
            assert(r[i] == item);
        },
        None => {
            assert(r[items.len() as int] == item);
        },
    }
}

/// Upserting the same runtime twice gives the same list as upserting it
/// once.
pub proof fn lemma_upsert_runtime_idempotent(rs: Seq<InstalledRuntime>, r: InstalledRuntime)
    ensures
        ({
            let once = upserted(rs, first_match(runtime_ids(rs), r.id@), r);
            upserted(once, first_match(runtime_ids(once), r.id@), r) == once
        }),
{
    let ids = runtime_ids(rs);
    let once = upserted(rs, first_match(ids, r.id@), r);
    lemma_first_match_props(ids, r.id@);
    match first_match(ids, r.id@) {
        Some(i) => {
            assert(runtime_ids(once) =~= ids.update(i, r.id@));
            lemma_first_match_unique(runtime_ids(once), r.id@, i);
            assert(once.update(i, r) =~= once);
        },
        None => {
            let k = rs.len() as int;
            assert(runtime_ids(once) =~= ids.push(r.id@));
            assert forall|j: int| 0 <= j < k implies ascii_lower(
                #[trigger] runtime_ids(once)[j],
            ) != ascii_lower(r.id@) by {
                assert(runtime_ids(once)[j] == ids[j]);
            }
            lemma_first_match_unique(runtime_ids(once), r.id@, k);
            assert(once.update(k, r) =~= once);
        },
    }
}

/// Upserting the same model twice gives the same list as upserting it once.
pub proof fn lemma_upsert_model_idempotent(ms: Seq<InstalledModel>, m: InstalledModel)
    ensures
        ({
            let once = upserted(ms, first_match(model_ids(ms), m.id@), m);
            upserted(once, first_match(model_ids(once), m.id@), m) == once
        }),
{
    let ids = model_ids(ms);
    let once = upserted(ms, first_match(ids, m.id@), m);
    lemma_first_match_props(ids, m.id@);
    match first_match(ids, m.id@) {
        Some(i) => {
            assert(model_ids(once) =~= ids.update(i, m.id@));
            lemma_first_match_unique(model_ids(once), m.id@, i);
            assert(once.update(i, m) =~= once);
        },
        None => {
            let k = ms.len() as int;
            assert(model_ids(once) =~= ids.push(m.id@));
            assert forall|j: int| 0 <= j < k implies ascii_lower(
                #[trigger] model_ids(once)[j],
            ) != ascii_lower(m.id@) by {
                assert(model_ids(once)[j] == ids[j]);
            }
            lemma_first_match_unique(model_ids(once), m.id@, k);
            assert(once.update(k, m) =~= once);
        },
    }
}

// ---------------------------------------------------------------------------
// Local GGML model files.
// ---------------------------------------------------------------------------

/// A directory entry name with the extension `bin` (as `Path::extension`
/// reads it: after the last dot, which is not the name's first character).
pub open spec fn bin_file_name(name: Seq<char>) -> bool {
    name.len() > 4 && ends_with(name, ".bin"@)
}

/// The positions of the regular files named `*.bin`, in directory order.
pub open spec fn bin_positions(names: Seq<Seq<char>>, is_file: Seq<bool>) -> Seq<int>
    decreases names.len(),
{
    if names.len() == 0 {
        Seq::empty()
    } else {
        let rest = bin_positions(names.drop_last(), is_file);
        let k = names.len() - 1;
        if is_file[k] && bin_file_name(names[k]) {
            rest.push(k)
        } else {
            rest
        }
    }
}

/// The local model files: the positions of the regular `*.bin` files of a
/// directory listing, ordered by name (as the paths sort).
pub open spec fn ggml_model_order(names: Seq<Seq<char>>, is_file: Seq<bool>) -> Seq<int> {
    let c = bin_positions(names, is_file);
    stable_order(c.map_values(|i: int| names[i])).map_values(|j: int| c[j])
}

/// Picks the local GGML model files from a directory listing (each entry's
/// name and whether it is a regular file): the `*.bin` files, sorted by
/// name. Reading the directory is the caller's.
pub fn local_ggml_models(names: &Vec<String>, is_file: &Vec<bool>) -> (r: Vec<usize>)
    requires
        names@.len() == is_file@.len(),
    ensures
        r@.map_values(|p: usize| p as int) == ggml_model_order(str_views(names@), is_file@),
{
    proof {
        reveal_strlit(".bin");
    }
    let ghost nv = str_views(names@);
    let suffix = chars_of(".bin");
    let mut cand: Vec<usize> = Vec::new();
    let mut keys: Vec<Vec<char>> = Vec::new();
    let mut i: usize = 0;
    while i < names.len()
        invariant
            i <= names@.len(),
            names@.len() == is_file@.len(),
            nv == str_views(names@),
            suffix@ == ".bin"@,
            cand@.map_values(|p: usize| p as int) == bin_positions(nv.take(i as int), is_file@),
            keys@.len() == cand@.len(),
            forall|j: int| 0 <= j < cand@.len() ==> #[trigger] cand@[j] < i && keys@[j]@ == nv[cand@[j] as int],
        decreases names@.len() - i,
    {
        let n = chars_of(names[i].as_str());
        assert(nv.take(i + 1).drop_last() =~= nv.take(i as int));
        assert(nv.take(i + 1)[i as int] == nv[i as int]);
        if is_file[i] && n.len() > 4 && ends_with_exec(&n, &suffix) {
            cand.push(i);
            keys.push(n);
            assert(cand@.map_values(|p: usize| p as int) =~= bin_positions(nv.take(i as int), is_file@).push(i as int));
        }
        i = i + 1;
    }
    assert(nv.take(i as int) =~= nv);
    let ghost c = bin_positions(nv, is_file@);
    assert(views(keys@) =~= c.map_values(|k: int| nv[k])) by {
        assert forall|j: int| 0 <= j < keys@.len() implies views(keys@)[j] == c.map_values(|k: int| nv[k])[j] by {
            assert(c[j] == cand@[j] as int);
        }
    }
    let order = sorted_positions(&keys);
    let mut r: Vec<usize> = Vec::new();
    let mut j: usize = 0;
    while j < order.len()
        invariant
            j <= order@.len(),
            order@.len() == keys@.len(),
            keys@.len() == cand@.len(),
            forall|t: int| 0 <= t < order@.len() ==> #[trigger] order@[t] < keys@.len(),
            order@.map_values(|p: usize| p as int) == stable_order(c.map_values(|k: int| nv[k])),
            cand@.map_values(|p: usize| p as int) == c,
            r@.len() == j,
            r@.map_values(|p: usize| p as int) == stable_order(c.map_values(|k: int| nv[k])).take(j as int).map_values(|t: int| c[t]),
        decreases order@.len() - j,
    {
        let k = order[j];
        let ghost before = r@;
        r.push(cand[k]);
        proof {
            let so = stable_order(c.map_values(|kk: int| nv[kk]));
            assert(so[j as int] == k as int);
            assert(so.take(j + 1).drop_last() =~= so.take(j as int));
            assert((k as int) < cand@.len());
            assert(c[k as int] == cand@[k as int] as int);
            assert(r@ == before.push(cand@[k as int]));
            assert(r@[j as int] == cand@[k as int]);
            assert(so.len() == order@.len());
            assert(so.take(j + 1)[j as int] == k as int);
            let rm = r@.map_values(|p: usize| p as int);
            let target = so.take(j + 1).map_values(|t2: int| c[t2]);
            let bm = before.map_values(|p: usize| p as int);
            let prev = so.take(j as int).map_values(|t2: int| c[t2]);
            assert(bm == prev);
            assert forall|t: int| 0 <= t < j + 1 implies #[trigger] rm[t] == target[t] by {
                if t < j {
                    assert(r@[t] == before[t]);
                    assert(bm[t] == prev[t]);
                }
            }
            assert(rm =~= target);
        }
        j = j + 1;
    }
    proof {
        let so = stable_order(c.map_values(|kk: int| nv[kk]));
        assert(so.take(j as int) =~= so);
    }
    r
}

} // verus!
