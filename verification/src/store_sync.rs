//! Bringing the shared model store in line with what is installed: the
//! embedded and server runtimes, the GGML model files in the models
//! directory, and the models prepared for the server runtime.
//!
//! The caller scans the disk and hands over a snapshot; the store is updated
//! here and written back by the caller.

use vstd::prelude::*;
use crate::clock::{now_rfc3339_secs, rfc3339_secs_of};
use crate::config::WhisperBackend;
use crate::hardware::owned;
use crate::model_store::{
    evaluate_model_health, first_match, health_answered, health_found, upsert_model, upsert_runtime, upserted, CatalogModel,
    InstalledModel, InstalledRuntime, ModelCatalog, SharedModelStore,
};
use crate::order::{dedup_ascii, dedup_positions, sorted_positions, stable_order};
use crate::paths::{
    after_last_slash, lemma_after_last_slash, local_path_text, path_file_name, path_join, paths_equal,
    plain_file_name,
};
use crate::text::{ascii_lower, chars_of, contains, eq_ignore_ascii_case, str_views, to_ascii_lowercase};

verus! {

pub const EMBEDDED_RUNTIME_ID: &'static str = "embedded_whisper_rs";

pub const SERVER_RUNTIME_ID: &'static str = "server_python_asr";

/// A GGML model file found in the models directory.
#[derive(Debug, Clone)]
pub struct LocalModelFile {
    pub path: String,
    /// The path's file name, when it has one that is valid text.
    pub file_name: Option<String>,
    pub size_bytes: Option<u64>,
    /// The file is the active model (the paths compare equal).
    pub is_active: bool,
}

/// A model prepared for the server runtime.
#[derive(Debug, Clone)]
pub struct ServerModelDir {
    pub id: String,
    pub path: String,
    pub exists: bool,
    pub size_bytes: Option<u64>,
    /// The directory is the active model path.
    pub is_active: bool,
}

/// What the caller found on disk, and what it asks to record.
#[derive(Debug, Clone)]
pub struct StoreSyncInput {
    /// The application that makes the change (normalised before it is stored).
    pub updated_by: String,
    pub backend: WhisperBackend,
    pub models_dir: String,
    pub models_dir_size: Option<u64>,
    /// The server runtime root (`server_runtime_root`) and whether it exists.
    pub server_runtime_root: String,
    pub server_runtime_present: bool,
    pub server_runtime_size: Option<u64>,
    pub local_models: Vec<LocalModelFile>,
    pub server_models: Vec<ServerModelDir>,
    pub active_model_path: String,
    /// The file name of the active model path, if it has one.
    pub active_model_file_name: Option<String>,
}

/// Where the server runtime lives under the models directory.
pub fn server_runtime_root(models_dir: &str) -> (r: String)
    ensures
        crate::text::ends_with(r@, "python-asr"@),
        crate::paths::no_verbatim(models_dir@) ==> crate::paths::joined2(
            r@,
            models_dir@,
            "runtimes"@,
            "python-asr"@,
        ) && crate::text::starts_with(r@, models_dir@),
{
    proof {
        reveal_strlit("runtimes");
        reveal_strlit("python-asr");
        assert(crate::paths::plain_relative("runtimes"@));
        assert(crate::paths::plain_relative("python-asr"@));
    }
    let runtimes = path_join(models_dir, "runtimes");
    let r = path_join(runtimes.as_str(), "python-asr");
    proof {
        if crate::paths::no_verbatim(models_dir@) {
            crate::paths::lemma_joined2(r@, runtimes@, models_dir@, "runtimes"@, "python-asr"@);
        }
    }
    r
}

/// The recorded form of `updated_by`: one of the known writers, else
/// `dictator`.
pub open spec fn normalized_updated_by(s: Seq<char>) -> Seq<char> {
    if s == "dictator"@ || s == "contora"@ || s == "manual"@ || s == "unknown"@ {
        s
    } else {
        "dictator"@
    }
}

/// Keeps a known writer name, and records anything else as `dictator`.
pub fn normalize_updated_by(updated_by: &str) -> (r: String)
    ensures
        r@ == normalized_updated_by(updated_by@),
{
    if crate::text::str_equal(updated_by, "dictator") || crate::text::str_equal(
        updated_by,
        "contora",
    ) || crate::text::str_equal(updated_by, "manual") || crate::text::str_equal(
        updated_by,
        "unknown",
    ) {
        owned(updated_by)
    } else {
        owned("dictator")
    }
}

// ---------------------------------------------------------------------------
// The store as the contracts see it.
// ---------------------------------------------------------------------------

pub type RuntimeView = (Seq<char>, Seq<char>, Seq<char>, Option<Seq<char>>, Seq<char>, Option<u64>);

/// id, runtime id, directory, size, default flag, health, required files,
/// registration time.
pub type ModelView = (
    Seq<char>,
    Seq<char>,
    Seq<char>,
    Option<u64>,
    Option<bool>,
    Seq<char>,
    Option<Seq<Seq<char>>>,
    Option<Seq<char>>,
);

pub open spec fn opt_text(o: Option<String>) -> Option<Seq<char>> {
    match o {
        Some(s) => Some(s@),
        None => None,
    }
}

pub open spec fn opt_texts(o: Option<Vec<String>>) -> Option<Seq<Seq<char>>> {
    match o {
        Some(v) => Some(str_views(v@)),
        None => None,
    }
}

pub open spec fn runtime_view(r: InstalledRuntime) -> RuntimeView {
    (r.id@, r.display_name@, r.kind@, opt_text(r.version), r.entry_path@, r.disk_usage_bytes)
}

pub open spec fn model_view(m: InstalledModel) -> ModelView {
    (
        m.id@,
        m.runtime_id@,
        m.directory_path@,
        m.size_bytes,
        m.is_default,
        m.health@,
        opt_texts(m.required_files),
        opt_text(m.registered_at),
    )
}

pub open spec fn runtime_views(rs: Seq<InstalledRuntime>) -> Seq<RuntimeView> {
    rs.map_values(|r: InstalledRuntime| runtime_view(r))
}

pub open spec fn model_views(ms: Seq<InstalledModel>) -> Seq<ModelView> {
    ms.map_values(|m: InstalledModel| model_view(m))
}

pub open spec fn runtime_view_ids(rs: Seq<RuntimeView>) -> Seq<Seq<char>> {
    rs.map_values(|r: RuntimeView| r.0)
}

pub open spec fn model_view_ids(ms: Seq<ModelView>) -> Seq<Seq<char>> {
    ms.map_values(|m: ModelView| m.0)
}

/// Upsert on views: replace the first entry with the same id up to ASCII
/// case, or append.
pub open spec fn upsert_runtime_view(rs: Seq<RuntimeView>, r: RuntimeView) -> Seq<RuntimeView> {
    upserted(rs, first_match(runtime_view_ids(rs), r.0), r)
}

pub open spec fn upsert_model_view(ms: Seq<ModelView>, m: ModelView) -> Seq<ModelView> {
    upserted(ms, first_match(model_view_ids(ms), m.0), m)
}

pub open spec fn upsert_model_views(ms: Seq<ModelView>, news: Seq<ModelView>) -> Seq<ModelView>
    decreases news.len(),
{
    if news.len() == 0 {
        ms
    } else {
        upsert_model_view(upsert_model_views(ms, news.drop_last()), news.last())
    }
}

/// The runtimes this application manages (their models are rebuilt on
/// each sync).
pub open spec fn managed_runtime(id: Seq<char>) -> bool {
    ascii_lower(id) == ascii_lower(EMBEDDED_RUNTIME_ID@) || ascii_lower(id) == ascii_lower(
        SERVER_RUNTIME_ID@,
    )
}

pub open spec fn unmanaged_models(ms: Seq<ModelView>) -> Seq<ModelView>
    decreases ms.len(),
{
    if ms.len() == 0 {
        seq![]
    } else {
        let rest = unmanaged_models(ms.drop_last());
        if managed_runtime(ms.last().1) {
            rest
        } else {
            rest.push(ms.last())
        }
    }
}

/// The catalog model whose download file name matches `name_lower` (ASCII
/// case folded); the last one wins.
pub open spec fn catalog_lookup(models: Seq<CatalogModel>, name_lower: Seq<char>) -> Option<
    CatalogModel,
>
    decreases models.len(),
{
    if models.len() == 0 {
        None
    } else {
        let m = models.last();
        if m.download_filename is Some && ascii_lower(m.download_filename->0@) == name_lower {
            Some(m)
        } else {
            catalog_lookup(models.drop_last(), name_lower)
        }
    }
}

pub open spec fn catalog_models_of(catalog: Option<ModelCatalog>) -> Seq<CatalogModel> {
    match catalog {
        Some(c) => c.models@,
        None => seq![],
    }
}

/// The id and required files recorded for a local model file.
pub open spec fn local_plan(file_name: Seq<char>, catalog: Seq<CatalogModel>) -> (
    Seq<char>,
    Seq<Seq<char>>,
) {
    match catalog_lookup(catalog, ascii_lower(file_name)) {
        Some(m) => (
            m.id@,
            if m.required_files@.len() == 0 {
                seq![file_name]
            } else {
                str_views(m.required_files@)
            },
        ),
        None => (file_name, seq![file_name]),
    }
}

/// The local files that have a file name, in order.
pub open spec fn named_locals(ls: Seq<LocalModelFile>) -> Seq<LocalModelFile>
    decreases ls.len(),
{
    if ls.len() == 0 {
        seq![]
    } else {
        let rest = named_locals(ls.drop_last());
        if ls.last().file_name is Some {
            rest.push(ls.last())
        } else {
            rest
        }
    }
}

pub open spec fn local_model_view(l: LocalModelFile, catalog: Seq<CatalogModel>, health: Seq<char>) -> ModelView {
    let plan = local_plan(l.file_name->0@, catalog);
    (
        plan.0,
        EMBEDDED_RUNTIME_ID@,
        l.path@,
        l.size_bytes,
        Some(l.is_active),
        health,
        Some(plan.1),
        None,
    )
}

pub open spec fn local_model_views(
    ls: Seq<LocalModelFile>,
    catalog: Seq<CatalogModel>,
    healths: Seq<Seq<char>>,
) -> Seq<ModelView> {
    Seq::new(ls.len(), |i: int| local_model_view(ls[i], catalog, healths[i]))
}

pub open spec fn server_model_view(s: ServerModelDir, backend: WhisperBackend) -> ModelView {
    (
        s.id@,
        SERVER_RUNTIME_ID@,
        s.path@,
        s.size_bytes,
        Some(backend == WhisperBackend::Server && s.is_active),
        if s.exists {
            "ok"@
        } else {
            "missing_files"@
        },
        None,
        None,
    )
}

pub open spec fn server_model_views(ss: Seq<ServerModelDir>, backend: WhisperBackend) -> Seq<
    ModelView,
> {
    ss.map_values(|s: ServerModelDir| server_model_view(s, backend))
}

pub open spec fn embedded_runtime_view(input: StoreSyncInput) -> RuntimeView {
    (
        EMBEDDED_RUNTIME_ID@,
        "Embedded whisper-rs"@,
        "whisper_rs"@,
        None,
        input.models_dir@,
        input.models_dir_size,
    )
}

pub open spec fn server_runtime_view(input: StoreSyncInput) -> RuntimeView {
    (
        SERVER_RUNTIME_ID@,
        "Server Python ASR"@,
        "faster_whisper"@,
        None,
        input.server_runtime_root@,
        input.server_runtime_size,
    )
}

pub open spec fn synced_runtimes(rs: Seq<RuntimeView>, input: StoreSyncInput) -> Seq<RuntimeView> {
    let with_embedded = upsert_runtime_view(rs, embedded_runtime_view(input));
    if input.server_runtime_present {
        upsert_runtime_view(with_embedded, server_runtime_view(input))
    } else {
        with_embedded
    }
}

/// The installed models after a sync: those of other runtimes are kept, then
/// each named local file and each server model is upserted in turn.
pub open spec fn synced_models(
    ms: Seq<ModelView>,
    input: StoreSyncInput,
    catalog: Seq<CatalogModel>,
    healths: Seq<Seq<char>>,
) -> Seq<ModelView> {
    upsert_model_views(
        upsert_model_views(
            unmanaged_models(ms),
            local_model_views(named_locals(input.local_models@), catalog, healths),
        ),
        server_model_views(input.server_models@, input.backend),
    )
}

/// The active model id: the active path's file name, else the path itself
/// when it is not empty.
pub open spec fn active_model_id_of(input: StoreSyncInput) -> Option<Seq<char>> {
    match input.active_model_file_name {
        Some(f) => Some(f@),
        None => if input.active_model_path@.len() > 0 {
            Some(input.active_model_path@)
        } else {
            None
        },
    }
}

/// The whole store after a sync, given the health found for each named local
/// model file.
pub open spec fn store_synced(
    old: SharedModelStore,
    new: SharedModelStore,
    input: StoreSyncInput,
    catalog: Seq<CatalogModel>,
    healths: Seq<Seq<char>>,
    updated_at: Option<Seq<char>>,
) -> bool {
    &&& runtime_views(new.installed_runtimes@) == synced_runtimes(
        runtime_views(old.installed_runtimes@),
        input,
    )
    &&& model_views(new.installed_models@) == synced_models(
        model_views(old.installed_models@),
        input,
        catalog,
        healths,
    )
    &&& new.models_root_path@ == input.models_dir@
    &&& opt_text(new.active_runtime_id) == Some(
        match input.backend {
            WhisperBackend::Embedded => EMBEDDED_RUNTIME_ID@,
            WhisperBackend::Server => SERVER_RUNTIME_ID@,
        },
    )
    &&& opt_text(new.active_model_id) == active_model_id_of(input)
    &&& new.updated_by@ == normalized_updated_by(input.updated_by@)
    &&& opt_text(new.updated_at) == match updated_at {
        Some(u) => Some(u),
        None => opt_text(old.updated_at),
    }
    &&& new.schema_version == old.schema_version
    &&& new.store_version == old.store_version
}

// ---------------------------------------------------------------------------
// Executable steps.
// ---------------------------------------------------------------------------

proof fn lemma_runtime_upsert_view(rs: Seq<InstalledRuntime>, r: InstalledRuntime)
    ensures
        runtime_views(
            upserted(rs, first_match(crate::model_store::runtime_ids(rs), r.id@), r),
        ) == upsert_runtime_view(runtime_views(rs), runtime_view(r)),
{
    assert(crate::model_store::runtime_ids(rs) =~= runtime_view_ids(runtime_views(rs)));
    crate::model_store::lemma_first_match_props(crate::model_store::runtime_ids(rs), r.id@);
    let at = first_match(crate::model_store::runtime_ids(rs), r.id@);
    match at {
        Some(i) => {
            assert(runtime_views(rs.update(i, r)) =~= runtime_views(rs).update(i, runtime_view(r)));
        },
        None => {
            assert(runtime_views(rs.push(r)) =~= runtime_views(rs).push(runtime_view(r)));
        },
    }
}

proof fn lemma_model_upsert_view(ms: Seq<InstalledModel>, m: InstalledModel)
    ensures
        model_views(upserted(ms, first_match(crate::model_store::model_ids(ms), m.id@), m))
            == upsert_model_view(model_views(ms), model_view(m)),
{
    assert(crate::model_store::model_ids(ms) =~= model_view_ids(model_views(ms)));
    crate::model_store::lemma_first_match_props(crate::model_store::model_ids(ms), m.id@);
    let at = first_match(crate::model_store::model_ids(ms), m.id@);
    match at {
        Some(i) => {
            assert(model_views(ms.update(i, m)) =~= model_views(ms).update(i, model_view(m)));
        },
        None => {
            assert(model_views(ms.push(m)) =~= model_views(ms).push(model_view(m)));
        },
    }
}

fn copy_strings(v: &Vec<String>) -> (r: Vec<String>)
    ensures
        str_views(r@) == str_views(v@),
{
    let mut out: Vec<String> = Vec::new();
    let mut i: usize = 0;
    while i < v.len()
        invariant
            i <= v@.len(),
            str_views(out@) == str_views(v@).take(i as int),
        decreases v@.len() - i,
    {
        let ghost before = out@;
        out.push(owned(v[i].as_str()));
        assert(str_views(out@) =~= str_views(before).push(v@[i as int]@));
        assert(str_views(v@).take(i + 1) =~= str_views(v@).take(i as int).push(v@[i as int]@));
        i = i + 1;
    }
    assert(str_views(v@).take(i as int) =~= str_views(v@));
    out
}

/// Drops the models of the managed runtimes, keeping the others in order.
fn drop_managed_models(store: &mut SharedModelStore)
    ensures
        model_views(final(store).installed_models@) == unmanaged_models(
            model_views(old(store).installed_models@),
        ),
        final(store).installed_runtimes == old(store).installed_runtimes,
        final(store).schema_version == old(store).schema_version,
        final(store).store_version == old(store).store_version,
{
    let mut all: Vec<InstalledModel> = Vec::new();
    std::mem::swap(&mut all, &mut store.installed_models);
    let ghost input = model_views(all@);
    let embedded = chars_of(EMBEDDED_RUNTIME_ID);
    let server = chars_of(SERVER_RUNTIME_ID);
    let mut kept: Vec<InstalledModel> = Vec::new();
    let mut taken: usize = 0;
    let total = all.len();
    assert(input.take(0) =~= seq![]);
    assert(model_views(kept@) =~= seq![]);
    while all.len() > 0
        invariant
            taken + all@.len() == total,
            total == input.len(),
            model_views(all@) == input.skip(taken as int),
            model_views(kept@) == unmanaged_models(input.take(taken as int)),
            embedded@ == EMBEDDED_RUNTIME_ID@,
            server@ == SERVER_RUNTIME_ID@,
        decreases all@.len(),
    {
        let ghost rest = all@;
        let m = all.remove(0);
        assert(model_view(m) == input[taken as int]) by {
            assert(model_views(rest)[0] == model_view(rest[0]));
            assert(input.skip(taken as int)[0] == input[taken as int]);
        }
        assert(model_views(all@) =~= input.skip(taken + 1)) by {
            assert(all@ =~= rest.subrange(1, rest.len() as int));
            assert forall|k: int| 0 <= k < all@.len() implies model_views(all@)[k] == input.skip(
                taken + 1,
            )[k] by {
                assert(model_views(rest)[k + 1] == input.skip(taken as int)[k + 1]);
            }
        }
        assert(input.take(taken + 1).drop_last() =~= input.take(taken as int));
        assert(input.take(taken + 1).last() == input[taken as int]);
        let rid = chars_of(m.runtime_id.as_str());
        let managed = eq_ignore_ascii_case(&rid, &embedded) || eq_ignore_ascii_case(&rid, &server);
        if !managed {
            let ghost before = kept@;
            kept.push(m);
            assert(model_views(kept@) =~= model_views(before).push(model_view(m)));
        }
        taken = taken + 1;
    }
    assert(input.take(taken as int) =~= input);
    store.installed_models = kept;
}

fn catalog_lookup_exec(models: &Vec<CatalogModel>, name_lower: &Vec<char>) -> (r: Option<usize>)
    ensures
        match r {
            Some(i) => i < models@.len() && catalog_lookup(models@, name_lower@) == Some(
                models@[i as int],
            ),
            None => catalog_lookup(models@, name_lower@) is None,
        },
{
    let mut k: usize = models.len();
    assert(models@.take(k as int) =~= models@);
    while k > 0
        invariant
            k <= models@.len(),
            catalog_lookup(models@, name_lower@) == catalog_lookup(models@.take(k as int), name_lower@),
        decreases k,
    {
        let ghost pre = models@.take(k as int);
        assert(pre.last() == models@[k - 1]);
        assert(pre.drop_last() =~= models@.take(k - 1));
        match &models[k - 1].download_filename {
            Some(f) => {
                let fc = chars_of(f.as_str());
                let fl = to_ascii_lowercase(&fc);
                if crate::text::chars_equal(&fl, name_lower) {
                    return Some(k - 1);
                }
            },
            None => {},
        }
        k = k - 1;
    }
    None
}

/// The id and required files recorded for a local model file: those of the
/// catalog model with that download file name (up to ASCII case), else the
/// file name itself.
pub fn plan_local_model(file_name: &str, catalog: Option<&ModelCatalog>) -> (r: (String, Vec<String>))
    ensures
        (r.0@, str_views(r.1@)) == local_plan(
            file_name@,
            catalog_models_of(
                match catalog {
                    Some(c) => Some(*c),
                    None => None,
                },
            ),
        ),
{
    let fc = chars_of(file_name);
    let lower = to_ascii_lowercase(&fc);
    let found: Option<usize> = match catalog {
        Some(c) => catalog_lookup_exec(&c.models, &lower),
        None => None,
    };
    match found {
        Some(i) => {
            let c = catalog.unwrap();
            let m = &c.models[i];
            let required = if m.required_files.len() == 0 {
                let mut v: Vec<String> = Vec::new();
                v.push(owned(file_name));
                assert(str_views(v@) =~= seq![file_name@]);
                v
            } else {
                copy_strings(&m.required_files)
            };
            (owned(m.id.as_str()), required)
        },
        None => {
            let mut v: Vec<String> = Vec::new();
            v.push(owned(file_name));
            assert(str_views(v@) =~= seq![file_name@]);
            (owned(file_name), v)
        },
    }
}

fn upsert_named_locals(
    store: &mut SharedModelStore,
    input: &StoreSyncInput,
    catalog: Option<&ModelCatalog>,
    healths: &Vec<String>,
)
    requires
        str_views(healths@).len() == named_locals(input.local_models@).len(),
    ensures
        model_views(final(store).installed_models@) == upsert_model_views(
            model_views(old(store).installed_models@),
            local_model_views(
                named_locals(input.local_models@),
                catalog_models_of(
                    match catalog {
                        Some(c) => Some(*c),
                        None => None,
                    },
                ),
                str_views(healths@),
            ),
        ),
        final(store).installed_runtimes == old(store).installed_runtimes,
        final(store).schema_version == old(store).schema_version,
        final(store).store_version == old(store).store_version,
{
    let ghost cat = catalog_models_of(
        match catalog {
            Some(c) => Some(*c),
            None => None,
        },
    );
    let ghost ls = input.local_models@;
    let ghost hs = str_views(healths@);
    let ghost start = model_views(store.installed_models@);
    let mut i: usize = 0;
    let mut named: usize = 0;
    assert(ls.take(0) =~= seq![]);
    assert(local_model_views(named_locals(ls.take(0)), cat, hs.take(0)) =~= seq![]);
    while i < input.local_models.len()
        invariant
            i <= ls.len(),
            ls == input.local_models@,
            hs == str_views(healths@),
            hs.len() == named_locals(ls).len(),
            cat == catalog_models_of(
                match catalog {
                    Some(c) => Some(*c),
                    None => None,
                },
            ),
            named == named_locals(ls.take(i as int)).len(),
            named <= hs.len(),
            model_views(store.installed_models@) == upsert_model_views(
                start,
                local_model_views(named_locals(ls.take(i as int)), cat, hs.take(named as int)),
            ),
            store.installed_runtimes == old(store).installed_runtimes,
            store.schema_version == old(store).schema_version,
            store.store_version == old(store).store_version,
        decreases ls.len() - i,
    {
        assert(ls.take(i + 1).drop_last() =~= ls.take(i as int));
        assert(ls.take(i + 1).last() == ls[i as int]);
        proof {
            lemma_named_locals_prefix(ls, i as int + 1);
        }
        let l = &input.local_models[i];
        match &l.file_name {
            Some(f) => {
                let (id, required) = plan_local_model(f.as_str(), catalog);
                assert(named_locals(ls.take(i + 1)).len() == named + 1);
                assert(named < healths.len());
                let health = owned(healths[named].as_str());
                let model = InstalledModel {
                    id,
                    runtime_id: owned(EMBEDDED_RUNTIME_ID),
                    directory_path: owned(l.path.as_str()),
                    size_bytes: l.size_bytes,
                    is_default: Some(l.is_active),
                    health,
                    required_files: Some(required),
                    registered_at: None,
                };
                let ghost pre = store.installed_models@;
                let ghost names_before = named_locals(ls.take(i as int));
                let ghost names_after = named_locals(ls.take(i + 1));
                assert(names_after == names_before.push(ls[i as int]));
                assert(hs[named as int] == healths@[named as int]@);
                assert(model_view(model) == local_model_view(ls[i as int], cat, hs[named as int]));
                upsert_model(store, model);
                proof {
                    lemma_model_upsert_view(pre, model);
                    let before_v = local_model_views(names_before, cat, hs.take(named as int));
                    let after_v = local_model_views(names_after, cat, hs.take(named + 1));
                    assert(after_v =~= before_v.push(model_view(model)));
                    assert(after_v.drop_last() =~= before_v);
                }
                named = named + 1;
            },
            None => {
                assert(named_locals(ls.take(i + 1)) == named_locals(ls.take(i as int)));
            },
        }
        i = i + 1;
    }
    assert(ls.take(i as int) =~= ls);
    assert(hs.take(named as int) =~= hs);
}

proof fn lemma_named_locals_prefix(ls: Seq<LocalModelFile>, k: int)
    requires
        0 <= k <= ls.len(),
    ensures
        named_locals(ls.take(k)).len() <= named_locals(ls).len(),
    decreases ls.len(),
{
    if k < ls.len() {
        assert(ls.drop_last().take(k) =~= ls.take(k));
        lemma_named_locals_prefix(ls.drop_last(), k);
    } else {
        assert(ls.take(k) =~= ls);
    }
}

fn upsert_server_models(store: &mut SharedModelStore, input: &StoreSyncInput)
    ensures
        model_views(final(store).installed_models@) == upsert_model_views(
            model_views(old(store).installed_models@),
            server_model_views(input.server_models@, input.backend),
        ),
        final(store).installed_runtimes == old(store).installed_runtimes,
        final(store).schema_version == old(store).schema_version,
        final(store).store_version == old(store).store_version,
{
    proof {
        reveal_strlit("ok");
        reveal_strlit("missing_files");
    }
    let ghost ss = input.server_models@;
    let ghost start = model_views(store.installed_models@);
    let ghost all = server_model_views(ss, input.backend);
    let mut i: usize = 0;
    assert(all.take(0) =~= seq![]);
    while i < input.server_models.len()
        invariant
            i <= ss.len(),
            ss == input.server_models@,
            all == server_model_views(ss, input.backend),
            model_views(store.installed_models@) == upsert_model_views(start, all.take(i as int)),
            store.installed_runtimes == old(store).installed_runtimes,
            store.schema_version == old(store).schema_version,
            store.store_version == old(store).store_version,
        decreases ss.len() - i,
    {
        let s = &input.server_models[i];
        let health = if s.exists {
            owned("ok")
        } else {
            owned("missing_files")
        };
        let is_server = match input.backend {
            WhisperBackend::Server => true,
            WhisperBackend::Embedded => false,
        };
        let model = InstalledModel {
            id: owned(s.id.as_str()),
            runtime_id: owned(SERVER_RUNTIME_ID),
            directory_path: owned(s.path.as_str()),
            size_bytes: s.size_bytes,
            is_default: Some(is_server && s.is_active),
            health,
            required_files: None,
            registered_at: None,
        };
        assert(model_view(model) == all[i as int]);
        let ghost pre = store.installed_models@;
        upsert_model(store, model);
        proof {
            lemma_model_upsert_view(pre, model);
            assert(all.take(i + 1).drop_last() =~= all.take(i as int));
            assert(all.take(i + 1).last() == all[i as int]);
        }
        i = i + 1;
    }
    assert(all.take(i as int) =~= all);
}

/// Applies a snapshot to the store, with `healths` the health found for each
/// local model file that has a file name (in order): the managed runtimes are
/// upserted, the models of the managed runtimes are rebuilt from the local
/// files and the server models, and the active runtime and model, the writer
/// and the time (when given; the earlier one is kept otherwise) are
/// recorded.
pub fn apply_store_sync(
    store: &mut SharedModelStore,
    input: &StoreSyncInput,
    catalog: Option<&ModelCatalog>,
    healths: &Vec<String>,
    updated_at: Option<&str>,
)
    requires
        healths@.len() == named_locals(input.local_models@).len(),
    ensures
        store_synced(
            *old(store),
            *final(store),
            *input,
            catalog_models_of(
                match catalog {
                    Some(c) => Some(*c),
                    None => None,
                },
            ),
            str_views(healths@),
            match updated_at {
                Some(u) => Some(u@),
                None => None,
            },
        ),
{
    let prev_updated_at = store.updated_at.take();
    assert(opt_text(prev_updated_at) == opt_text(old(store).updated_at));
    let ghost rs0 = runtime_views(store.installed_runtimes@);
    let embedded = InstalledRuntime {
        id: owned(EMBEDDED_RUNTIME_ID),
        display_name: owned("Embedded whisper-rs"),
        kind: owned("whisper_rs"),
        version: None,
        entry_path: owned(input.models_dir.as_str()),
        disk_usage_bytes: input.models_dir_size,
    };
    let ghost pre = store.installed_runtimes@;
    upsert_runtime(store, embedded);
    proof {
        lemma_runtime_upsert_view(pre, embedded);
    }
    if input.server_runtime_present {
        let server = InstalledRuntime {
            id: owned(SERVER_RUNTIME_ID),
            display_name: owned("Server Python ASR"),
            kind: owned("faster_whisper"),
            version: None,
            entry_path: owned(input.server_runtime_root.as_str()),
            disk_usage_bytes: input.server_runtime_size,
        };
        let ghost pre2 = store.installed_runtimes@;
        upsert_runtime(store, server);
        proof {
            lemma_runtime_upsert_view(pre2, server);
        }
    }
    assert(runtime_views(store.installed_runtimes@) == synced_runtimes(rs0, *input));
    let ghost runtimes_done = store.installed_runtimes;
    drop_managed_models(store);
    upsert_named_locals(store, input, catalog, healths);
    upsert_server_models(store, input);
    store.models_root_path = owned(input.models_dir.as_str());
    store.active_runtime_id = match input.backend {
        WhisperBackend::Embedded => Some(owned(EMBEDDED_RUNTIME_ID)),
        WhisperBackend::Server => Some(owned(SERVER_RUNTIME_ID)),
    };
    store.active_model_id = match &input.active_model_file_name {
        Some(f) => Some(owned(f.as_str())),
        None => if chars_of(input.active_model_path.as_str()).len() > 0 {
            Some(owned(input.active_model_path.as_str()))
        } else {
            None
        },
    };
    store.updated_by = normalize_updated_by(input.updated_by.as_str());
    store.updated_at = match updated_at {
        Some(u) => Some(owned(u)),
        None => prev_updated_at,
    };
    assert(store.installed_runtimes == runtimes_done);
}

/// The catalog models of an optional catalog reference.
pub open spec fn catalog_models_ref(catalog: Option<&ModelCatalog>) -> Seq<CatalogModel> {
    catalog_models_of(
        match catalog {
            Some(c) => Some(*c),
            None => None,
        },
    )
}

/// What `mark_active` may make of a snapshot: the same snapshot, with each
/// local and server model marked active where its path is the active model
/// path (equal texts always are; std's path comparison decides other
/// spellings), and the active path's file name as `Path::file_name` gives it.
pub open spec fn marked_from(input: StoreSyncInput, r: StoreSyncInput) -> bool {
    &&& r.updated_by@ == input.updated_by@
    &&& r.backend == input.backend
    &&& r.models_dir@ == input.models_dir@
    &&& r.models_dir_size == input.models_dir_size
    &&& r.server_runtime_root@ == input.server_runtime_root@
    &&& r.server_runtime_present == input.server_runtime_present
    &&& r.server_runtime_size == input.server_runtime_size
    &&& r.active_model_path@ == input.active_model_path@
    &&& r.local_models@.len() == input.local_models@.len()
    &&& forall|i: int|
        0 <= i < r.local_models@.len() ==> {
            &&& (#[trigger] r.local_models@[i]).path@ == input.local_models@[i].path@
            &&& opt_text(r.local_models@[i].file_name) == opt_text(input.local_models@[i].file_name)
            &&& r.local_models@[i].size_bytes == input.local_models@[i].size_bytes
            &&& (input.local_models@[i].path@ == input.active_model_path@
                ==> r.local_models@[i].is_active)
        }
    &&& r.server_models@.len() == input.server_models@.len()
    &&& forall|i: int|
        0 <= i < r.server_models@.len() ==> {
            &&& (#[trigger] r.server_models@[i]).id@ == input.server_models@[i].id@
            &&& r.server_models@[i].path@ == input.server_models@[i].path@
            &&& r.server_models@[i].exists == input.server_models@[i].exists
            &&& r.server_models@[i].size_bytes == input.server_models@[i].size_bytes
            &&& (input.server_models@[i].path@ == input.active_model_path@
                ==> r.server_models@[i].is_active)
        }
    &&& (r.active_model_file_name matches Some(f) ==> f@.len() > 0 && contains(
        input.active_model_path@,
        f@,
    ))
    &&& (plain_file_name(input.active_model_path@) ==> opt_text(r.active_model_file_name) == Some(
        input.active_model_path@,
    ))
    &&& (after_last_slash(input.active_model_path@) matches Some(n) ==> (plain_file_name(n)
        && local_path_text(input.active_model_path@) ==> opt_text(r.active_model_file_name)
        == Some(n)))
}

fn copy_opt_text(o: &Option<String>) -> (r: Option<String>)
    ensures
        opt_text(r) == opt_text(*o),
{
    match o {
        Some(t) => Some(owned(t.as_str())),
        None => None,
    }
}

/// Marks which local and server models are the active model, comparing each
/// path with the active model path as std compares paths, and records the
/// active path's file name; the rest of the snapshot is kept.
pub fn mark_active(input: &StoreSyncInput) -> (r: StoreSyncInput)
    ensures
        marked_from(*input, r),
{
    let active = input.active_model_path.as_str();
    let mut locals: Vec<LocalModelFile> = Vec::new();
    let mut i: usize = 0;
    while i < input.local_models.len()
        invariant
            i <= input.local_models@.len(),
            active@ == input.active_model_path@,
            locals@.len() == i,
            forall|k: int|
                0 <= k < i ==> {
                    &&& (#[trigger] locals@[k]).path@ == input.local_models@[k].path@
                    &&& opt_text(locals@[k].file_name) == opt_text(input.local_models@[k].file_name)
                    &&& locals@[k].size_bytes == input.local_models@[k].size_bytes
                    &&& (input.local_models@[k].path@ == input.active_model_path@
                        ==> locals@[k].is_active)
                },
        decreases input.local_models@.len() - i,
    {
        let l = &input.local_models[i];
        let is_active = paths_equal(l.path.as_str(), active);
        locals.push(
            LocalModelFile {
                path: owned(l.path.as_str()),
                file_name: copy_opt_text(&l.file_name),
                size_bytes: l.size_bytes,
                is_active,
            },
        );
        i = i + 1;
    }
    let mut servers: Vec<ServerModelDir> = Vec::new();
    let mut j: usize = 0;
    while j < input.server_models.len()
        invariant
            j <= input.server_models@.len(),
            active@ == input.active_model_path@,
            servers@.len() == j,
            forall|k: int|
                0 <= k < j ==> {
                    &&& (#[trigger] servers@[k]).id@ == input.server_models@[k].id@
                    &&& servers@[k].path@ == input.server_models@[k].path@
                    &&& servers@[k].exists == input.server_models@[k].exists
                    &&& servers@[k].size_bytes == input.server_models@[k].size_bytes
                    &&& (input.server_models@[k].path@ == input.active_model_path@
                        ==> servers@[k].is_active)
                },
        decreases input.server_models@.len() - j,
    {
        let m = &input.server_models[j];
        let is_active = paths_equal(m.path.as_str(), active);
        servers.push(
            ServerModelDir {
                id: owned(m.id.as_str()),
                path: owned(m.path.as_str()),
                exists: m.exists,
                size_bytes: m.size_bytes,
                is_active,
            },
        );
        j = j + 1;
    }
    let file_name = path_file_name(active);
    proof {
        if after_last_slash(active@) is Some {
            lemma_after_last_slash(active@);
            let n = after_last_slash(active@)->0;
            let p = active@.take(active@.len() - n.len() - 1);
            assert(active@ == p + seq!['/'] + n);
        }
    }
    StoreSyncInput {
        updated_by: owned(input.updated_by.as_str()),
        backend: input.backend,
        models_dir: owned(input.models_dir.as_str()),
        models_dir_size: input.models_dir_size,
        server_runtime_root: owned(input.server_runtime_root.as_str()),
        server_runtime_present: input.server_runtime_present,
        server_runtime_size: input.server_runtime_size,
        local_models: locals,
        server_models: servers,
        active_model_path: owned(active),
        active_model_file_name: file_name,
    }
}

/// The health found for each named local model file is a verdict for some
/// outcome of the disk checks of that file's required files.
pub open spec fn healths_found(
    healths: Seq<Seq<char>>,
    locals: Seq<LocalModelFile>,
    catalog: Seq<CatalogModel>,
) -> bool {
    &&& healths.len() == locals.len()
    &&& forall|i: int|
        0 <= i < healths.len() ==> #[trigger] health_found(
            healths[i],
            local_plan(locals[i].file_name->0@, catalog).1.len(),
        )
}

/// Each health is the verdict for the answers that `probe` gave for the
/// models directory and the required files of that model file.
pub open spec fn healths_answered<F: Fn(&str) -> bool>(
    probe: F,
    models_dir: Seq<char>,
    healths: Seq<Seq<char>>,
    locals: Seq<LocalModelFile>,
    catalog: Seq<CatalogModel>,
) -> bool {
    &&& healths.len() == locals.len()
    &&& forall|i: int|
        0 <= i < healths.len() ==> #[trigger] health_answered(
            probe,
            models_dir,
            local_plan(locals[i].file_name->0@, catalog).1,
            healths[i],
        )
}

/// Syncs the store with a snapshot: the models that are the active model
/// are marked (`mark_active`), the health of each local model file is
/// checked with `probe` (the caller's existence check on the disk) against
/// its required files in the models directory (`evaluate_model_health`),
/// and the marked snapshot is applied with those verdicts and the current
/// UTC time to the second (`apply_store_sync`; the earlier time stays when
/// the clock cannot be read).
pub fn sync_shared_model_store<F: Fn(&str) -> bool>(
    store: &mut SharedModelStore,
    input: &StoreSyncInput,
    catalog: Option<&ModelCatalog>,
    probe: &F,
)
    requires
        forall|p: &str| #[trigger] call_requires(*probe, (p,)),
    ensures
        exists|marked: StoreSyncInput, healths: Seq<Seq<char>>, stamp: Option<Seq<char>>|
            #![trigger store_synced(*old(store), *final(store), marked, catalog_models_ref(catalog), healths, stamp)]
            marked_from(*input, marked) && marked.models_dir@ == input.models_dir@ && healths_answered(
                *probe,
                input.models_dir@,
                healths,
                named_locals(marked.local_models@),
                catalog_models_ref(catalog),
            ) && healths_found(
                healths,
                named_locals(marked.local_models@),
                catalog_models_ref(catalog),
            ) && (forall|i: int|
                0 <= i < healths.len() ==> #[trigger] healths[i] == "ok"@ || healths[i]
                    == "missing_files"@) && (stamp matches Some(t) ==> exists|secs: i64, nanos: u32|
                #[trigger] rfc3339_secs_of(secs, nanos) == Some(t)) && store_synced(
                *old(store),
                *final(store),
                marked,
                catalog_models_ref(catalog),
                healths,
                stamp,
            ),
{
    let marked = mark_active(input);
    let ghost ls = marked.local_models@;
    let ghost cat = catalog_models_ref(catalog);
    let mut healths: Vec<String> = Vec::new();
    let mut i: usize = 0;
    assert(ls.take(0) =~= seq![]);
    while i < marked.local_models.len()
        invariant
            i <= ls.len(),
            ls == marked.local_models@,
            marked.models_dir@ == input.models_dir@,
            forall|p: &str| #[trigger] call_requires(*probe, (p,)),
            cat == catalog_models_ref(catalog),
            healths_found(str_views(healths@), named_locals(ls.take(i as int)), cat),
            healths_answered(
                *probe,
                input.models_dir@,
                str_views(healths@),
                named_locals(ls.take(i as int)),
                cat,
            ),
            forall|k: int|
                0 <= k < healths@.len() ==> #[trigger] healths@[k]@ == "ok"@ || healths@[k]@
                    == "missing_files"@,
        decreases ls.len() - i,
    {
        assert(ls.take(i + 1).drop_last() =~= ls.take(i as int));
        assert(ls.take(i + 1).last() == ls[i as int]);
        let ghost before = str_views(healths@);
        let ghost nl = named_locals(ls.take(i as int));
        match &marked.local_models[i].file_name {
            Some(f) => {
                let (_, required) = plan_local_model(f.as_str(), catalog);
                let h = evaluate_model_health(input.models_dir.as_str(), &required, probe);
                healths.push(h);
                proof {
                    let nl2 = named_locals(ls.take(i + 1));
                    assert(nl2 == nl.push(ls[i as int]));
                    assert(str_views(healths@) =~= before.push(h@));
                    assert(str_views(required@).len() == required@.len());
                    assert forall|k: int| 0 <= k < str_views(healths@).len() implies #[trigger] health_found(
                        str_views(healths@)[k],
                        local_plan(nl2[k].file_name->0@, cat).1.len(),
                    ) by {
                        if k < before.len() {
                            assert(str_views(healths@)[k] == before[k]);
                            assert(nl2[k] == nl[k]);
                        }
                    }
                    assert forall|k: int| 0 <= k < str_views(healths@).len() implies #[trigger] health_answered(
                        *probe,
                        input.models_dir@,
                        local_plan(nl2[k].file_name->0@, cat).1,
                        str_views(healths@)[k],
                    ) by {
                        if k < before.len() {
                            assert(str_views(healths@)[k] == before[k]);
                            assert(nl2[k] == nl[k]);
                        }
                    }
                }
            },
            None => {
                assert(named_locals(ls.take(i + 1)) == nl);
            },
        }
        i = i + 1;
    }
    assert(ls.take(i as int) =~= ls);
    let stamp = now_rfc3339_secs();
    let ghost stamp_view: Option<Seq<char>> = if stamp is Some {
        Some(stamp->0@)
    } else {
        None
    };
    match &stamp {
        Some(t) => apply_store_sync(store, &marked, catalog, &healths, Some(t.as_str())),
        None => apply_store_sync(store, &marked, catalog, &healths, None),
    }
    assert(store_synced(
        *old(store),
        *store,
        marked,
        catalog_models_ref(catalog),
        str_views(healths@),
        stamp_view,
    ));
    assert(forall|k: int|
        0 <= k < str_views(healths@).len() ==> #[trigger] str_views(healths@)[k] == "ok"@
            || str_views(healths@)[k] == "missing_files"@);
    assert(stamp_view matches Some(t) ==> exists|secs: i64, nanos: u32|
        #[trigger] rfc3339_secs_of(secs, nanos) == Some(t));
}

/// The positions of the server models kept: sorted by id, then each id equal
/// (up to ASCII case) to the previous kept one dropped.
pub open spec fn kept_server_models(found: Seq<(String, String)>) -> Seq<int> {
    let ids = found.map_values(|f: (String, String)| f.0@);
    dedup_ascii(ids, stable_order(ids))
}

/// Orders the server models found on disk (id, path) by id, listing each id
/// (up to ASCII case) once.
pub fn finalize_server_models(found: &Vec<(String, String)>) -> (r: Vec<(String, String)>)
    ensures
        r@.len() == kept_server_models(found@).len(),
        forall|j: int|
            0 <= j < r@.len() ==> 0 <= kept_server_models(found@)[j] < found@.len() && (
            #[trigger] r@[j]).0@ == found@[kept_server_models(found@)[j]].0@ && r@[j].1@
                == found@[kept_server_models(found@)[j]].1@,
{
    let mut keys: Vec<Vec<char>> = Vec::new();
    let mut i: usize = 0;
    while i < found.len()
        invariant
            i <= found@.len(),
            keys@.len() == i,
            forall|j: int| 0 <= j < i ==> #[trigger] keys@[j]@ == found@[j].0@,
        decreases found@.len() - i,
    {
        keys.push(chars_of(found[i].0.as_str()));
        i = i + 1;
    }
    assert(crate::text::views(keys@) =~= found@.map_values(|f: (String, String)| f.0@));
    let order = sorted_positions(&keys);
    let kept = dedup_positions(&keys, &order);
    let ghost d = kept@.map_values(|p: usize| p as int);
    assert(d == kept_server_models(found@));
    let mut out: Vec<(String, String)> = Vec::new();
    let mut k: usize = 0;
    while k < kept.len()
        invariant
            k <= kept@.len(),
            d == kept@.map_values(|p: usize| p as int),
            d == kept_server_models(found@),
            keys@.len() == found@.len(),
            forall|j: int| 0 <= j < kept@.len() ==> #[trigger] kept@[j] < keys@.len(),
            out@.len() == k,
            forall|j: int|
                0 <= j < k ==> 0 <= d[j] < found@.len() && (#[trigger] out@[j]).0@ == found@[d[j]].0@
                    && out@[j].1@ == found@[d[j]].1@,
        decreases kept@.len() - k,
    {
        let p = kept[k];
        assert(d[k as int] == p as int);
        out.push((owned(found[p].0.as_str()), owned(found[p].1.as_str())));
        k = k + 1;
    }
    out
}

} // verus!
