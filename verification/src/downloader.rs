//! The list of GGML Whisper models offered for download, and the health of a
//! downloaded model.

use vstd::prelude::*;
use crate::hardware::{owned, HostOs};
use crate::config::{audio_models_location, audio_models_path, default_audio_models_dir, PlatformDirsEnv};
use crate::model_store::{
    evaluate_model_health, health_answered, health_found, CatalogModel, ModelCatalog,
};
use crate::text::{
    chars_of, ends_with, ends_with_exec, push_chars, push_str, starts_with, starts_with_exec,
    str_equal, str_views, string_from_chars,
};

verus! {

/// A downloadable GGML model resolved from the shared catalog.
#[derive(Debug, Clone)]
pub struct DownloadableModel {
    pub id: String,
    /// Display name shown in the UI (e.g. "base").
    pub name: String,
    /// File name at the source (e.g. "ggml-base.bin").
    pub filename: String,
    /// Direct download URL.
    pub download_url: String,
    /// Approximate size in MiB (for display only).
    pub size_mb: u32,
    /// Files that must be present for the model to count as healthy.
    pub required_files: Vec<String>,
}

/// A downloadable model as the contracts see it: id, name, file name, URL,
/// size in MiB and required files.
pub type DownloadableView = (Seq<char>, Seq<char>, Seq<char>, Seq<char>, u32, Seq<Seq<char>>);

pub open spec fn downloadable_view(m: DownloadableModel) -> DownloadableView {
    (m.id@, m.name@, m.filename@, m.download_url@, m.size_mb, str_views(m.required_files@))
}

pub open spec fn downloadable_views(ms: Seq<DownloadableModel>) -> Seq<DownloadableView> {
    ms.map_values(|m: DownloadableModel| downloadable_view(m))
}

pub const DOWNLOAD_BASE_URL: &'static str =
    "https://huggingface.co/ggerganov/whisper.cpp/resolve/main/";

pub open spec fn download_url_for(filename: Seq<char>) -> Seq<char> {
    DOWNLOAD_BASE_URL@ + filename
}

/// The download URL of a file in the upstream whisper.cpp model repository.
pub fn default_download_url(filename: &str) -> (r: String)
    ensures
        r@ == download_url_for(filename@),
{
    let mut v: Vec<char> = Vec::new();
    push_str(&mut v, DOWNLOAD_BASE_URL);
    let f = chars_of(filename);
    push_chars(&mut v, &f);
    string_from_chars(&v)
}

/// The display name of a model file: `ggml-base.bin` gives `base`. A name
/// without the `.bin` suffix is kept whole; the `ggml-` prefix is dropped only
/// together with the suffix.
pub open spec fn short_name(f: Seq<char>) -> Seq<char> {
    if ends_with(f, ".bin"@) {
        if starts_with(f, "ggml-"@) {
            f.subrange(5, f.len() - 4)
        } else {
            f.subrange(0, f.len() - 4)
        }
    } else {
        f
    }
}

/// The display name of a model file (see `short_name`).
pub fn filename_to_short_name(filename: &str) -> (r: String)
    ensures
        r@ == short_name(filename@),
{
    proof {
        reveal_strlit(".bin");
        reveal_strlit("ggml-");
    }
    let f = chars_of(filename);
    let suffix = chars_of(".bin");
    let prefix = chars_of("ggml-");
    if !ends_with_exec(&f, &suffix) {
        return string_from_chars(&f);
    }
    let end = f.len() - 4;
    if starts_with_exec(&f, &prefix) {
        // The prefix and the suffix cannot overlap: no character of the
        // prefix is a dot.
        assert(f@.skip(end as int) == ".bin"@);
        assert(f@[end as int] == f@.skip(end as int)[0]);
        assert(f@[end as int] == '.');
        if end < 5 {
            assert(f@.take(5) == "ggml-"@);
            assert(f@[end as int] == f@.take(5)[end as int]);
        }
        string_from_chars(&crate::text::slice_chars(&f, 5, end))
    } else {
        string_from_chars(&crate::text::slice_chars(&f, 0, end))
    }
}

/// A size in bytes rounded up to whole MiB, saturating at `u32::MAX`.
pub open spec fn ceil_mib(bytes: u64) -> u32 {
    let mib = (bytes as int + 1048575) / 1048576;
    if mib > u32::MAX {
        u32::MAX
    } else {
        mib as u32
    }
}

fn ceil_mib_exec(bytes: u64) -> (r: u32)
    ensures
        r == ceil_mib(bytes),
{
    let q = bytes / 1048576;
    let mib: u64 = if bytes % 1048576 != 0 {
        q + 1
    } else {
        q
    };
    assert(mib as int == (bytes as int + 1048575) / 1048576) by (nonlinear_arith)
        requires
            q == bytes / 1048576,
            bytes % 1048576 != 0 ==> mib == q + 1,
            bytes % 1048576 == 0 ==> mib == q,
    ;
    if mib > 4294967295 {
        4294967295
    } else {
        mib as u32
    }
}

/// A catalog model is offered for download when it is a GGML Whisper model
/// that the embedded runtime supports.
pub open spec fn offered(m: CatalogModel) -> bool {
    &&& m.family@ == "whisper_ggml"@
    &&& str_views(m.supported_backends@).contains("embedded_whisper_rs"@)
}

/// The downloadable entry of an offered catalog model with a download file
/// name: the catalog URL or the default one, the catalog's required files or
/// the file itself, and the size rounded up to MiB.
pub open spec fn catalog_entry(m: CatalogModel, filename: Seq<char>) -> DownloadableView {
    (
        m.id@,
        short_name(filename),
        filename,
        match m.download_url {
            Some(u) => u@,
            None => download_url_for(filename),
        },
        ceil_mib(m.size_bytes),
        if m.required_files@.len() == 0 {
            seq![filename]
        } else {
            str_views(m.required_files@)
        },
    )
}

pub open spec fn catalog_entries(ms: Seq<CatalogModel>) -> Seq<DownloadableView>
    decreases ms.len(),
{
    if ms.len() == 0 {
        seq![]
    } else {
        let rest = catalog_entries(ms.drop_last());
        let m = ms.last();
        if offered(m) && m.download_filename is Some {
            rest.push(catalog_entry(m, m.download_filename->0@))
        } else {
            rest
        }
    }
}

pub open spec fn fallback_entry(id: Seq<char>, filename: Seq<char>, size_mb: u32) -> DownloadableView {
    (id, short_name(filename), filename, download_url_for(filename), size_mb, seq![filename])
}

/// The models offered when the catalog offers none.
pub open spec fn fallback_entries() -> Seq<DownloadableView> {
    seq![
        fallback_entry("whisper-ggml-tiny"@, "ggml-tiny.bin"@, 39),
        fallback_entry("whisper-ggml-base"@, "ggml-base.bin"@, 74),
        fallback_entry("whisper-ggml-small"@, "ggml-small.bin"@, 244),
        fallback_entry("whisper-ggml-medium"@, "ggml-medium.bin"@, 769),
        fallback_entry("whisper-ggml-large-v3-turbo"@, "ggml-large-v3-turbo.bin"@, 874),
        fallback_entry("whisper-ggml-large-v3"@, "ggml-large-v3.bin"@, 1550),
    ]
}

/// The position at which `x` joins a list sorted by size: after every entry
/// that is not larger.
pub open spec fn insert_pos(sorted: Seq<DownloadableView>, x: DownloadableView) -> int
    decreases sorted.len(),
{
    if sorted.len() == 0 {
        0
    } else if sorted.last().4 <= x.4 {
        sorted.len() as int
    } else {
        insert_pos(sorted.drop_last(), x)
    }
}

/// Stable sort by size: each entry in turn joins the sorted list after the
/// entries that are not larger than it.
pub open spec fn sort_by_size(s: Seq<DownloadableView>) -> Seq<DownloadableView>
    decreases s.len(),
{
    if s.len() == 0 {
        seq![]
    } else {
        let sorted = sort_by_size(s.drop_last());
        sorted.insert(insert_pos(sorted, s.last()), s.last())
    }
}

/// The offered models: those of the catalog when it offers any, else the
/// built-in list, sorted by size with ties kept in order.
pub open spec fn downloadable_models(catalog: Option<ModelCatalog>) -> Seq<DownloadableView> {
    let from_catalog = match catalog {
        Some(c) => catalog_entries(c.models@),
        None => seq![],
    };
    sort_by_size(
        if from_catalog.len() == 0 {
            fallback_entries()
        } else {
            from_catalog
        },
    )
}

fn copy_strings(v: &Vec<String>) -> (r: Vec<String>)
    ensures
        str_views(r@) == str_views(v@),
{
    let mut out: Vec<String> = Vec::new();
    let mut i: usize = 0;
    while i < v.len()
        invariant
            i <= v@.len(),
            str_views(out@) == str_views(v@).take(i as int),
        decreases v@.len() - i,
    {
        let ghost before = out@;
        out.push(owned(v[i].as_str()));
        assert(str_views(out@) =~= str_views(before).push(v@[i as int]@));
        assert(str_views(v@).take(i + 1) =~= str_views(v@).take(i as int).push(v@[i as int]@));
        i = i + 1;
    }
    assert(str_views(v@).take(i as int) =~= str_views(v@));
    out
}

fn offered_exec(m: &CatalogModel) -> (r: bool)
    ensures
        r == offered(*m),
{
    if !str_equal(m.family.as_str(), "whisper_ggml") {
        return false;
    }
    let ghost bs = str_views(m.supported_backends@);
    let mut i: usize = 0;
    while i < m.supported_backends.len()
        invariant
            i <= m.supported_backends@.len(),
            bs == str_views(m.supported_backends@),
            m.family@ == "whisper_ggml"@,
            forall|j: int| 0 <= j < i ==> bs[j] != "embedded_whisper_rs"@,
        decreases m.supported_backends@.len() - i,
    {
        assert(bs[i as int] == m.supported_backends@[i as int]@);
        if str_equal(m.supported_backends[i].as_str(), "embedded_whisper_rs") {
            assert(bs[i as int] == "embedded_whisper_rs"@);
            return true;
        }
        i = i + 1;
    }
    assert(!bs.contains("embedded_whisper_rs"@));
    false
}

fn entry_from_catalog(m: &CatalogModel, filename: &String) -> (r: DownloadableModel)
    ensures
        downloadable_view(r) == catalog_entry(*m, filename@),
{
    let download_url = match &m.download_url {
        Some(u) => owned(u.as_str()),
        None => default_download_url(filename.as_str()),
    };
    let required_files = if m.required_files.len() == 0 {
        let mut v: Vec<String> = Vec::new();
        v.push(owned(filename.as_str()));
        assert(str_views(v@) =~= seq![filename@]);
        v
    } else {
        copy_strings(&m.required_files)
    };
    DownloadableModel {
        id: owned(m.id.as_str()),
        name: filename_to_short_name(filename.as_str()),
        filename: owned(filename.as_str()),
        download_url,
        size_mb: ceil_mib_exec(m.size_bytes),
        required_files,
    }
}

fn fallback_model(id: &str, filename: &str, size_mb: u32) -> (r: DownloadableModel)
    ensures
        downloadable_view(r) == fallback_entry(id@, filename@, size_mb),
{
    let mut required_files: Vec<String> = Vec::new();
    required_files.push(owned(filename));
    assert(str_views(required_files@) =~= seq![filename@]);
    DownloadableModel {
        id: owned(id),
        name: filename_to_short_name(filename),
        filename: owned(filename),
        download_url: default_download_url(filename),
        size_mb,
        required_files,
    }
}

fn push_model(out: &mut Vec<DownloadableModel>, m: DownloadableModel)
    ensures
        downloadable_views(final(out)@) == downloadable_views(old(out)@).push(downloadable_view(m)),
{
    let ghost before = out@;
    out.push(m);
    assert(downloadable_views(out@) =~= downloadable_views(before).push(downloadable_view(m)));
}

fn fallback_models() -> (r: Vec<DownloadableModel>)
    ensures
        downloadable_views(r@) == fallback_entries(),
{
    let mut out: Vec<DownloadableModel> = Vec::new();
    assert(downloadable_views(out@) =~= seq![]);
    push_model(&mut out, fallback_model("whisper-ggml-tiny", "ggml-tiny.bin", 39));
    push_model(&mut out, fallback_model("whisper-ggml-base", "ggml-base.bin", 74));
    push_model(&mut out, fallback_model("whisper-ggml-small", "ggml-small.bin", 244));
    push_model(&mut out, fallback_model("whisper-ggml-medium", "ggml-medium.bin", 769));
    push_model(
        &mut out,
        fallback_model("whisper-ggml-large-v3-turbo", "ggml-large-v3-turbo.bin", 874),
    );
    push_model(&mut out, fallback_model("whisper-ggml-large-v3", "ggml-large-v3.bin", 1550));
    assert(downloadable_views(out@) =~= fallback_entries());
    out
}

fn catalog_models(models: &Vec<CatalogModel>) -> (r: Vec<DownloadableModel>)
    ensures
        downloadable_views(r@) == catalog_entries(models@),
{
    let mut out: Vec<DownloadableModel> = Vec::new();
    let mut i: usize = 0;
    assert(models@.take(0) =~= seq![]);
    assert(downloadable_views(out@) =~= seq![]);
    while i < models.len()
        invariant
            i <= models@.len(),
            downloadable_views(out@) == catalog_entries(models@.take(i as int)),
        decreases models@.len() - i,
    {
        assert(models@.take(i + 1).drop_last() == models@.take(i as int));
        assert(models@.take(i + 1).last() == models@[i as int]);
        let m = &models[i];
        if offered_exec(m) {
            match &m.download_filename {
                Some(f) => {
                    push_model(&mut out, entry_from_catalog(m, f));
                },
                None => {},
            }
        }
        i = i + 1;
    }
    assert(models@.take(i as int) == models@);
    out
}

fn insert_pos_exec(sorted: &Vec<DownloadableModel>, size_mb: u32) -> (r: usize)
    ensures
        r as int == insert_pos(
            downloadable_views(sorted@),
            (Seq::empty(), Seq::empty(), Seq::empty(), Seq::empty(), size_mb, Seq::empty()),
        ),
{
    let ghost x: DownloadableView = (
        Seq::empty(),
        Seq::empty(),
        Seq::empty(),
        Seq::empty(),
        size_mb,
        Seq::empty(),
    );
    let ghost vs = downloadable_views(sorted@);
    let mut k: usize = sorted.len();
    assert(vs.take(k as int) =~= vs);
    while k > 0
        invariant
            k <= sorted@.len(),
            vs == downloadable_views(sorted@),
            x == (
                Seq::<char>::empty(),
                Seq::<char>::empty(),
                Seq::<char>::empty(),
                Seq::<char>::empty(),
                size_mb,
                Seq::<Seq<char>>::empty(),
            ),
            insert_pos(vs, x) == insert_pos(vs.take(k as int), x),
        decreases k,
    {
        assert(vs.take(k as int).last() == vs[k - 1]);
        assert(vs.take(k as int).drop_last() =~= vs.take(k - 1));
        assert(vs[k - 1] == downloadable_view(sorted@[k - 1]));
        assert(insert_pos(vs.take(k as int), x) == if vs[k - 1].4 <= x.4 {
            k as int
        } else {
            insert_pos(vs.take(k - 1), x)
        });
        if sorted[k - 1].size_mb <= size_mb {
            return k;
        }
        k = k - 1;
    }
    k
}

proof fn lemma_insert_pos_size_only(sorted: Seq<DownloadableView>, x: DownloadableView, y: DownloadableView)
    requires
        x.4 == y.4,
    ensures
        insert_pos(sorted, x) == insert_pos(sorted, y),
        0 <= insert_pos(sorted, x) <= sorted.len(),
    decreases sorted.len(),
{
    if sorted.len() > 0 {
        lemma_insert_pos_size_only(sorted.drop_last(), x, y);
    }
}

fn copy_model(m: &DownloadableModel) -> (r: DownloadableModel)
    ensures
        downloadable_view(r) == downloadable_view(*m),
{
    DownloadableModel {
        id: owned(m.id.as_str()),
        name: owned(m.name.as_str()),
        filename: owned(m.filename.as_str()),
        download_url: owned(m.download_url.as_str()),
        size_mb: m.size_mb,
        required_files: copy_strings(&m.required_files),
    }
}

fn sort_models_by_size(models: &Vec<DownloadableModel>) -> (r: Vec<DownloadableModel>)
    ensures
        downloadable_views(r@) == sort_by_size(downloadable_views(models@)),
{
    let ghost input = downloadable_views(models@);
    let mut sorted: Vec<DownloadableModel> = Vec::new();
    assert(downloadable_views(sorted@) =~= sort_by_size(input.take(0)));
    let mut i: usize = 0;
    while i < models.len()
        invariant
            i <= models@.len(),
            input == downloadable_views(models@),
            downloadable_views(sorted@) == sort_by_size(input.take(i as int)),
        decreases models@.len() - i,
    {
        let m = copy_model(&models[i]);
        let ghost vs = downloadable_views(sorted@);
        assert(input.take(i + 1).drop_last() =~= input.take(i as int));
        assert(input.take(i + 1).last() == downloadable_view(m));
        let pos = insert_pos_exec(&sorted, m.size_mb);
        proof {
            lemma_insert_pos_size_only(
                vs,
                downloadable_view(m),
                (Seq::empty(), Seq::empty(), Seq::empty(), Seq::empty(), m.size_mb, Seq::empty()),
            );
        }
        sorted.insert(pos, m);
        assert(downloadable_views(sorted@) =~= vs.insert(pos as int, downloadable_view(m)));
        i = i + 1;
    }
    assert(input.take(i as int) =~= input);
    sorted
}

pub open spec fn sorted_by_size(s: Seq<DownloadableView>) -> bool {
    forall|i: int, j: int| 0 <= i < j < s.len() ==> #[trigger] s[i].4 <= #[trigger] s[j].4
}

proof fn lemma_insert_pos_splits(sorted: Seq<DownloadableView>, x: DownloadableView)
    requires
        sorted_by_size(sorted),
    ensures
        0 <= insert_pos(sorted, x) <= sorted.len(),
        forall|i: int| 0 <= i < insert_pos(sorted, x) ==> #[trigger] sorted[i].4 <= x.4,
        forall|i: int| insert_pos(sorted, x) <= i < sorted.len() ==> #[trigger] sorted[i].4 > x.4,
    decreases sorted.len(),
{
    if sorted.len() > 0 {
        let d = sorted.drop_last();
        assert(sorted_by_size(d));
        lemma_insert_pos_splits(d, x);
        if sorted.last().4 <= x.4 {
            assert forall|i: int| 0 <= i < sorted.len() implies #[trigger] sorted[i].4 <= x.4 by {
                if i < sorted.len() - 1 {
                    assert(sorted[i].4 <= sorted[sorted.len() - 1].4);
                }
            }
        } else {
            assert forall|i: int| 0 <= i < insert_pos(sorted, x) implies #[trigger] sorted[i].4
                <= x.4 by {
                assert(sorted[i] == d[i]);
            }
            assert forall|i: int|
                insert_pos(sorted, x) <= i < sorted.len() implies #[trigger] sorted[i].4 > x.4 by {
                if i < sorted.len() - 1 {
                    assert(sorted[i] == d[i]);
                }
            }
        }
    }
}

/// The offered list is ordered by size and holds exactly the entries it was
/// made from: sorting neither drops nor duplicates a model.
pub proof fn lemma_sort_by_size_sorts(s: Seq<DownloadableView>)
    ensures
        sorted_by_size(sort_by_size(s)),
        sort_by_size(s).to_multiset() == s.to_multiset(),
        sort_by_size(s).len() == s.len(),
    decreases s.len(),
{
    broadcast use vstd::seq_lib::to_multiset_insert, vstd::seq_lib::to_multiset_build,
        vstd::seq_lib::to_multiset_len;

    if s.len() == 0 {
        assert(s =~= sort_by_size(s));
    } else {
        let d = s.drop_last();
        let x = s.last();
        lemma_sort_by_size_sorts(d);
        let sorted = sort_by_size(d);
        lemma_insert_pos_splits(sorted, x);
        let p = insert_pos(sorted, x);
        let r = sorted.insert(p, x);
        assert forall|i: int, j: int| 0 <= i < j < r.len() implies #[trigger] r[i].4
            <= #[trigger] r[j].4 by {
            if j < p {
                assert(r[i] == sorted[i] && r[j] == sorted[j]);
            } else if j == p {
                assert(r[i] == sorted[i]);
            } else if i < p {
                assert(r[i] == sorted[i] && r[j] == sorted[j - 1]);
            } else if i == p {
                assert(r[j] == sorted[j - 1]);
            } else {
                assert(r[i] == sorted[i - 1] && r[j] == sorted[j - 1]);
            }
        }
        assert(s =~= d.push(x));
    }
}

/// The seconds left of a download: what remains at the current rate,
/// rounded down; unknown when the total size or the rate is.
pub open spec fn eta_of(total_bytes: u64, downloaded_bytes: u64, bytes_per_sec: u64) -> Option<u64> {
    if total_bytes > 0 && bytes_per_sec > 0 {
        Some(
            ((if total_bytes >= downloaded_bytes {
                total_bytes - downloaded_bytes
            } else {
                0
            }) / bytes_per_sec as int) as u64,
        )
    } else {
        None
    }
}

pub fn download_eta_seconds(total_bytes: u64, downloaded_bytes: u64, bytes_per_sec: u64) -> (r: Option<u64>)
    ensures
        r == eta_of(total_bytes, downloaded_bytes, bytes_per_sec),
{
    if total_bytes > 0 && bytes_per_sec > 0 {
        Some(total_bytes.saturating_sub(downloaded_bytes) / bytes_per_sec)
    } else {
        None
    }
}

/// Where a download lands, and the temporary file it is written to first
/// (the file name with `.tmp` appended), both in `target_dir`.
pub fn download_paths(target_dir: &str, filename: &str) -> (r: (String, String))
    ensures
        crate::paths::plain_relative(filename@) ==> {
            &&& ends_with(r.0@, filename@)
            &&& ends_with(r.1@, filename@ + ".tmp"@)
        },
        crate::paths::plain_relative(filename@) && crate::paths::no_verbatim(target_dir@) ==> {
            &&& crate::paths::joined(r.0@, target_dir@, filename@)
            &&& crate::paths::joined(r.1@, target_dir@, filename@ + ".tmp"@)
        },
{
    let dest = crate::paths::path_join(target_dir, filename);
    let mut tmp_name = chars_of(filename);
    push_str(&mut tmp_name, ".tmp");
    let tmp_name = string_from_chars(&tmp_name);
    proof {
        reveal_strlit(".tmp");
        if crate::paths::plain_relative(filename@) {
            crate::paths::lemma_plain_with_suffix(filename@, ".tmp"@);
        }
    }
    let tmp = crate::paths::path_join(target_dir, tmp_name.as_str());
    (dest, tmp)
}

/// Where downloaded models go: the shared models directory
/// (`default_audio_models_dir`).
pub fn default_models_dir(os: HostOs, env: &PlatformDirsEnv) -> (r: String)
    ensures
        ends_with(r@, audio_models_location(os, *env).1),
        crate::paths::no_verbatim(audio_models_location(os, *env).0) ==> audio_models_path(
            os,
            *env,
            r@,
        ) && starts_with(r@, audio_models_location(os, *env).0),
        os == HostOs::Unknown ==> r@ == "./audio-models"@,
{
    default_audio_models_dir(os, env)
}

/// The models offered for download: those of the shared catalog when it
/// offers any (GGML Whisper models for the embedded runtime that name a
/// download file), else the built-in list; sorted by size, ties kept in
/// order. `catalog` is the embedded catalog, `None` when it could not be read
/// or its schema was refused.
pub fn get_downloadable_models(catalog: Option<&ModelCatalog>) -> (r: Vec<DownloadableModel>)
    ensures
        downloadable_views(r@) == downloadable_models(
            match catalog {
                Some(c) => Some(*c),
                None => None,
            },
        ),
{
    let from_catalog = match catalog {
        Some(c) => catalog_models(&c.models),
        None => {
            let v: Vec<DownloadableModel> = Vec::new();
            assert(downloadable_views(v@) =~= seq![]);
            v
        },
    };
    let models = if from_catalog.len() == 0 {
        fallback_models()
    } else {
        from_catalog
    };
    sort_models_by_size(&models)
}

/// What the file system reports of a required file (`std::fs::metadata`).
#[derive(Debug, Clone, Copy, PartialEq, Eq, Structural)]
pub struct FileStat {
    pub is_file: bool,
    pub len: u64,
}

/// The verdict on the required files, checked in order: the first one that
/// could not be read makes `missing_files`, the first empty regular file
/// makes `corrupt_file`; otherwise `ok`.
pub open spec fn stat_verdict(stats: Seq<Option<FileStat>>) -> Seq<char>
    decreases stats.len(),
{
    if stats.len() == 0 {
        "ok"@
    } else {
        match stats[0] {
            None => "missing_files"@,
            Some(st) => if st.is_file && st.len == 0 {
                "corrupt_file"@
            } else {
                stat_verdict(stats.drop_first())
            },
        }
    }
}

/// A health other than `ok` stands; an `ok` one is refined by the stats.
pub open spec fn refined_health(base: Seq<char>, stats: Seq<Option<FileStat>>) -> Seq<char> {
    if base != "ok"@ {
        base
    } else {
        stat_verdict(stats)
    }
}

/// Refines a presence verdict with the stats of the required files (in the
/// order of `required_files`).
pub fn health_from_stats(base: &str, stats: &[Option<FileStat>]) -> (r: String)
    ensures
        r@ == refined_health(base@, stats@),
{
    proof {
        reveal_strlit("ok");
        reveal_strlit("missing_files");
        reveal_strlit("corrupt_file");
    }
    if !str_equal(base, "ok") {
        return owned(base);
    }
    let mut i: usize = 0;
    assert(stats@.skip(0) =~= stats@);
    while i < stats.len()
        invariant
            i <= stats@.len(),
            base@ == "ok"@,
            stat_verdict(stats@) == stat_verdict(stats@.skip(i as int)),
        decreases stats@.len() - i,
    {
        assert(stats@.skip(i as int)[0] == stats@[i as int]);
        assert(stats@.skip(i as int).drop_first() =~= stats@.skip(i + 1));
        match stats[i] {
            None => {
                return owned("missing_files");
            },
            Some(st) => {
                if st.is_file && st.len == 0 {
                    return owned("corrupt_file");
                }
            },
        }
        i = i + 1;
    }
    assert(stats@.skip(i as int) =~= seq![]);
    owned("ok")
}

/// The health of a downloaded model under `models_root`: the required files
/// must exist (`missing_files` otherwise) and none may be an empty file
/// (`corrupt_file`). `probe` is the caller's existence check on the disk and
/// `stats` holds what the file system reports of each required file, in
/// order; the verdict is the refinement by `stats` of the presence verdict
/// for the answers `probe` gave (`evaluate_model_health`).
pub fn model_health<F: Fn(&str) -> bool>(
    models_root: &str,
    model: &DownloadableModel,
    stats: &[Option<FileStat>],
    probe: &F,
) -> (r: String)
    requires
        forall|p: &str| #[trigger] call_requires(*probe, (p,)),
    ensures
        r@ == "missing_files"@ || r@ == stat_verdict(stats@),
        exists|base: Seq<char>|
            #[trigger] health_answered(*probe, models_root@, str_views(model.required_files@), base)
                && health_found(base, model.required_files@.len()) && r@ == refined_health(
                base,
                stats@,
            ),
{
    proof {
        reveal_strlit("ok");
        reveal_strlit("missing_files");
    }
    let health = evaluate_model_health(models_root, &model.required_files, probe);
    let r = health_from_stats(health.as_str(), stats);
    assert(health_answered(*probe, models_root@, str_views(model.required_files@), health@)
        && health_found(health@, model.required_files@.len()) && r@ == refined_health(health@, stats@));
    r
}


/// The download list is never empty: without catalog models the built-in
/// list is offered.
pub proof fn lemma_downloadable_models_nonempty(catalog: Option<ModelCatalog>)
    ensures
        downloadable_models(catalog).len() > 0,
{
    let from_catalog = match catalog {
        Some(c) => catalog_entries(c.models@),
        None => seq![],
    };
    let base = if from_catalog.len() == 0 {
        fallback_entries()
    } else {
        from_catalog
    };
    lemma_sort_by_size_sorts(base);
}

} // verus!
