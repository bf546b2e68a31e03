//! Publishing a package: where its files are read from, whether the archive
//! goes up in chunks, and how each chunk is announced.

use vstd::prelude::*;
use vstd::string::StringExecFns;
use crate::config::{join_path, spec_join};
use crate::text::{lemma_split_nonempty, nat_decimal, push_decimal, spec_split, split_on, str_eq};

verus! {

/// Options of the `publish` subcommand.
#[derive(Debug, Clone, PartialEq, Eq)]
pub struct PublishOpt {
    /// Run the publish logic without sending anything to the registry server
    pub dry_run: bool,
}

/// The path segments that name something: not empty, and not `.`.
pub open spec fn keep_normal(segs: Seq<Seq<char>>) -> Seq<Seq<char>>
    decreases segs.len(),
{
    if segs.len() == 0 {
        seq![]
    } else {
        let r = keep_normal(segs.drop_last());
        if segs.last().len() > 0 && segs.last() != seq!['.'] {
            r.push(segs.last())
        } else {
            r
        }
    }
}

/// The components of a `/`-separated path after its root, as
/// `Path::components` gives them: repeated separators, a trailing one and `.`
/// segments drop out, except a `.` that begins the path.
pub open spec fn spec_components(p: Seq<char>) -> Seq<Seq<char>> {
    let segs = spec_split(p, '/');
    if segs[0] == seq!['.'] {
        seq![seq!['.']] + keep_normal(segs)
    } else {
        keep_normal(segs)
    }
}

/// `out` with each component pushed onto it in turn.
pub open spec fn push_all(out: Seq<char>, comps: Seq<Seq<char>>) -> Seq<char>
    decreases comps.len(),
{
    if comps.len() == 0 {
        out
    } else {
        spec_join(push_all(out, comps.drop_last()), comps.last())
    }
}

/// A path of the manifest read under a directory: its components pushed
/// onto the directory, an absolute path read as a relative one.
pub open spec fn spec_normalize_path(cwd: Seq<char>, path: Seq<char>) -> Seq<char> {
    push_all(cwd, spec_components(path))
}

proof fn lemma_push_all_first(out: Seq<char>, c: Seq<char>, rest: Seq<Seq<char>>)
    ensures
        push_all(out, seq![c] + rest) == push_all(spec_join(out, c), rest),
    decreases rest.len(),
{
    let s = seq![c] + rest;
    if rest.len() == 0 {
        assert(s.drop_last() =~= Seq::<Seq<char>>::empty());
        assert(push_all(out, s.drop_last()) == out);
        assert(s.last() == c);
    } else {
        assert(s.drop_last() =~= seq![c] + rest.drop_last());
        assert(s.last() == rest.last());
        lemma_push_all_first(out, c, rest.drop_last());
    }
}

/// Reads a path of the manifest under a directory.
pub fn normalize_path(cwd: &str, path: &str) -> (res: String)
    ensures
        res@ == spec_normalize_path(cwd@, path@),
{
    proof {
        reveal_strlit(".");
        lemma_split_nonempty(path@, '/');
    }
    let segs = split_on(path, '/');
    let ghost sv = segs@.map_values(|p: String| p@);
    assert(sv.len() == segs@.len());
    assert(sv[0] == segs@[0]@);
    assert("."@ =~= seq!['.']);
    let leading_dot = str_eq(segs[0].as_str(), ".");
    let mut out = if leading_dot {
        join_path(cwd, ".")
    } else {
        String::from_str(cwd)
    };
    let ghost start = out@;
    assert(sv.take(0) =~= Seq::<Seq<char>>::empty());
    for i in 0..segs.len()
        invariant
            sv == segs@.map_values(|p: String| p@),
            out@ == push_all(start, keep_normal(sv.take(i as int))),
    {
        proof {
            reveal_strlit(".");
        }
        assert("."@ =~= seq!['.']);
        assert(sv.take(i + 1).drop_last() =~= sv.take(i as int));
        assert(sv.take(i + 1).last() == segs@[i as int]@);
        let ghost kn = keep_normal(sv.take(i as int));
        if segs[i].unicode_len() > 0 && !str_eq(segs[i].as_str(), ".") {
            out = join_path(out.as_str(), segs[i].as_str());
            assert(keep_normal(sv.take(i + 1)) == kn.push(segs@[i as int]@));
            assert(kn.push(segs@[i as int]@).drop_last() =~= kn);
        } else {
            assert(keep_normal(sv.take(i + 1)) == kn);
        }
    }
    assert(sv.take(segs.len() as int) =~= sv);
    proof {
        if leading_dot {
            lemma_push_all_first(cwd@, seq!['.'], keep_normal(sv));
        }
    }
    out
}

proof fn lemma_split_after_root(p: Seq<char>)
    ensures
        spec_split(seq!['/'] + p, '/') == seq![Seq::<char>::empty()] + spec_split(p, '/'),
    decreases p.len(),
{
    let s = seq!['/'] + p;
    if p.len() == 0 {
        assert(s.drop_last() =~= Seq::<char>::empty());
        assert(s.last() == '/');
        assert(spec_split(Seq::<char>::empty(), '/') == seq![Seq::<char>::empty()]);
        assert(p =~= Seq::<char>::empty());
        assert(spec_split(s, '/') =~= seq![Seq::<char>::empty()] + spec_split(p, '/'));
    } else {
        assert(s.drop_last() =~= seq!['/'] + p.drop_last());
        assert(s.last() == p.last());
        lemma_split_after_root(p.drop_last());
        lemma_split_nonempty(p.drop_last(), '/');
        let x = spec_split(p.drop_last(), '/');
        let y = seq![Seq::<char>::empty()] + x;
        if p.last() == '/' {
            assert(y.push(seq![]) =~= seq![Seq::<char>::empty()] + x.push(seq![]));
        } else {
            assert(y.update(y.len() - 1, y.last().push(p.last())) =~= seq![Seq::<char>::empty()]
                + x.update(x.len() - 1, x.last().push(p.last())));
        }
    }
}

proof fn lemma_keep_normal_skips_empty(segs: Seq<Seq<char>>)
    ensures
        keep_normal(seq![Seq::<char>::empty()] + segs) == keep_normal(segs),
    decreases segs.len(),
{
    let s = seq![Seq::<char>::empty()] + segs;
    if segs.len() == 0 {
        assert(s.drop_last() =~= Seq::<Seq<char>>::empty());
        assert(keep_normal(Seq::<Seq<char>>::empty()) == Seq::<Seq<char>>::empty());
        assert(s.last() == Seq::<char>::empty());
        assert(keep_normal(s) == keep_normal(s.drop_last()));
    } else {
        assert(s.drop_last() =~= seq![Seq::<char>::empty()] + segs.drop_last());
        assert(s.last() == segs.last());
        lemma_keep_normal_skips_empty(segs.drop_last());
        assert(keep_normal(s.drop_last()) == keep_normal(segs.drop_last()));
    }
}

/// An absolute path of the manifest is read as the same path without its
/// root, unless that path begins with a `.` component, which a root drops.
pub proof fn law_absolute_read_as_relative(cwd: Seq<char>, p: Seq<char>)
    requires
        spec_split(p, '/')[0] != seq!['.'],
    ensures
        spec_normalize_path(cwd, seq!['/'] + p) == spec_normalize_path(cwd, p),
{
    lemma_split_after_root(p);
    lemma_keep_normal_skips_empty(spec_split(p, '/'));
    assert(spec_split(seq!['/'] + p, '/')[0] == Seq::<char>::empty());
}

/// Archives larger than this many bytes may go up in chunks.
pub const CHUNKED_UPLOAD_THRESHOLD: u64 = 1242880;

/// The size of each chunk of a chunked upload.
pub const UPLOAD_CHUNK_SIZE: usize = 262144;

/// Whether the archive goes up in chunks: when that is forced, or when it is
/// asked for and the archive is larger than the threshold.
pub fn use_chunked_upload(forced: bool, asked: bool, archive_size: u64) -> (res: bool)
    ensures
        res == (forced || (asked && archive_size > CHUNKED_UPLOAD_THRESHOLD)),
{
    forced || (asked && archive_size > CHUNKED_UPLOAD_THRESHOLD)
}

/// What to do with a chunk just read: send it when it holds anything, and
/// read another when it was a full one.
pub fn chunk_upload_step(read: usize, chunk_size: usize) -> (res: (bool, bool))
    ensures
        res.0 == (read > 0),
        res.1 == (read > 0 && read >= chunk_size),
{
    (read > 0, read > 0 && read >= chunk_size)
}

/// The `Content-Range` of a chunk: `bytes <start>-<end>/<total>`, where the
/// end is the start plus the chunk's length less one (no less than the start).
pub open spec fn spec_content_range(start: nat, chunk_len: nat, total: nat) -> Seq<char> {
    let end: nat = if chunk_len > 0 { (start + chunk_len - 1) as nat } else { start };
    "bytes "@ + nat_decimal(start) + seq!['-'] + nat_decimal(end) + seq!['/'] + nat_decimal(total)
}

/// The `Content-Range` header of a chunk.
pub fn content_range(start: u64, chunk_len: u64, total: u64) -> (res: String)
    requires
        start + chunk_len <= u64::MAX + 1,
    ensures
        res@ == spec_content_range(start as nat, chunk_len as nat, total as nat),
{
    proof {
        reveal_strlit("bytes ");
        reveal_strlit("-");
        reveal_strlit("/");
    }
    let end = start + chunk_len.saturating_sub(1);
    let mut s = String::from_str("bytes ");
    push_decimal(&mut s, start);
    s.append("-");
    push_decimal(&mut s, end);
    s.append("/");
    push_decimal(&mut s, total);
    assert(s@ =~= spec_content_range(start as nat, chunk_len as nat, total as nat));
    s
}

/// How a built archive is sent.
#[derive(Debug, Clone, Copy, PartialEq, Eq, Structural)]
pub enum UploadRoute {
    /// In chunks.
    Chunked,
    /// In one request.
    Single,
}

/// The uploads that publishing tries, in order, once the archive is built: none
/// in a dry run (publishing stops there, before any request); else a chunked
/// upload where one is used, which falls back to a single request when it
/// fails; else a single request.
pub fn upload_attempts(dry_run: bool, forced: bool, asked: bool, archive_size: u64) -> (res: Vec<UploadRoute>)
    ensures
        dry_run ==> res@.len() == 0,
        !dry_run && (forced || (asked && archive_size > CHUNKED_UPLOAD_THRESHOLD)) ==> res@ == seq![
            UploadRoute::Chunked,
            UploadRoute::Single,
        ],
        !dry_run && !(forced || (asked && archive_size > CHUNKED_UPLOAD_THRESHOLD)) ==> res@ == seq![
            UploadRoute::Single,
        ],
{
    if dry_run {
        Vec::new()
    } else if use_chunked_upload(forced, asked, archive_size) {
        vec![UploadRoute::Chunked, UploadRoute::Single]
    } else {
        vec![UploadRoute::Single]
    }
}

/// The chunks in which an archive of `total` bytes goes up, as the upload
/// loop reads them: each starts where the one before ended, at a multiple of
/// the chunk size, and holds a full chunk or what is left.
pub fn upload_chunks(total: u64) -> (res: Vec<(u64, u64)>)
    ensures
        forall|i: int|
            0 <= i < res@.len() ==> (#[trigger] res@[i]).0 == i * UPLOAD_CHUNK_SIZE && res@[i].1 == if total
                - res@[i].0 < UPLOAD_CHUNK_SIZE {
                total - res@[i].0
            } else {
                UPLOAD_CHUNK_SIZE as int
            },
        res@.len() * UPLOAD_CHUNK_SIZE >= total,
        res@.len() == 0 || (res@.len() - 1) * UPLOAD_CHUNK_SIZE < total,
{
    let size: u64 = 262144;
    let mut out: Vec<(u64, u64)> = Vec::new();
    let mut start: u64 = 0;
    while start < total
        invariant
            size == UPLOAD_CHUNK_SIZE,
            start <= total,
            start == if out@.len() * UPLOAD_CHUNK_SIZE < total {
                out@.len() * UPLOAD_CHUNK_SIZE
            } else {
                total as int
            },
            out@.len() == 0 || (out@.len() - 1) * UPLOAD_CHUNK_SIZE < total,
            forall|i: int|
                0 <= i < out@.len() ==> (#[trigger] out@[i]).0 == i * UPLOAD_CHUNK_SIZE && out@[i].1 == if total
                    - out@[i].0 < UPLOAD_CHUNK_SIZE {
                    total - out@[i].0
                } else {
                    UPLOAD_CHUNK_SIZE as int
                },
        decreases total - start,
    {
        let len = if total - start < size { total - start } else { size };
        out.push((start, len));
        start = start + len;
    }
    out
}

/// Why a package could not be published.
#[derive(Debug, Clone, PartialEq, Eq)]
pub enum PublishError {
    NoModule,
    /// The module's source is not a file.
    SourceMustBeFile { module: String, path: String },
    /// A file that the module's bindings refer to does not exist.
    MissingBindings { module: String, path: String },
    ErrorBuildingPackage(String),
    /// A path of the package's file system does not exist.
    MissingManifestFsPath(String),
    /// An entry of the package's file system is not a directory.
    PackageFileSystemEntryMustBeDirectory(String),
}

pub enum PublishErrorModel {
    NoModule,
    SourceMustBeFile { module: Seq<char>, path: Seq<char> },
    MissingBindings { module: Seq<char>, path: Seq<char> },
    ErrorBuildingPackage(Seq<char>),
    MissingManifestFsPath(Seq<char>),
    PackageFileSystemEntryMustBeDirectory(Seq<char>),
}

impl View for PublishError {
    type V = PublishErrorModel;

    open spec fn view(&self) -> PublishErrorModel {
        match self {
            PublishError::NoModule => PublishErrorModel::NoModule,
            PublishError::SourceMustBeFile { module, path } => PublishErrorModel::SourceMustBeFile {
                module: module@,
                path: path@,
            },
            PublishError::MissingBindings { module, path } => PublishErrorModel::MissingBindings {
                module: module@,
                path: path@,
            },
            PublishError::ErrorBuildingPackage(m) => PublishErrorModel::ErrorBuildingPackage(m@),
            PublishError::MissingManifestFsPath(p) => PublishErrorModel::MissingManifestFsPath(p@),
            PublishError::PackageFileSystemEntryMustBeDirectory(p) =>
                PublishErrorModel::PackageFileSystemEntryMustBeDirectory(p@),
        }
    }
}

/// A module of the manifest as publishing checks it: its name, its source
/// path as the manifest writes it and whether that path (read under the
/// manifest's directory) exists, and each file that its bindings refer to,
/// with whether it exists.
#[derive(Debug, Clone, PartialEq, Eq)]
pub struct PublishModule {
    pub name: String,
    pub source: String,
    pub source_exists: bool,
    pub bindings: Vec<(String, bool)>,
}

/// An entry of the package's file system: its path as the manifest writes
/// it, whether that path (read under the current directory) exists, and
/// whether it is a directory.
#[derive(Debug, Clone, PartialEq, Eq)]
pub struct PublishFsEntry {
    pub path: String,
    pub exists: bool,
    pub is_dir: bool,
}

/// The first binding file of a module that does not exist.
pub open spec fn binding_error(base: Seq<char>, module: Seq<char>, bs: Seq<(String, bool)>) -> Option<
    PublishErrorModel,
>
    decreases bs.len(),
{
    if bs.len() == 0 {
        None
    } else if !bs[0].1 {
        Some(PublishErrorModel::MissingBindings { module, path: spec_normalize_path(base, bs[0].0@) })
    } else {
        binding_error(base, module, bs.drop_first())
    }
}

/// The first module, in order, whose source does not exist or one of whose
/// binding files does not.
pub open spec fn module_error(base: Seq<char>, ms: Seq<PublishModule>) -> Option<PublishErrorModel>
    decreases ms.len(),
{
    if ms.len() == 0 {
        None
    } else if !ms[0].source_exists {
        Some(
            PublishErrorModel::SourceMustBeFile {
                module: ms[0].name@,
                path: spec_normalize_path(base, ms[0].source@),
            },
        )
    } else {
        match binding_error(base, ms[0].name@, ms[0].bindings@) {
            Some(e) => Some(e),
            None => module_error(base, ms.drop_first()),
        }
    }
}

/// The first file system entry, in order, that does not exist or is not a
/// directory.
pub open spec fn fs_error(cwd: Seq<char>, es: Seq<PublishFsEntry>) -> Option<PublishErrorModel>
    decreases es.len(),
{
    if es.len() == 0 {
        None
    } else if !es[0].exists {
        Some(PublishErrorModel::MissingManifestFsPath(spec_normalize_path(cwd, es[0].path@)))
    } else if !es[0].is_dir {
        Some(PublishErrorModel::PackageFileSystemEntryMustBeDirectory(es[0].path@))
    } else {
        fs_error(cwd, es.drop_first())
    }
}

/// What publishing refuses in a manifest before it builds the archive: no
/// module at all; then, module by module, a missing source or binding file;
/// then a missing file system entry or one that is not a directory.
pub open spec fn spec_publish_check(
    base: Seq<char>,
    cwd: Seq<char>,
    modules: Option<Seq<PublishModule>>,
    fs: Seq<PublishFsEntry>,
) -> Option<PublishErrorModel> {
    match modules {
        None => Some(PublishErrorModel::NoModule),
        Some(ms) => match module_error(base, ms) {
            Some(e) => Some(e),
            None => fs_error(cwd, fs),
        },
    }
}

fn check_bindings(base: &str, module: &String, bs: &Vec<(String, bool)>) -> (res: Result<(), PublishError>)
    ensures
        match binding_error(base@, module@, bs@) {
            None => res is Ok,
            Some(e) => res matches Err(x) && x@ == e,
        },
{
    assert(bs@.skip(0) =~= bs@);
    for i in 0..bs.len()
        invariant
            binding_error(base@, module@, bs@) == binding_error(base@, module@, bs@.skip(i as int)),
    {
        assert(bs@.skip(i as int)[0] == bs@[i as int]);
        assert(bs@.skip(i as int).drop_first() =~= bs@.skip(i + 1));
        if !bs[i].1 {
            return Err(
                PublishError::MissingBindings {
                    module: module.clone(),
                    path: normalize_path(base, bs[i].0.as_str()),
                },
            );
        }
    }
    Ok(())
}

/// Checks a manifest's modules and file system entries before publishing,
/// refusing the first fault as `spec_publish_check` says.
pub fn check_publish_manifest(
    base: &str,
    cwd: &str,
    modules: &Option<Vec<PublishModule>>,
    fs: &Vec<PublishFsEntry>,
) -> (res: Result<(), PublishError>)
    ensures
        match spec_publish_check(
            base@,
            cwd@,
            match modules {
                Some(ms) => Some(ms@),
                None => None,
            },
            fs@,
        ) {
            None => res is Ok,
            Some(e) => res matches Err(x) && x@ == e,
        },
{
    let ms = match modules {
        Some(ms) => ms,
        None => {
            return Err(PublishError::NoModule);
        },
    };
    assert(ms@.skip(0) =~= ms@);
    for i in 0..ms.len()
        invariant
            modules matches Some(v) && v@ == ms@,
            module_error(base@, ms@) == module_error(base@, ms@.skip(i as int)),
    {
        assert(ms@.skip(i as int)[0] == ms@[i as int]);
        assert(ms@.skip(i as int).drop_first() =~= ms@.skip(i + 1));
        let m = &ms[i];
        if !m.source_exists {
            return Err(
                PublishError::SourceMustBeFile {
                    module: m.name.clone(),
                    path: normalize_path(base, m.source.as_str()),
                },
            );
        }
        check_bindings(base, &m.name, &m.bindings)?;
    }
    assert(ms@.skip(ms.len() as int) =~= Seq::<PublishModule>::empty());
    assert(fs@.skip(0) =~= fs@);
    for i in 0..fs.len()
        invariant
            modules matches Some(v) && v@ == ms@,
            module_error(base@, ms@) is None,
            fs_error(cwd@, fs@) == fs_error(cwd@, fs@.skip(i as int)),
    {
        assert(fs@.skip(i as int)[0] == fs@[i as int]);
        assert(fs@.skip(i as int).drop_first() =~= fs@.skip(i + 1));
        let e = &fs[i];
        if !e.exists {
            return Err(PublishError::MissingManifestFsPath(normalize_path(cwd, e.path.as_str())));
        }
        if !e.is_dir {
            return Err(PublishError::PackageFileSystemEntryMustBeDirectory(e.path.clone()));
        }
    }
    assert(fs@.skip(fs.len() as int) =~= Seq::<PublishFsEntry>::empty());
    Ok(())
}

/// How the archive was signed: with the active personal key, or not at all
/// because no key is registered.
#[derive(Debug, Clone, PartialEq, Eq)]
pub enum SignArchiveResult {
    Signed { public_key_id: String, signature: String },
    NoKeyRegistered,
}

/// The signature sent with a package: the key's identifier and the
/// signature, where the archive was signed.
pub fn input_signature(signed: &SignArchiveResult) -> (res: Option<(String, String)>)
    ensures
        match signed {
            SignArchiveResult::Signed { public_key_id, signature } => res matches Some((k, d)) && k@
                == public_key_id@ && d@ == signature@,
            SignArchiveResult::NoKeyRegistered => res is None,
        },
{
    match signed {
        SignArchiveResult::Signed { public_key_id, signature } => Some(
            (public_key_id.clone(), signature.clone()),
        ),
        SignArchiveResult::NoKeyRegistered => None,
    }
}

} // verus!
