//! Bundling assets into a wasm module: the header of the custom section that
//! carries them, its compression, and the decisions about which files go in.

use vstd::prelude::*;
use crate::config::{join_path, spec_join};
use crate::text::spec_contains;

verus! {

/// Represents the version of this header schema.
#[derive(Debug, PartialEq, Eq, Clone, Copy, Structural)]
pub enum HeaderVersion {
    Version1,
}

/// Represents the compression type of the file data. Only Zstd or no-compression is supported.
#[derive(Debug, PartialEq, Eq, Clone, Copy, Structural)]
pub enum CompressionType {
    NONE,
    ZSTD,
}

/// Represents the type of archive. The only supported archive is the Tar format.
#[derive(Debug, PartialEq, Eq, Clone, Copy, Structural)]
pub enum ArchiveType {
    TAR,
}

/// The byte that stands for a header version.
pub open spec fn version_byte(v: HeaderVersion) -> u8 {
    match v {
        HeaderVersion::Version1 => 1,
    }
}

/// The byte that stands for a compression type.
pub open spec fn compression_byte(c: CompressionType) -> u8 {
    match c {
        CompressionType::NONE => 0,
        CompressionType::ZSTD => 1,
    }
}

/// The byte that stands for an archive type.
pub open spec fn archive_byte(a: ArchiveType) -> u8 {
    match a {
        ArchiveType::TAR => 0,
    }
}

/// The four header bytes: version, compression, archive, and a zero.
pub open spec fn spec_header(v: HeaderVersion, c: CompressionType, a: ArchiveType) -> Seq<u8> {
    seq![version_byte(v), compression_byte(c), archive_byte(a), 0u8]
}

/// A serializing function of creating the header buffer from parts.
pub fn header_to_bytes(
    version: HeaderVersion,
    compression_type: CompressionType,
    archive_type: ArchiveType,
) -> (res: [u8; 4])
    ensures
        res@ == spec_header(version, compression_type, archive_type),
{
    let v: u8 = match version {
        HeaderVersion::Version1 => 1,
    };
    let c: u8 = match compression_type {
        CompressionType::NONE => 0,
        CompressionType::ZSTD => 1,
    };
    let a: u8 = match archive_type {
        ArchiveType::TAR => 0,
    };
    let res = [v, c, a, 0];
    assert(res@ =~= spec_header(version, compression_type, archive_type));
    res
}

/// Reads a header back: the parts that its first three bytes stand for, if
/// they stand for any.
pub fn header_from_bytes(bytes: &[u8]) -> (res: Option<(HeaderVersion, CompressionType, ArchiveType)>)
    ensures
        res matches Some((v, c, a)) ==> bytes@.len() >= 4 && bytes@.subrange(0, 4) == spec_header(
            v,
            c,
            a,
        ),
        res is None ==> !(exists|v: HeaderVersion, c: CompressionType, a: ArchiveType|
            bytes@.len() >= 4 && #[trigger] spec_header(v, c, a) == bytes@.subrange(0, 4)),
{
    if bytes.len() < 4 || bytes[3] != 0 {
        proof {
            if bytes@.len() >= 4 {
                assert forall|v: HeaderVersion, c: CompressionType, a: ArchiveType|
                    #[trigger] spec_header(v, c, a) != bytes@.subrange(0, 4) by {
                    assert(spec_header(v, c, a)[3] == 0);
                    assert(bytes@.subrange(0, 4)[3] == bytes@[3]);
                }
            }
        }
        return None;
    }
    let v = if bytes[0] == 1 {
        HeaderVersion::Version1
    } else {
        proof {
            assert forall|v: HeaderVersion, c: CompressionType, a: ArchiveType|
                #[trigger] spec_header(v, c, a) != bytes@.subrange(0, 4) by {
                assert(bytes@.subrange(0, 4)[0] == bytes@[0]);
            }
        }
        return None;
    };
    let c = if bytes[1] == 0 {
        CompressionType::NONE
    } else if bytes[1] == 1 {
        CompressionType::ZSTD
    } else {
        proof {
            assert forall|v: HeaderVersion, c: CompressionType, a: ArchiveType|
                #[trigger] spec_header(v, c, a) != bytes@.subrange(0, 4) by {
                assert(bytes@.subrange(0, 4)[1] == bytes@[1]);
            }
        }
        return None;
    };
    let a = if bytes[2] == 0 {
        ArchiveType::TAR
    } else {
        proof {
            assert forall|v: HeaderVersion, c: CompressionType, a: ArchiveType|
                #[trigger] spec_header(v, c, a) != bytes@.subrange(0, 4) by {
                assert(bytes@.subrange(0, 4)[2] == bytes@[2]);
            }
        }
        return None;
    };
    assert(bytes@.subrange(0, 4) =~= spec_header(v, c, a));
    Some((v, c, a))
}

/// Reading back a header that was written gives the parts that were written.
pub proof fn law_header_round_trip(v: HeaderVersion, c: CompressionType, a: ArchiveType, w: HeaderVersion, d: CompressionType, b: ArchiveType)
    requires
        spec_header(v, c, a) == spec_header(w, d, b),
    ensures
        v == w && c == d && a == b,
{
    assert(spec_header(v, c, a)[1] == spec_header(w, d, b)[1]);
}

/// Why compressing failed.
#[derive(Debug, Clone, PartialEq, Eq)]
pub struct CompressError {
    pub message: String,
}

/// A general way to talk about compression algorithms. This allows the bundler to use different
/// kinds of compression when storing assets in the wasm.
pub trait Compress {
    /// What compressing `data` gives.
    spec fn spec_compressed(data: Seq<u8>) -> Seq<u8>;

    /// The kind of compression.
    spec fn spec_compression_type() -> CompressionType;

    fn compress(uncompressed_data: Vec<u8>) -> (res: Result<Vec<u8>, CompressError>)
        ensures
            res matches Ok(v) && v@ == Self::spec_compressed(uncompressed_data@),
    ;

    fn compression_type() -> (res: CompressionType)
        ensures
            res == Self::spec_compression_type(),
    ;
}

/// The zstd level that assets are compressed with.
pub const ZSTD_COMPRESSION_LEVEL: i32 = 3;

/// What zstd's streaming encoder writes for `data` at a compression level.
pub uninterp spec fn zstd_encoded(data: Seq<u8>, level: i32) -> Seq<u8>;

/// Compresses bytes with `zstd::stream::encode_all` at the given level.
/// Claimed: a successful result is the zstd frame for the bytes and the
/// level, and depends on nothing else; at the level that assets use it
/// succeeds. `encode_all` copies an in-memory slice into a `Vec`, so no I/O
/// error arises, and the level is one that the library accepts; what is left
/// is the C library running out of memory, which, as for every allocation,
/// is not modelled. When the encoder fails, its message is handed back.
#[verifier::external_body]
fn zstd_encode_all(data: &[u8], level: i32) -> (res: Result<Vec<u8>, String>)
    ensures
        res matches Ok(v) ==> v@ == zstd_encoded(data@, level),
        level == ZSTD_COMPRESSION_LEVEL ==> res is Ok,
{
    zstd::stream::encode_all(data, level).map_err(|e| e.to_string())
}

/// [zstd compression](https://facebook.github.io/zstd/)
/// Construction is disallowed.
pub struct ZStdCompression {
    _private: (),
}

impl Compress for ZStdCompression {
    open spec fn spec_compressed(data: Seq<u8>) -> Seq<u8> {
        zstd_encoded(data, 3)
    }

    open spec fn spec_compression_type() -> CompressionType {
        CompressionType::ZSTD
    }

    fn compress(uncompressed_data: Vec<u8>) -> (res: Result<Vec<u8>, CompressError>) {
        match zstd_encode_all(uncompressed_data.as_slice(), ZSTD_COMPRESSION_LEVEL) {
            Ok(v) => Ok(v),
            Err(message) => Err(CompressError { message }),
        }
    }

    fn compression_type() -> (res: CompressionType) {
        CompressionType::ZSTD
    }
}

/// A non-compression Compression! Useful for unit tests.
/// Construction is disallowed.
pub struct NoCompression {
    _private: (),
}

impl Compress for NoCompression {
    open spec fn spec_compressed(data: Seq<u8>) -> Seq<u8> {
        data
    }

    open spec fn spec_compression_type() -> CompressionType {
        CompressionType::NONE
    }

    fn compress(uncompressed_data: Vec<u8>) -> (res: Result<Vec<u8>, CompressError>)
        ensures
            res matches Ok(v) && v@ == uncompressed_data@,
    {
        Ok(uncompressed_data)
    }

    fn compression_type() -> (res: CompressionType) {
        CompressionType::NONE
    }
}

/// The section name that is to be used when constructing `CustomSection`.
pub const ASSETS_CUSTOM_SECTION_NAME: &'static str = "wasmer:fs";

/// A custom section of a wasm module: its name and its bytes.
#[derive(Debug, Clone, PartialEq, Eq)]
pub struct CustomSection {
    pub name: String,
    pub value: Vec<u8>,
}

/// The custom section that carries an assets archive: the header, then the
/// compressed archive. There is none without an archive.
pub fn into_custom_section<C: Compress>(archive: Option<Vec<u8>>) -> (res: Result<
    Option<CustomSection>,
    CompressError,
>)
    ensures
        archive is None ==> res matches Ok(None),
        archive matches Some(data) ==> (res matches Ok(Some(section)) && section.name@ == "wasmer:fs"@
            && section.value@ == spec_header(
            HeaderVersion::Version1,
            C::spec_compression_type(),
            ArchiveType::TAR,
        ) + C::spec_compressed(data@)),
{
    match archive {
        None => Ok(None),
        Some(data) => {
            let header_bytes = header_to_bytes(
                HeaderVersion::Version1,
                C::compression_type(),
                ArchiveType::TAR,
            );
            let ghost d = data@;
            let compressed_data = C::compress(data)?;
            let mut value: Vec<u8> = Vec::new();
            value.push(header_bytes[0]);
            value.push(header_bytes[1]);
            value.push(header_bytes[2]);
            value.push(header_bytes[3]);
            let mut tail = compressed_data;
            value.append(&mut tail);
            assert(value@ =~= spec_header(
                HeaderVersion::Version1,
                C::spec_compression_type(),
                ArchiveType::TAR,
            ) + C::spec_compressed(d));
            Ok(Some(CustomSection { name: String::from_str(ASSETS_CUSTOM_SECTION_NAME), value }))
        },
    }
}


/// Why an asset could not be added.
#[derive(Debug, Clone, PartialEq, Eq)]
pub enum AssetsError {
    /// Path is not directory or file.
    InvalidAsset(String),
}

/// How an asset goes into the archive.
#[derive(Debug, Clone, PartialEq, Eq)]
pub enum AssetAction {
    /// A file, stored under its virtual path.
    AppendFile { local_path: String, virtual_path: String },
    /// A directory with all it holds, stored under its virtual path.
    AppendDir { local_path: String, virtual_path: String },
}

/// Decides how a local path goes into the archive: a file as a file, a
/// directory with its contents, and anything else is refused.
pub fn classify_asset(is_file: bool, is_dir: bool, local_path: String, virtual_file_path: String) -> (res: Result<
    AssetAction,
    AssetsError,
>)
    ensures
        is_file ==> (res matches Ok(AssetAction::AppendFile { local_path: l, virtual_path: v })
            && l@ == local_path@ && v@ == virtual_file_path@),
        !is_file && is_dir ==> (res matches Ok(AssetAction::AppendDir { local_path: l, virtual_path: v })
            && l@ == local_path@ && v@ == virtual_file_path@),
        !is_file && !is_dir ==> (res matches Err(AssetsError::InvalidAsset(p)) && p@ == local_path@),
{
    if is_file {
        Ok(AssetAction::AppendFile { local_path, virtual_path: virtual_file_path })
    } else if is_dir {
        Ok(AssetAction::AppendDir { local_path, virtual_path: virtual_file_path })
    } else {
        Err(AssetsError::InvalidAsset(local_path))
    }
}

/// Splits an asset argument `local_path:virtual_path` with the pattern
/// `(?P<local_path>.*:?.*):(?P<virtual_path>.*)` of the `regex` crate
/// (`Regex::new`, then `captures`). Claimed: there is a match exactly when the
/// text has a `:`; the two captures, joined by a `:`, are a piece of the text,
/// and the virtual path has no `:`. For text without line breaks the piece is
/// the whole text, so the split is at the last `:`. Where a text with line
/// breaks is cut is not stated beyond that.
#[verifier::external_body]
fn split_asset_pattern(pattern: &str) -> (res: Option<(String, String)>)
    ensures
        res is Some <==> spec_contains(pattern@, seq![':']),
        res matches Some((l, v)) ==> spec_contains(pattern@, l@ + seq![':'] + v@) && !spec_contains(
            v@,
            seq![':'],
        ),
        res matches Some((l, v)) ==> (!spec_contains(pattern@, seq!['\n']) ==> pattern@ == l@ + seq![':']
            + v@),
{
    let re = regex::Regex::new(r"(?P<local_path>.*:?.*):(?P<virtual_path>.*)").unwrap();
    re.captures(pattern).map(|c| (c["local_path"].to_string(), c["virtual_path"].to_string()))
}

/// An asset argument that names a local and a virtual path: it has a `:`.
pub open spec fn valid_asset_pattern(p: Seq<char>) -> bool {
    spec_contains(p, seq![':'])
}

/// `pair` is the local path (joined to `base`) and the virtual path that the
/// asset argument `p` names: a piece of `p` is the local path, a `:`, and the
/// virtual path, which has no `:`; where `p` has no line break, that piece
/// is all of `p`.
pub open spec fn names_asset(p: Seq<char>, base: Seq<char>, pair: (Seq<char>, Seq<char>)) -> bool {
    exists|l: Seq<char>|
        spec_contains(p, l + seq![':'] + pair.1) && (!spec_contains(p, seq!['\n']) ==> p == l + seq![':']
            + pair.1) && !spec_contains(pair.1, seq![':']) && pair.0 == spec_join(base, l)
}

/// The local path (joined to `base_path`) and the virtual path that an asset
/// argument `local_path:virtual_path` names; the split is at the last `:`.
pub fn asset_from_pattern(base_path: &str, pattern: &str) -> (res: (String, String))
    requires
        valid_asset_pattern(pattern@),
    ensures
        names_asset(pattern@, base_path@, (res.0@, res.1@)),
{
    match split_asset_pattern(pattern) {
        Some((local, virtual_path)) => {
            let joined = join_path(base_path, local.as_str());
            assert(spec_contains(pattern@, local@ + seq![':'] + virtual_path@));
            (joined, virtual_path)
        },
        None => {
            assert(false);
            (String::new(), String::new())
        },
    }
}

/// The (local, virtual) path pairs that asset arguments name, in order.
pub fn add_asset_from_pattern(base_path: &str, cli_arg_patterns: Vec<String>) -> (res: Vec<
    (String, String),
>)
    requires
        forall|i: int| 0 <= i < cli_arg_patterns@.len() ==> valid_asset_pattern(
            #[trigger] cli_arg_patterns@[i]@,
        ),
    ensures
        res@.len() == cli_arg_patterns@.len(),
        forall|i: int|
            0 <= i < res@.len() ==> names_asset(
                cli_arg_patterns@[i]@,
                base_path@,
                (#[trigger] res@[i].0@, res@[i].1@),
            ),
{
    let mut res: Vec<(String, String)> = Vec::new();
    for i in 0..cli_arg_patterns.len()
        invariant
            res@.len() == i,
            forall|k: int| 0 <= k < cli_arg_patterns@.len() ==> valid_asset_pattern(
                #[trigger] cli_arg_patterns@[k]@,
            ),
            forall|k: int|
                0 <= k < i ==> names_asset(
                    cli_arg_patterns@[k]@,
                    base_path@,
                    (#[trigger] res@[k].0@, res@[k].1@),
                ),
    {
        assert(valid_asset_pattern(cli_arg_patterns@[i as int]@));
        let pair = asset_from_pattern(base_path, cli_arg_patterns[i].as_str());
        res.push(pair);
        assert(res@[i as int] == pair);
    }
    res
}

/// The local path does not name a file or a directory.
pub open spec fn neither(kinds: Seq<(bool, bool)>, i: int) -> bool {
    !kinds[i].0 && !kinds[i].1
}

/// How the asset pairs go into the archive, in order, given for each local
/// path whether it is a file and whether it is a directory: every pair is
/// added, or the first one that is neither is refused and those after it
/// are not looked at.
pub fn asset_actions(pairs: Vec<(String, String)>, kinds: &Vec<(bool, bool)>) -> (res: Result<
    Vec<AssetAction>,
    AssetsError,
>)
    requires
        kinds@.len() == pairs@.len(),
    ensures
        (forall|i: int| 0 <= i < kinds@.len() ==> !neither(kinds@, i)) ==> (res matches Ok(v) && v@.len()
            == pairs@.len() && forall|i: int|
            0 <= i < v@.len() ==> match #[trigger] v@[i] {
                AssetAction::AppendFile { local_path, virtual_path } => kinds@[i].0 && local_path@
                    == pairs@[i].0@ && virtual_path@ == pairs@[i].1@,
                AssetAction::AppendDir { local_path, virtual_path } => !kinds@[i].0 && kinds@[i].1
                    && local_path@ == pairs@[i].0@ && virtual_path@ == pairs@[i].1@,
            }),
        forall|j: int|
            0 <= j < kinds@.len() && neither(kinds@, j) && (forall|i: int| 0 <= i < j ==> !neither(kinds@, i))
                ==> (res matches Err(AssetsError::InvalidAsset(p)) && p@ == pairs@[j].0@),
{
    let mut out: Vec<AssetAction> = Vec::new();
    let ghost ps = pairs@;
    let mut work = pairs;
    let mut rest: Vec<(String, String)> = Vec::new();
    // take the pairs out in order
    while work.len() > 0
        invariant
            ps.len() == work@.len() + rest@.len(),
            work@ == ps.take(work@.len() as int),
            forall|k: int| 0 <= k < rest@.len() ==> #[trigger] rest@[k] == ps[ps.len() - 1 - k],
        decreases work@.len(),
    {
        let x = work.pop().unwrap();
        rest.push(x);
        assert(work@ =~= ps.take(work@.len() as int));
    }
    let n = rest.len();
    for i in 0..n
        invariant
            n == ps.len(),
            ps == pairs@,
            kinds@.len() == ps.len(),
            rest@.len() + i == n,
            forall|k: int| 0 <= k < rest@.len() ==> #[trigger] rest@[k] == ps[ps.len() - 1 - k],
            forall|k: int| 0 <= k < i ==> !neither(kinds@, k),
            out@.len() == i,
            forall|k: int|
                0 <= k < i ==> match #[trigger] out@[k] {
                    AssetAction::AppendFile { local_path, virtual_path } => kinds@[k].0 && local_path@
                        == ps[k].0@ && virtual_path@ == ps[k].1@,
                    AssetAction::AppendDir { local_path, virtual_path } => !kinds@[k].0 && kinds@[k].1
                        && local_path@ == ps[k].0@ && virtual_path@ == ps[k].1@,
                },
    {
        let (local, virt) = rest.pop().unwrap();
        assert(local@ == ps[i as int].0@ && virt@ == ps[i as int].1@);
        let (is_file, is_dir) = kinds[i];
        match classify_asset(is_file, is_dir, local, virt) {
            Ok(a) => {
                out.push(a);
            },
            Err(e) => {
                assert(neither(kinds@, i as int));
                assert forall|j: int|
                    0 <= j < kinds@.len() && neither(kinds@, j) && (forall|k: int| 0 <= k < j ==> !neither(kinds@, k))
                        implies j == i by {
                    if j > i {
                        assert(!neither(kinds@, i as int));
                    }
                }
                return Err(e);
            },
        }
    }
    Ok(out)
}

/// Why a bundle could not be made.
#[derive(Debug, Clone, PartialEq, Eq)]
pub enum BuilderError {
    MissingTarget,
    MissingSource,
}

/// The source and target of a bundle: the source is checked first, then the
/// target.
pub fn bundle_parts(source: Option<String>, target: Option<String>) -> (res: Result<
    (String, String),
    BuilderError,
>)
    ensures
        source is None ==> res matches Err(BuilderError::MissingSource),
        source is Some && target is None ==> res matches Err(BuilderError::MissingTarget),
        source matches Some(s) ==> (target matches Some(t) ==> (res matches Ok((s2, t2)) && s2@ == s@
            && t2@ == t@)),
{
    match source {
        None => Err(BuilderError::MissingSource),
        Some(s) => match target {
            None => Err(BuilderError::MissingTarget),
            Some(t) => Ok((s, t)),
        },
    }
}

/// Options of the `bundle` command.
#[derive(Debug, Clone, PartialEq, Eq)]
pub struct BundleOpt {
    /// path to the manifest file (wasmer.toml) for the wasm bundle
    pub manifest_file_path: Option<String>,
    /// Assets to be embedded into the wasm bundle
    pub assets: Vec<String>,
}

} // verus!
