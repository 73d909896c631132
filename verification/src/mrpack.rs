//! The typed model of a pack manifest: the files to download with their
//! pinned hashes and sizes, environment applicability, and loader
//! dependencies.
use vstd::prelude::*;

use crate::errors::InstallError;
use crate::errors::ManifestError;
use crate::strutil::str_eq;

verus! {

/// A hash algorithm named by a manifest. Unrecognized names are preserved,
/// not rejected, so forward-compatible manifests do not hard-fail on hash
/// fields the installer does not need.
#[derive(Clone, Debug)]
pub enum PackFileHash {
    Sha1,
    Sha512,
    Unknown(String),
}

/// The side of the game a file entry applies to.
#[derive(Clone, Copy, PartialEq, Eq, Structural, Debug)]
pub enum EnvType {
    Client,
    Server,
}

/// Whether a file is required on a given side.
#[derive(Clone, Copy, PartialEq, Eq, Structural, Debug)]
pub enum SideType {
    Required,
    Optional,
    Unsupported,
    Unknown,
}

/// A dependency kind a manifest may declare.
#[derive(Clone, Copy, PartialEq, Eq, Structural, Debug)]
pub enum PackDependency {
    Forge,
    FabricLoader,
    QuiltLoader,
    Minecraft,
}

/// One downloadable file of the pack: its destination path, hashes, side
/// applicability, mirror list, and exact expected byte length.
#[derive(Clone, Debug)]
pub struct PackFile {
    pub path: String,
    pub hashes: Vec<(PackFileHash, String)>,
    pub env: Option<Vec<(EnvType, SideType)>>,
    pub downloads: Vec<String>,
    pub file_size: u32,
}

/// The pack manifest.
#[derive(Clone, Debug)]
pub struct PackIndex {
    pub game: String,
    pub format_version: i32,
    pub version_id: String,
    pub name: String,
    pub summary: Option<String>,
    pub files: Vec<PackFile>,
    pub dependencies: Vec<(PackDependency, String)>,
}

impl From<String> for PackFileHash {
    /// Recognizes `sha1` and `sha512`; keeps any other name.
    fn from(s: String) -> (r: Self) {
        if str_eq(s.as_str(), "sha1") {
            PackFileHash::Sha1
        } else if str_eq(s.as_str(), "sha512") {
            PackFileHash::Sha512
        } else {
            PackFileHash::Unknown(s)
        }
    }
}

impl vstd::std_specs::convert::FromSpecImpl<String> for PackFileHash {
    open spec fn obeys_from_spec() -> bool {
        true
    }

    open spec fn from_spec(v: String) -> Self {
        if v@ == "sha1"@ {
            PackFileHash::Sha1
        } else if v@ == "sha512"@ {
            PackFileHash::Sha512
        } else {
            PackFileHash::Unknown(v)
        }
    }
}

/// The value the first entry for `k` maps to, as a map lookup in an
/// association list.
pub open spec fn spec_env_lookup(env: Seq<(EnvType, SideType)>, k: EnvType) -> Option<SideType>
    decreases env.len(),
{
    if env.len() == 0 {
        None
    } else if env[0].0 == k {
        Some(env[0].1)
    } else {
        spec_env_lookup(env.skip(1), k)
    }
}

/// The hex string of the first `sha512` entry of a hash list.
pub open spec fn spec_sha512_hex(hs: Seq<(PackFileHash, String)>) -> Option<Seq<char>>
    decreases hs.len(),
{
    if hs.len() == 0 {
        None
    } else if hs[0].0 is Sha512 {
        Some(hs[0].1@)
    } else {
        spec_sha512_hex(hs.skip(1))
    }
}

/// A file entry that must not be installed: it declares itself unsupported
/// on the client side.
pub open spec fn spec_client_unsupported(f: PackFile) -> bool {
    match f.env {
        Some(env) => spec_env_lookup(env@, EnvType::Client) == Some(SideType::Unsupported),
        None => false,
    }
}

/// Whether the entry is excluded from installation by its `env` map.
pub fn client_unsupported(f: &PackFile) -> (r: bool)
    ensures
        r == spec_client_unsupported(*f),
{
    match &f.env {
        None => false,
        Some(env) => {
            let ghost all = env@;
            let n = env.len();
            let mut i: usize = 0;
            proof {
                assert(all.skip(0) =~= all);
            }
            while i < n
                invariant
                    n == env@.len(),
                    env@ == all,
                    0 <= i <= n,
                    spec_client_unsupported(*f) == (spec_env_lookup(all, EnvType::Client) == Some(
                        SideType::Unsupported,
                    )),
                    spec_env_lookup(all.skip(i as int), EnvType::Client) == spec_env_lookup(
                        all,
                        EnvType::Client,
                    ),
                decreases n - i,
            {
                proof {
                    assert(all.skip(i as int)[0] == all[i as int]);
                    assert(all.skip(i as int).skip(1) =~= all.skip(i as int + 1));
                }
                let (e, s) = env[i];
                if e == EnvType::Client {
                    return s == SideType::Unsupported;
                }
                i = i + 1;
            }
            false
        },
    }
}

/// The first `sha512` hex string of the entry's hash list, if any.
pub fn sha512_hex<'a>(hashes: &'a Vec<(PackFileHash, String)>) -> (r: Option<&'a String>)
    ensures
        match r {
            Some(s) => spec_sha512_hex(hashes@) == Some(s@),
            None => spec_sha512_hex(hashes@) is None,
        },
{
    let ghost all = hashes@;
    let n = hashes.len();
    let mut i: usize = 0;
    proof {
        assert(all.skip(0) =~= all);
    }
    while i < n
        invariant
            n == hashes@.len(),
            hashes@ == all,
            0 <= i <= n,
            spec_sha512_hex(all.skip(i as int)) == spec_sha512_hex(all),
        decreases n - i,
    {
        proof {
            assert(all.skip(i as int)[0] == all[i as int]);
            assert(all.skip(i as int).skip(1) =~= all.skip(i as int + 1));
        }
        if matches!(&hashes[i].0, PackFileHash::Sha512) {
            return Some(&hashes[i].1);
        }
        i = i + 1;
    }
    None
}

/// The version the first entry for dependency `k` maps to.
pub open spec fn spec_dep_lookup(deps: Seq<(PackDependency, String)>, k: PackDependency) -> Option<
    Seq<char>,
>
    decreases deps.len(),
{
    if deps.len() == 0 {
        None
    } else if deps[0].0 == k {
        Some(deps[0].1@)
    } else {
        spec_dep_lookup(deps.skip(1), k)
    }
}

/// The declared version of dependency `k`, if any.
pub fn dep_lookup<'a>(deps: &'a Vec<(PackDependency, String)>, k: PackDependency) -> (r: Option<
    &'a String,
>)
    ensures
        match r {
            Some(s) => spec_dep_lookup(deps@, k) == Some(s@),
            None => spec_dep_lookup(deps@, k) is None,
        },
{
    let ghost all = deps@;
    let n = deps.len();
    let mut i: usize = 0;
    proof {
        assert(all.skip(0) =~= all);
    }
    while i < n
        invariant
            n == deps@.len(),
            deps@ == all,
            0 <= i <= n,
            spec_dep_lookup(all.skip(i as int), k) == spec_dep_lookup(all, k),
        decreases n - i,
    {
        proof {
            assert(all.skip(i as int)[0] == all[i as int]);
            assert(all.skip(i as int).skip(1) =~= all.skip(i as int + 1));
        }
        if deps[i].0 == k {
            return Some(&deps[i].1);
        }
        i = i + 1;
    }
    None
}

/// A manifest the installer supports: format version 1, game `minecraft`.
pub open spec fn spec_index_valid(ix: PackIndex) -> bool {
    ix.format_version == 1 && ix.game@ == "minecraft"@
}

/// Checks format version and game id; `Ok` exactly on supported manifests,
/// and the error says which check failed, the version check first.
pub fn validate_index(ix: &PackIndex) -> (r: Result<(), InstallError>)
    ensures
        r is Ok <==> spec_index_valid(*ix),
        ix.format_version != 1 ==> r == Result::<(), InstallError>::Err(
            InstallError::Manifest(ManifestError::UnsupportedFormatVersion),
        ),
        ix.format_version == 1 && ix.game@ != "minecraft"@ ==> r == Result::<
            (),
            InstallError,
        >::Err(InstallError::Manifest(ManifestError::UnsupportedGame)),
{
    if ix.format_version != 1 {
        return Err(InstallError::Manifest(ManifestError::UnsupportedFormatVersion));
    }
    if !str_eq(ix.game.as_str(), "minecraft") {
        return Err(InstallError::Manifest(ManifestError::UnsupportedGame));
    }
    Ok(())
}

} // verus!
