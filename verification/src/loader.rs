//! The loader-install decision: which mod-loader profile, if any, the
//! manifest's dependencies call for, the fixed metadata-service URL to fetch
//! its descriptor from, and the launcher-relative paths it is materialized
//! at. Fetching and writing are the surrounding program's work.
use vstd::prelude::*;

use crate::errors::InstallError;
use crate::errors::ManifestError;
use crate::mrpack::PackDependency;
use crate::mrpack::spec_dep_lookup;
use crate::mrpack::dep_lookup;

verus! {

/// The two supported loader kinds.
#[derive(Clone, Copy, PartialEq, Eq, Structural, Debug)]
pub enum LoaderKind {
    Fabric,
    Quilt,
}

/// A resolved loader install: where its profile descriptor is fetched from
/// and the version name it is installed under.
pub struct LoaderPlan {
    pub kind: LoaderKind,
    pub profile_url: String,
    pub version_name: String,
}

/// What the installing-loader stage must do.
pub enum LoaderAction {
    /// No loader dependency: a plain profile under the game version itself.
    Vanilla { version_name: String },
    /// Install the loader's profile descriptor.
    Install(LoaderPlan),
}

pub open spec fn spec_fabric_profile_url(mc: Seq<char>, lv: Seq<char>) -> Seq<char> {
    "https://meta.fabricmc.net/v2/versions/loader/"@ + mc + "/"@ + lv + "/profile/json"@
}

pub open spec fn spec_fabric_version_name(mc: Seq<char>, lv: Seq<char>) -> Seq<char> {
    "fabric-loader-"@ + lv + "-"@ + mc
}

pub open spec fn spec_quilt_profile_url(mc: Seq<char>, lv: Seq<char>) -> Seq<char> {
    "https://meta.quiltmc.org/v3/versions/loader/"@ + mc + "/"@ + lv + "/profile/json"@
}

pub open spec fn spec_quilt_version_name(mc: Seq<char>, lv: Seq<char>) -> Seq<char> {
    "quilt-loader-"@ + lv + "-"@ + mc
}

/// Builds `pre + mid_a + sep + mid_b + post`.
fn concat5(pre: &str, mid_a: &str, sep: &str, mid_b: &str, post: &str) -> (r: String)
    ensures
        r@ == pre@ + mid_a@ + sep@ + mid_b@ + post@,
{
    let mut out = String::new();
    out.append(pre);
    out.append(mid_a);
    out.append(sep);
    out.append(mid_b);
    out.append(post);
    proof {
        assert(out@ =~= pre@ + mid_a@ + sep@ + mid_b@ + post@);
    }
    out
}

/// Decides the loader stage from the manifest's dependencies: the
/// unsupported loader and a missing game version fail the install; a
/// `fabric-loader` dependency wins over `quilt-loader`; with neither, the
/// install is vanilla under the game version's own name.
pub fn loader_action(deps: &Vec<(PackDependency, String)>) -> (r: Result<
    LoaderAction,
    InstallError,
>)
    ensures
        spec_dep_lookup(deps@, PackDependency::Forge) is Some ==> r == Result::<
            LoaderAction,
            InstallError,
        >::Err(InstallError::Manifest(ManifestError::UnsupportedLoader)),
        spec_dep_lookup(deps@, PackDependency::Forge) is None && spec_dep_lookup(
            deps@,
            PackDependency::Minecraft,
        ) is None ==> r == Result::<LoaderAction, InstallError>::Err(
            InstallError::Manifest(ManifestError::MissingGameVersion),
        ),
        ({
            let forge = spec_dep_lookup(deps@, PackDependency::Forge);
            let mc = spec_dep_lookup(deps@, PackDependency::Minecraft);
            let fabric = spec_dep_lookup(deps@, PackDependency::FabricLoader);
            let quilt = spec_dep_lookup(deps@, PackDependency::QuiltLoader);
            (forge is None && mc is Some) ==> match r {
                Ok(act) => match act {
                    LoaderAction::Install(p) => {
                        ||| (fabric is Some && p.kind == LoaderKind::Fabric && p.profile_url@
                            == spec_fabric_profile_url(mc.unwrap(), fabric.unwrap())
                            && p.version_name@ == spec_fabric_version_name(
                            mc.unwrap(),
                            fabric.unwrap(),
                        ))
                        ||| (fabric is None && quilt is Some && p.kind == LoaderKind::Quilt
                            && p.profile_url@ == spec_quilt_profile_url(mc.unwrap(), quilt.unwrap())
                            && p.version_name@ == spec_quilt_version_name(
                            mc.unwrap(),
                            quilt.unwrap(),
                        ))
                    },
                    LoaderAction::Vanilla { version_name } => fabric is None && quilt is None
                        && version_name@ == mc.unwrap(),
                },
                Err(_) => false,
            }
        }),
{
    if dep_lookup(deps, PackDependency::Forge).is_some() {
        return Err(InstallError::Manifest(ManifestError::UnsupportedLoader));
    }
    let mc = match dep_lookup(deps, PackDependency::Minecraft) {
        Some(v) => v,
        None => {
            return Err(InstallError::Manifest(ManifestError::MissingGameVersion));
        },
    };
    if let Some(fv) = dep_lookup(deps, PackDependency::FabricLoader) {
        let url = concat5(
            "https://meta.fabricmc.net/v2/versions/loader/",
            mc.as_str(),
            "/",
            fv.as_str(),
            "/profile/json",
        );
        let name = concat5("fabric-loader-", fv.as_str(), "-", mc.as_str(), "");
        proof {
            reveal_strlit("");
            assert(name@ =~= spec_fabric_version_name(mc@, fv@));
        }
        return Ok(
            LoaderAction::Install(
                LoaderPlan { kind: LoaderKind::Fabric, profile_url: url, version_name: name },
            ),
        );
    }
    if let Some(qv) = dep_lookup(deps, PackDependency::QuiltLoader) {
        let url = concat5(
            "https://meta.quiltmc.org/v3/versions/loader/",
            mc.as_str(),
            "/",
            qv.as_str(),
            "/profile/json",
        );
        let name = concat5("quilt-loader-", qv.as_str(), "-", mc.as_str(), "");
        proof {
            reveal_strlit("");
            assert(name@ =~= spec_quilt_version_name(mc@, qv@));
        }
        return Ok(
            LoaderAction::Install(
                LoaderPlan { kind: LoaderKind::Quilt, profile_url: url, version_name: name },
            ),
        );
    }
    let mut version_name = String::new();
    version_name.append(mc.as_str());
    proof {
        assert(version_name@ =~= mc@);
    }
    Ok(LoaderAction::Vanilla { version_name })
}

/// The launcher-relative paths a loader profile is materialized at:
/// `versions/<name>/<name>.json`, with a stale `versions/<name>/<name>.jar`
/// beside it to remove.
pub fn loader_profile_paths(version_name: &str) -> (r: (String, String))
    ensures
        r.0@ == "versions/"@ + version_name@ + "/"@ + version_name@ + ".json"@,
        r.1@ == "versions/"@ + version_name@ + "/"@ + version_name@ + ".jar"@,
{
    let json = concat5("versions/", version_name, "/", version_name, ".json");
    let jar = concat5("versions/", version_name, "/", version_name, ".jar");
    (json, jar)
}

} // verus!
