//! The release descriptor: its downloadable assets, and the choice of the one
//! that fits the running binary.
use vstd::prelude::*;

use crate::text::same_text;

verus! {

/// A file attached to a published release.
pub struct Asset {
    pub name: String,
    pub download_url: String,
}

impl View for Asset {
    type V = (Seq<char>, Seq<char>);

    open spec fn view(&self) -> (Seq<char>, Seq<char>) {
        (self.name@, self.download_url@)
    }
}

/// What a release descriptor says of each entry of its `assets` array: the
/// entry's `name` and `browser_download_url`, each when it is a string.
pub uninterp spec fn release_asset_entries(release_json: Seq<char>) -> Option<
    Seq<(Option<Seq<char>>, Option<Seq<char>>)>,
>;

/// The characters of an optional string.
pub open spec fn opt_text(o: Option<String>) -> Option<Seq<char>> {
    match o {
        Some(s) => Some(s@),
        None => None,
    }
}

/// The characters of each field of asset entries.
pub open spec fn entries_view(f: Seq<(Option<String>, Option<String>)>) -> Seq<
    (Option<Seq<char>>, Option<Seq<char>>),
> {
    f.map_values(|e: (Option<String>, Option<String>)| (opt_text(e.0), opt_text(e.1)))
}

/// Relies on `serde_json::from_str` into a `serde_json::Value`, then on
/// `Value::get`, `Value::as_array` and `Value::as_str`: the entries of the
/// `assets` array, or `None` when the text is not JSON or has no such array.
#[verifier::external_body]
fn asset_entries(release_json: &str) -> (r: Option<Vec<(Option<String>, Option<String>)>>)
    ensures
        match r {
            Some(v) => release_asset_entries(release_json@) == Some(entries_view(v@)),
            None => release_asset_entries(release_json@) is None,
        },
{
    let value: serde_json::Value = serde_json::from_str(release_json).ok()?;
    let assets = value.get("assets")?.as_array()?;
    let field = |a: &serde_json::Value, k: &str| a.get(k).and_then(|v| v.as_str()).map(String::from);
    Some(assets.iter().map(|a| (field(a, "name"), field(a, "browser_download_url"))).collect())
}

/// The entries that have both a name and a download address, as assets, in order.
pub open spec fn complete_assets(f: Seq<(Option<Seq<char>>, Option<Seq<char>>)>) -> Seq<
    (Seq<char>, Seq<char>),
>
    decreases f.len(),
{
    if f.len() == 0 {
        Seq::empty()
    } else {
        let prev = complete_assets(f.drop_last());
        match f.last() {
            (Some(n), Some(u)) => prev.push((n, u)),
            _ => prev,
        }
    }
}

/// The assets of a list of views.
pub open spec fn assets_view(a: Seq<Asset>) -> Seq<(Seq<char>, Seq<char>)> {
    a.map_values(|x: Asset| x@)
}

/// Turns the entries of a release descriptor into assets. A missing list
/// yields no assets, and an entry without a name or without a download
/// address is left out: it can be neither matched nor fetched.
pub fn assets_from_entries(entries: Option<Vec<(Option<String>, Option<String>)>>) -> (r: Vec<
    Asset,
>)
    ensures
        assets_view(r@) == match entries {
            Some(v) => complete_assets(entries_view(v@)),
            None => Seq::empty(),
        },
{
    let mut out: Vec<Asset> = Vec::new();
    let v = match entries {
        Some(v) => v,
        None => {
            assert(assets_view(out@) =~= Seq::empty());
            return out;
        },
    };
    let ghost ev = entries_view(v@);
    let mut i: usize = 0;
    assert(ev.take(0) =~= Seq::empty());
    assert(assets_view(out@) =~= Seq::empty());
    while i < v.len()
        invariant
            i <= v@.len(),
            ev == entries_view(v@),
            assets_view(out@) == complete_assets(ev.take(i as int)),
        decreases v@.len() - i,
    {
        assert(ev.take(i + 1).drop_last() =~= ev.take(i as int));
        assert(ev.take(i + 1).last() == ev[i as int]);
        let entry = &v[i];
        match (&entry.0, &entry.1) {
            (Some(n), Some(u)) => {
                let a = Asset { name: n.clone(), download_url: u.clone() };
                out.push(a);
                assert(assets_view(out@) =~= complete_assets(ev.take(i as int)).push(a@));
            },
            _ => {},
        }
        i += 1;
    }
    assert(ev.take(v@.len() as int) =~= ev);
    out
}

/// Reads the assets of a release descriptor (JSON of the shape
/// `{"assets": [{"name": .., "browser_download_url": ..}, ..]}`).
pub fn release_assets(release_json: &str) -> (r: Vec<Asset>)
    ensures
        assets_view(r@) == match release_asset_entries(release_json@) {
            Some(f) => complete_assets(f),
            None => Seq::empty(),
        },
{
    assets_from_entries(asset_entries(release_json))
}

/// Whether some asset bears `name`.
pub open spec fn has_asset(a: Seq<Asset>, name: Seq<char>) -> bool {
    exists|j: int| 0 <= j < a.len() && (#[trigger] a[j]).name@ == name
}

/// `r` is the position of the first asset named `name`, or `None` when there is none.
pub open spec fn first_named(a: Seq<Asset>, name: Seq<char>, r: Option<usize>) -> bool {
    match r {
        Some(i) => i < a.len() && a[i as int].name@ == name && forall|j: int|
            0 <= j < i ==> (#[trigger] a[j]).name@ != name,
        None => !has_asset(a, name),
    }
}

/// The position of the first asset named `name`.
pub fn find_asset(assets: &Vec<Asset>, name: &str) -> (r: Option<usize>)
    ensures
        first_named(assets@, name@, r),
{
    let mut i: usize = 0;
    while i < assets.len()
        invariant
            i <= assets@.len(),
            forall|j: int| 0 <= j < i ==> (#[trigger] assets@[j]).name@ != name@,
        decreases assets@.len() - i,
    {
        if same_text(assets[i].name.as_str(), name) {
            return Some(i);
        }
        i += 1;
    }
    None
}

/// `r` is the asset chosen for download: the first one named `variant_name`;
/// only when there is none, the first one named `fallback_name`.
pub open spec fn resolved(
    a: Seq<Asset>,
    variant_name: Seq<char>,
    fallback_name: Seq<char>,
    r: Option<usize>,
) -> bool {
    if has_asset(a, variant_name) {
        first_named(a, variant_name, r)
    } else {
        first_named(a, fallback_name, r)
    }
}

/// Chooses the asset to download: the first one named exactly (case
/// included) `variant_name`; only when there is none, the first one named
/// `fallback_name`; `None` when neither is there.
pub fn resolve_asset(assets: &Vec<Asset>, variant_name: &str, fallback_name: &str) -> (r: Option<
    usize,
>)
    ensures
        resolved(assets@, variant_name@, fallback_name@, r),
{
    match find_asset(assets, variant_name) {
        Some(i) => Some(i),
        None => find_asset(assets, fallback_name),
    }
}

/// The name of the release asset that holds the checksum manifest.
pub open spec fn checksum_asset_name() -> Seq<char> {
    seq!['c', 'h', 'e', 'c', 'k', 's', 'u', 'm', 's', '.', 'j', 's', 'o', 'n']
}

/// The position of the checksum manifest among the assets.
pub fn find_checksum_asset(assets: &Vec<Asset>) -> (r: Option<usize>)
    ensures
        first_named(assets@, checksum_asset_name(), r),
{
    let name = "checksums.json";
    proof {
        reveal_strlit("checksums.json");
    }
    assert(name@ =~= checksum_asset_name());
    find_asset(assets, name)
}

/// The name under which a build is published: by its number of fans (two to
/// four have their own builds, any other count uses the one-fan build) and
/// whether it is statically linked.
pub open spec fn variant_name_text(fan_amount: u8, static_linked: bool) -> Seq<char> {
    if fan_amount == 2 {
        if static_linked {
            "Rust-gpu-fan-control-2-fans-static"@
        } else {
            "Rust-gpu-fan-control-2-fans"@
        }
    } else if fan_amount == 3 {
        if static_linked {
            "Rust-gpu-fan-control-3-fans-static"@
        } else {
            "Rust-gpu-fan-control-3-fans"@
        }
    } else if fan_amount == 4 {
        if static_linked {
            "Rust-gpu-fan-control-4-fans-static"@
        } else {
            "Rust-gpu-fan-control-4-fans"@
        }
    } else if static_linked {
        "Rust-gpu-fan-control-static"@
    } else {
        "Rust-gpu-fan-control"@
    }
}

/// The published name of the build with `fan_amount` fans.
pub fn binary_variant_name(fan_amount: u8, static_linked: bool) -> (r: &'static str)
    ensures
        r@ == variant_name_text(fan_amount, static_linked),
{
    if fan_amount == 2 {
        if static_linked {
            "Rust-gpu-fan-control-2-fans-static"
        } else {
            "Rust-gpu-fan-control-2-fans"
        }
    } else if fan_amount == 3 {
        if static_linked {
            "Rust-gpu-fan-control-3-fans-static"
        } else {
            "Rust-gpu-fan-control-3-fans"
        }
    } else if fan_amount == 4 {
        if static_linked {
            "Rust-gpu-fan-control-4-fans-static"
        } else {
            "Rust-gpu-fan-control-4-fans"
        }
    } else if static_linked {
        "Rust-gpu-fan-control-static"
    } else {
        "Rust-gpu-fan-control"
    }
}

/// The build downloaded when a release has none for the running variant.
pub fn fallback_variant_name() -> (r: &'static str)
    ensures
        r@ == variant_name_text(1, true),
{
    "Rust-gpu-fan-control-static"
}

/// Why an update cannot go ahead.
#[derive(Debug, Clone, Copy, PartialEq, Eq, Structural)]
pub enum UpdateError {
    /// The release has no asset for this variant, nor the fallback one.
    AssetNotFound,
    /// The release publishes no checksum manifest, or the manifest has no
    /// digest for the variant: the download could not be verified.
    ChecksumUnavailable,
    /// The download's digest differs from the published one.
    ChecksumMismatch,
}

/// Where to fetch an update from.
pub struct DownloadPlan {
    /// The binary chosen for this variant.
    pub binary_url: String,
    /// The checksum manifest.
    pub checksums_url: String,
}

/// Chooses what to download for an update: the binary for `variant_name` (or
/// the fallback), and the checksum manifest. Fails when there is no such
/// binary, and then when there is no manifest to verify it with.
pub fn plan_downloads(assets: &Vec<Asset>, variant_name: &str, fallback_name: &str) -> (r: Result<
    DownloadPlan,
    UpdateError,
>)
    ensures
        match r {
            Ok(p) => exists|i: usize, j: usize|
                resolved(assets@, variant_name@, fallback_name@, Some(i)) && first_named(
                    assets@,
                    checksum_asset_name(),
                    Some(j),
                ) && p.binary_url@ == (#[trigger] assets@[i as int]).download_url@
                    && p.checksums_url@ == (#[trigger] assets@[j as int]).download_url@,
            Err(e) => e == UpdateError::AssetNotFound && resolved(
                assets@,
                variant_name@,
                fallback_name@,
                None,
            ) || e == UpdateError::ChecksumUnavailable && !resolved(
                assets@,
                variant_name@,
                fallback_name@,
                None,
            ) && first_named(assets@, checksum_asset_name(), None),
        },
{
    let i = match resolve_asset(assets, variant_name, fallback_name) {
        Some(i) => i,
        None => {
            return Err(UpdateError::AssetNotFound);
        },
    };
    let j = match find_checksum_asset(assets) {
        Some(j) => j,
        None => {
            return Err(UpdateError::ChecksumUnavailable);
        },
    };
    Ok(
        DownloadPlan {
            binary_url: assets[i].download_url.clone(),
            checksums_url: assets[j].download_url.clone(),
        },
    )
}

} // verus!
