//! Planning the three acquisition passes of a version: asset objects (stored
//! by content hash), libraries, and the client jar. Each pass downloads only
//! what is missing on disk, so a second run asks for nothing.

use vstd::prelude::*;
use crate::paths::{join_path, path_join_spec};
use crate::manifest::{VersionManifest, Library, library_applies, applies};

verus! {

/// Where asset objects are served, by content hash.
pub const RESOURCES_URL: &'static str = "https://resources.download.minecraft.net";

/// One asset object: its content hash and size.
#[derive(Clone, Debug)]
pub struct AssetObject {
    pub hash: String,
    pub size: u64,
}

/// The asset index of a version: logical name to object.
#[derive(Clone, Debug)]
pub struct AssetIndex {
    pub objects: Vec<(String, AssetObject)>,
}

/// A file to fetch, and where it goes.
#[derive(Clone, Debug)]
pub struct DownloadTarget {
    pub url: String,
    pub path: String,
}

/// Why a pass cannot be planned.
#[derive(Clone, Debug, PartialEq, Eq)]
pub enum AssetError {
    /// A content hash too short to name its storage directory.
    MalformedHash(String),
}

/// The directories that acquisition fills, under one configuration directory.
#[derive(Clone, Debug)]
pub struct AssetManager {
    pub assets_dir: String,
    pub indexes_dir: String,
    pub objects_dir: String,
    pub libraries_dir: String,
    pub versions_dir: String,
}

/// `a/b/c`.
pub open spec fn join3(a: Seq<char>, b: Seq<char>, c: Seq<char>) -> Seq<char> {
    path_join_spec(path_join_spec(a, b), c)
}

pub open spec fn suffix_json() -> Seq<char> {
    seq!['.', 'j', 's', 'o', 'n']
}

pub open spec fn suffix_jar() -> Seq<char> {
    seq!['.', 'j', 'a', 'r']
}

/// The storage path of an object: `objects/<first two characters>/<hash>`.
pub open spec fn object_path(objects_dir: Seq<char>, hash: Seq<char>) -> Seq<char> {
    join3(objects_dir, hash.take(2), hash)
}

/// The address of an object on the resource server.
pub open spec fn object_url(hash: Seq<char>) -> Seq<char> {
    join3(RESOURCES_URL@, hash.take(2), hash)
}

impl AssetManager {
    pub open spec fn laid_out_under(&self, config_dir: Seq<char>) -> bool {
        &&& self.assets_dir@ == path_join_spec(config_dir, seq!['a', 's', 's', 'e', 't', 's'])
        &&& self.indexes_dir@ == path_join_spec(self.assets_dir@, seq!['i', 'n', 'd', 'e', 'x', 'e', 's'])
        &&& self.objects_dir@ == path_join_spec(self.assets_dir@, seq!['o', 'b', 'j', 'e', 'c', 't', 's'])
        &&& self.libraries_dir@ == path_join_spec(
            config_dir,
            seq!['l', 'i', 'b', 'r', 'a', 'r', 'i', 'e', 's'],
        )
        &&& self.versions_dir@ == path_join_spec(config_dir, seq!['v', 'e', 'r', 's', 'i', 'o', 'n', 's'])
    }

    /// The directories under `config_dir`: `assets` (with `indexes` and
    /// `objects`), `libraries` and `versions`.
    pub fn new(config_dir: &str) -> (r: Self)
        ensures
            r.laid_out_under(config_dir@),
    {
        proof {
            reveal_strlit("assets");
            reveal_strlit("indexes");
            reveal_strlit("objects");
            reveal_strlit("libraries");
            reveal_strlit("versions");
        }
        let assets_dir = join_path(config_dir, "assets");
        let indexes_dir = join_path(assets_dir.as_str(), "indexes");
        let objects_dir = join_path(assets_dir.as_str(), "objects");
        let libraries_dir = join_path(config_dir, "libraries");
        let versions_dir = join_path(config_dir, "versions");
        let r = AssetManager { assets_dir, indexes_dir, objects_dir, libraries_dir, versions_dir };
        proof {
            assert(r.assets_dir@ =~= path_join_spec(config_dir@, seq!['a', 's', 's', 'e', 't', 's']));
            assert(r.indexes_dir@ =~= path_join_spec(r.assets_dir@, seq!['i', 'n', 'd', 'e', 'x', 'e', 's']));
            assert(r.objects_dir@ =~= path_join_spec(r.assets_dir@, seq!['o', 'b', 'j', 'e', 'c', 't', 's']));
            assert(r.libraries_dir@ =~= path_join_spec(
                config_dir@,
                seq!['l', 'i', 'b', 'r', 'a', 'r', 'i', 'e', 's'],
            ));
            assert(r.versions_dir@ =~= path_join_spec(config_dir@, seq!['v', 'e', 'r', 's', 'i', 'o', 'n', 's']));
        }
        r
    }

    /// Where the asset index `id` is kept: `indexes/<id>.json`.
    pub fn index_path(&self, id: &str) -> (r: String)
        ensures
            r@ == path_join_spec(self.indexes_dir@, id@ + suffix_json()),
    {
        proof {
            reveal_strlit(".json");
            assert(".json"@ =~= suffix_json());
        }
        let mut name = String::from_str(id);
        name.append(".json");
        join_path(self.indexes_dir.as_str(), name.as_str())
    }

    /// The download of one asset object into its content-addressed place.
    pub fn object_target(&self, obj: &AssetObject) -> (r: Result<DownloadTarget, AssetError>)
        ensures
            obj.hash@.len() < 2 <==> r is Err,
            r matches Ok(t) ==> t.path@ == object_path(self.objects_dir@, obj.hash@) && t.url@
                == object_url(obj.hash@),
            r matches Err(AssetError::MalformedHash(h)) ==> h@ == obj.hash@,
    {
        let hash = obj.hash.as_str();
        if hash.unicode_len() < 2 {
            return Err(AssetError::MalformedHash(String::from_str(hash)));
        }
        let sub = hash.substring_char(0, 2);
        let dir = join_path(self.objects_dir.as_str(), sub);
        let path = join_path(dir.as_str(), hash);
        let base = join_path(RESOURCES_URL, sub);
        let url = join_path(base.as_str(), hash);
        proof {
            assert(sub@ =~= hash@.take(2));
        }
        Ok(DownloadTarget { url, path })
    }

    /// The downloads of every object of `index`, in the index's order.
    pub fn asset_targets(&self, index: &AssetIndex) -> (r: Result<Vec<DownloadTarget>, AssetError>)
        ensures
            r is Err <==> exists|i: int| 0 <= i < index.objects@.len() && (#[trigger] index.objects@[i]).1.hash@.len() < 2,
            r matches Ok(ts) ==> ts@.len() == index.objects@.len() && forall|i: int|
                0 <= i < ts@.len() ==> {
                    let h = index.objects@[i].1.hash@;
                    &&& (#[trigger] ts@[i]).path@ == object_path(self.objects_dir@, h)
                    &&& ts@[i].url@ == object_url(h)
                },
    {
        let mut out: Vec<DownloadTarget> = Vec::new();
        let mut i: usize = 0;
        while i < index.objects.len()
            invariant
                0 <= i <= index.objects@.len(),
                out@.len() == i,
                forall|k: int| 0 <= k < i ==> index.objects@[k].1.hash@.len() >= 2,
                forall|k: int|
                    0 <= k < i ==> {
                        let h = index.objects@[k].1.hash@;
                        &&& (#[trigger] out@[k]).path@ == object_path(self.objects_dir@, h)
                        &&& out@[k].url@ == object_url(h)
                    },
            decreases index.objects.len() - i,
        {
            match self.object_target(&index.objects[i].1) {
                Err(e) => {
                    return Err(e);
                },
                Ok(t) => {
                    out.push(t);
                },
            }
            i += 1;
        }
        Ok(out)
    }

    /// The downloads of the libraries that apply to the platform, in manifest order.
    pub fn library_targets(&self, manifest: &VersionManifest, os_name: &str, arch: &str) -> (r: Vec<
        DownloadTarget,
    >)
        ensures
            views_targets(r@) == library_plan(self.libraries_dir@, manifest.libraries@, os_name@, arch@),
    {
        let libs = &manifest.libraries;
        let mut out: Vec<DownloadTarget> = Vec::new();
        let mut i: usize = 0;
        while i < libs.len()
            invariant
                0 <= i <= libs@.len(),
                views_targets(out@) == library_plan(self.libraries_dir@, libs@.subrange(0, i as int), os_name@, arch@),
            decreases libs.len() - i,
        {
            proof {
                assert(libs@.subrange(0, i as int + 1).drop_last() =~= libs@.subrange(0, i as int));
            }
            let ghost before = views_targets(out@);
            if applies(&libs[i], os_name, arch) {
                let art = &libs[i].downloads.artifact;
                let path = join_path(self.libraries_dir.as_str(), art.path.as_str());
                out.push(DownloadTarget { url: art.url.clone(), path });
                proof {
                    assert(views_targets(out@) =~= before.push((art.url@, path_join_spec(self.libraries_dir@, art.path@))));
                }
            }
            i += 1;
        }
        proof {
            assert(libs@.subrange(0, libs@.len() as int) =~= libs@);
        }
        out
    }

    /// The download of the client jar: `versions/<id>/<id>.jar`.
    pub fn version_jar_target(&self, manifest: &VersionManifest) -> (r: DownloadTarget)
        ensures
            r.path@ == jar_path(self.versions_dir@, manifest.id@),
            r.url@ == manifest.downloads.client.url@,
    {
        proof {
            reveal_strlit(".jar");
            assert(".jar"@ =~= suffix_jar());
        }
        let dir = join_path(self.versions_dir.as_str(), manifest.id.as_str());
        let mut name = String::from_str(manifest.id.as_str());
        name.append(".jar");
        let path = join_path(dir.as_str(), name.as_str());
        DownloadTarget { url: manifest.downloads.client.url.clone(), path }
    }
}

/// Where the client jar of version `id` is kept under `versions_dir`.
pub open spec fn jar_path(versions_dir: Seq<char>, id: Seq<char>) -> Seq<char> {
    join3(versions_dir, id, id + suffix_jar())
}

/// A target as (address, path).
pub open spec fn views_targets(ts: Seq<DownloadTarget>) -> Seq<(Seq<char>, Seq<char>)> {
    ts.map_values(|t: DownloadTarget| (t.url@, t.path@))
}

/// The library downloads for the platform: each applicable library's artifact,
/// placed at its path under `libraries_dir`, in manifest order.
pub open spec fn library_plan(
    libraries_dir: Seq<char>,
    libs: Seq<Library>,
    os_name: Seq<char>,
    arch: Seq<char>,
) -> Seq<(Seq<char>, Seq<char>)>
    decreases libs.len(),
{
    if libs.len() == 0 {
        seq![]
    } else {
        let prev = library_plan(libraries_dir, libs.drop_last(), os_name, arch);
        let lib = libs.last();
        if library_applies(lib, os_name, arch) {
            prev.push(
                (
                    lib.downloads.artifact.url@,
                    path_join_spec(libraries_dir, lib.downloads.artifact.path@),
                ),
            )
        } else {
            prev
        }
    }
}

/// The targets whose file is not yet on disk (`present[i]` says whether the
/// file of `targets[i]` exists), in order.
pub open spec fn pending_spec(targets: Seq<DownloadTarget>, present: Seq<bool>) -> Seq<DownloadTarget>
    decreases targets.len(),
{
    if targets.len() == 0 || present.len() != targets.len() {
        seq![]
    } else {
        let prev = pending_spec(targets.drop_last(), present.drop_last());
        if present.last() {
            prev
        } else {
            prev.push(targets.last())
        }
    }
}

/// The downloads still to make: those whose file is absent.
pub fn pending_downloads(targets: &Vec<DownloadTarget>, present: &Vec<bool>) -> (r: Vec<DownloadTarget>)
    requires
        present@.len() == targets@.len(),
    ensures
        views_targets(r@) == views_targets(pending_spec(targets@, present@)),
{
    let mut out: Vec<DownloadTarget> = Vec::new();
    let mut i: usize = 0;
    while i < targets.len()
        invariant
            present@.len() == targets@.len(),
            0 <= i <= targets@.len(),
            views_targets(out@) == views_targets(pending_spec(targets@.subrange(0, i as int), present@.subrange(0, i as int))),
        decreases targets.len() - i,
    {
        proof {
            assert(targets@.subrange(0, i as int + 1).drop_last() =~= targets@.subrange(0, i as int));
            assert(present@.subrange(0, i as int + 1).drop_last() =~= present@.subrange(0, i as int));
        }
        let ghost before = pending_spec(targets@.subrange(0, i as int), present@.subrange(0, i as int));
        let ghost before_out = views_targets(out@);
        if !present[i] {
            let t = &targets[i];
            out.push(DownloadTarget { url: t.url.clone(), path: t.path.clone() });
            proof {
                assert(views_targets(out@) =~= before_out.push((t.url@, t.path@)));
                assert(views_targets(before.push(*t)) =~= views_targets(before).push((t.url@, t.path@)));
            }
        }
        i += 1;
    }
    proof {
        assert(targets@.subrange(0, targets@.len() as int) =~= targets@);
        assert(present@.subrange(0, present@.len() as int) =~= present@);
    }
    out
}

/// Whether the asset index must be fetched and written: only when it is not on
/// disk yet; otherwise the copy on disk is read, so a second run asks the
/// network for nothing.
pub fn index_needs_download(index_present: bool) -> (r: bool)
    ensures
        r == !index_present,
{
    !index_present
}

/// For each target, whether `disk` holds its file.
pub open spec fn presence(targets: Seq<DownloadTarget>, disk: Set<Seq<char>>) -> Seq<bool> {
    targets.map_values(|t: DownloadTarget| disk.contains(t.path@))
}

proof fn lemma_pending_members(targets: Seq<DownloadTarget>, present: Seq<bool>, i: int)
    requires
        present.len() == targets.len(),
        0 <= i < targets.len(),
        !present[i],
    ensures
        pending_spec(targets, present).contains(targets[i]),
    decreases targets.len(),
{
    let n = targets.len();
    if i < n - 1 {
        lemma_pending_members(targets.drop_last(), present.drop_last(), i);
        let prev = pending_spec(targets.drop_last(), present.drop_last());
        let k = choose|k: int| 0 <= k < prev.len() && prev[k] == targets[i];
        if !present.last() {
            assert(prev.push(targets.last())[k] == targets[i]);
        }
    } else {
        let prev = pending_spec(targets.drop_last(), present.drop_last());
        assert(prev.push(targets.last())[prev.len() as int] == targets[i]);
    }
}

/// Acquisition is idempotent: once a run has fetched every pending target into
/// `disk`, a second run over the same targets has nothing left to download.
pub proof fn lemma_second_run_downloads_nothing(targets: Seq<DownloadTarget>, disk: Set<Seq<char>>)
    ensures
        ({
            let fetched = pending_spec(targets, presence(targets, disk));
            let after = disk.union(fetched.map_values(|t: DownloadTarget| t.path@).to_set());
            pending_spec(targets, presence(targets, after)).len() == 0
        }),
{
    let present = presence(targets, disk);
    let fetched = pending_spec(targets, present);
    let paths = fetched.map_values(|t: DownloadTarget| t.path@);
    let after = disk.union(paths.to_set());
    let present2 = presence(targets, after);
    assert forall|i: int| 0 <= i < targets.len() implies #[trigger] present2[i] by {
        if !present[i] {
            lemma_pending_members(targets, present, i);
            let k = choose|k: int| 0 <= k < fetched.len() && fetched[k] == targets[i];
            assert(paths[k] == targets[i].path@);
            assert(paths.contains(targets[i].path@));
        }
    }
    lemma_pending_none(targets, present2);
}

proof fn lemma_pending_none(targets: Seq<DownloadTarget>, present: Seq<bool>)
    requires
        present.len() == targets.len(),
        forall|i: int| 0 <= i < present.len() ==> #[trigger] present[i],
    ensures
        pending_spec(targets, present).len() == 0,
    decreases targets.len(),
{
    if targets.len() > 0 {
        assert(present.last() == present[present.len() - 1]);
        assert forall|i: int| 0 <= i < present.drop_last().len() implies #[trigger] present.drop_last()[i] by {
            assert(present.drop_last()[i] == present[i]);
        }
        lemma_pending_none(targets.drop_last(), present.drop_last());
    }
}

} // verus!
