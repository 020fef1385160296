//! Example values of zone images, as they are found in install datasets.

use camino::Utf8Path;
use iddqd::{IdOrdItem, IdOrdMap};
use sha2::{Digest, Sha256};
use vstd::prelude::*;
use vstd::slice::slice_to_vec;

use crate::sort::views;
use crate::text::{
    is_random_uuid, lemma_text_before_asymmetric, lemma_text_before_irreflexive, random_uuid,
    text_before, uuid_text, uuid_to_string, Uuid,
};

verus! {

// ---
// Paths
// ---

/// Whether a path starts at the root.
pub open spec fn is_absolute(path: Seq<char>) -> bool {
    path.len() > 0 && path[0] == '/'
}

/// Whether a path is made of a directory and a path under it.
pub open spec fn is_joined(dir: Seq<char>, path: Seq<char>, joined: Seq<char>) -> bool {
    if is_absolute(path) || dir.len() == 0 {
        joined == path
    } else if dir.last() == '/' {
        joined == dir + path
    } else {
        path.len() > 0 ==> joined == dir + "/"@ + path
    }
}

/// Adjoins a path to a directory.
///
/// Calls `camino::Utf8Path::join`: an absolute path replaces the directory, and
/// a relative one extends it, after a slash unless the directory is empty or ends
/// in one. What becomes of another directory with an empty path is left open. The
/// slash is that of Unix.
#[verifier::external_body]
fn path_join(dir: &str, path: &str) -> (r: String)
    ensures
        is_joined(dir@, path@, r@),
{
    Utf8Path::new(dir).join(path).into_string()
}

/// The name of the file that lists the zones of an install dataset.
pub const ZONE_MANIFEST_FILE_NAME: &'static str = "zones.json";

/// The name of the file that describes the override of an install dataset.
pub const MUPDATE_OVERRIDE_FILE_NAME: &'static str = "mupdate-override.json";

/// The paths of an install dataset and of the files that describe it.
#[derive(Debug, PartialEq, Eq)]
pub struct OverridePaths {
    pub install_dataset: String,
    pub zones_json: String,
    pub mupdate_override_json: String,
}

/// The path of the install dataset on an internal pool.
pub open spec fn install_dataset_path(uuid: Uuid) -> Seq<char> {
    "pool/int/"@ + uuid_text(uuid) + "/install"@
}

impl OverridePaths {
    /// Whether these are the paths on an internal pool.
    pub open spec fn are_of(self, uuid: Uuid) -> bool {
        &&& self.install_dataset@ == install_dataset_path(uuid)
        &&& self.zones_json@ == install_dataset_path(uuid) + "/"@ + "zones.json"@
        &&& self.mupdate_override_json@ == install_dataset_path(uuid) + "/"@
            + "mupdate-override.json"@
    }

    /// The paths on an internal pool.
    pub fn for_uuid(uuid: Uuid) -> (r: Self)
        ensures
            r.are_of(uuid),
    {
        let install_dataset = "pool/int/".to_owned().concat(uuid_to_string(uuid).as_str()).concat(
            "/install",
        );
        proof {
            reveal_strlit("pool/int/");
            reveal_strlit("/install");
            reveal_strlit("zones.json");
            reveal_strlit("mupdate-override.json");
            assert(install_dataset@.last() == 'l');
            assert(ZONE_MANIFEST_FILE_NAME@[0] == 'z');
            assert(MUPDATE_OVERRIDE_FILE_NAME@[0] == 'm');
        }
        let zones_json = path_join(install_dataset.as_str(), ZONE_MANIFEST_FILE_NAME);
        let mupdate_override_json = path_join(
            install_dataset.as_str(),
            MUPDATE_OVERRIDE_FILE_NAME,
        );
        OverridePaths { install_dataset, zones_json, mupdate_override_json }
    }
}

pub const BOOT_UUID: Uuid = 0xd3e7205d_4efe_493b_ac5e_9175584907cd;

pub const NON_BOOT_UUID: Uuid = 0x4854189f_b290_47cd_b076_374d0e1748ec;

pub const NON_BOOT_2_UUID: Uuid = 0x72201e1e_9fee_4231_81cd_4e2d514cb632;

pub const NON_BOOT_3_UUID: Uuid = 0xd0d04947_93c5_40fd_97ab_4648b8cc28d6;

/// The paths on the boot disk.
pub fn boot_paths() -> (r: OverridePaths)
    ensures
        r.are_of(BOOT_UUID),
{
    OverridePaths::for_uuid(BOOT_UUID)
}

/// The paths on another disk.
pub fn non_boot_paths() -> (r: OverridePaths)
    ensures
        r.are_of(NON_BOOT_UUID),
{
    OverridePaths::for_uuid(NON_BOOT_UUID)
}

/// The paths on a second other disk.
pub fn non_boot_2_paths() -> (r: OverridePaths)
    ensures
        r.are_of(NON_BOOT_2_UUID),
{
    OverridePaths::for_uuid(NON_BOOT_2_UUID)
}

/// The paths on a third other disk.
pub fn non_boot_3_paths() -> (r: OverridePaths)
    ensures
        r.are_of(NON_BOOT_3_UUID),
{
    OverridePaths::for_uuid(NON_BOOT_3_UUID)
}

// ---
// Hashes
// ---

/// The SHA-256 hash of an artifact.
#[derive(Copy, Clone, Debug, PartialEq, Eq)]
pub struct ArtifactHash(pub [u8; 32]);

impl View for ArtifactHash {
    type V = Seq<u8>;

    open spec fn view(&self) -> Seq<u8> {
        self.0@
    }
}

impl ArtifactHash {
    /// Tells whether two hashes are the same.
    pub fn same(&self, other: &ArtifactHash) -> (r: bool)
        ensures
            r == (self@ == other@),
    {
        let mut i: usize = 0;
        while i < 32
            invariant
                i <= 32,
                self@.len() == 32,
                other@.len() == 32,
                self@.take(i as int) == other@.take(i as int),
            decreases 32 - i,
        {
            if self.0[i] != other.0[i] {
                assert(self@[i as int] != other@[i as int]);
                return false;
            }
            assert(self@.take(i + 1) =~= self@.take(i as int).push(self@[i as int]));
            assert(other@.take(i + 1) =~= other@.take(i as int).push(other@[i as int]));
            i = i + 1;
        }
        assert(self@.take(32) =~= self@);
        assert(other@.take(32) =~= other@);
        true
    }
}

/// The SHA-256 digest of bytes.
pub uninterp spec fn sha256_digest(contents: Seq<u8>) -> Seq<u8>;

/// One more than the greatest number of bytes whose number of bits fits into 64
/// bits.
pub const MAX_CONTENTS: u64 = 0x2000_0000_0000_0000;

/// Hashes bytes.
///
/// Calls `sha2::Sha256::digest`, whose result depends on the bytes alone. It
/// counts their bits in 64 bits.
#[verifier::external_body]
fn sha256(contents: &[u8]) -> (r: [u8; 32])
    requires
        contents@.len() < MAX_CONTENTS,
    ensures
        r@ == sha256_digest(contents@),
{
    Sha256::digest(contents).into()
}

/// Computes the hash of an artifact.
pub fn compute_hash(contents: &[u8]) -> (r: ArtifactHash)
    requires
        contents@.len() < MAX_CONTENTS,
    ensures
        r@ == sha256_digest(contents@),
{
    ArtifactHash(sha256(contents))
}

// ---
// Zone files
// ---

/// That a file was not found.
#[derive(Debug, PartialEq, Eq)]
pub struct NotFound {
    pub message: Option<String>,
}

/// What comes of reading a zone file.
#[derive(Debug, PartialEq, Eq)]
pub enum ArtifactReadResult {
    /// The file is as the manifest says.
    Valid,
    /// The size or the hash is not that of the manifest.
    Mismatch { actual_size: u64, actual_hash: ArtifactHash },
    /// The file could not be read.
    Error(NotFound),
}

/// What comes of reading a zone file that the manifest lists.
#[derive(Debug, PartialEq, Eq)]
pub struct ZoneManifestArtifactResult {
    pub file_name: String,
    pub path: String,
    pub expected_size: u64,
    pub expected_hash: ArtifactHash,
    pub status: ArtifactReadResult,
}

/// A zone file.
#[derive(Debug)]
pub struct ZoneContents {
    file_name: String,
    contents: Vec<u8>,
    // json_size and json_hash are stored separately, so tests can tweak
    // them before writing out the override info.
    json_size: u64,
    json_hash: ArtifactHash,
    write_to_disk: bool,
    include_in_json: bool,
}

/// What a `ZoneContents` stands for.
#[verifier::ext_equal]
pub struct ZoneView {
    pub file_name: Seq<char>,
    pub contents: Seq<u8>,
    /// the size that the manifest tells
    pub json_size: u64,
    /// the hash that the manifest tells
    pub json_hash: Seq<u8>,
    /// whether the file is there
    pub write_to_disk: bool,
    /// whether the manifest lists it
    pub include_in_json: bool,
}

impl View for ZoneContents {
    type V = ZoneView;

    closed spec fn view(&self) -> ZoneView {
        ZoneView {
            file_name: self.file_name@,
            contents: self.contents@,
            json_size: self.json_size,
            json_hash: self.json_hash@,
            write_to_disk: self.write_to_disk,
            include_in_json: self.include_in_json,
        }
    }
}

/// A zone file that is there and as the manifest says.
pub open spec fn faithful_zone(file_name: Seq<char>, contents: Seq<u8>) -> ZoneView {
    ZoneView {
        file_name,
        contents,
        json_size: contents.len() as u64,
        json_hash: sha256_digest(contents),
        write_to_disk: true,
        include_in_json: true,
    }
}

impl ZoneView {
    /// Whether the file has the size and the hash that the manifest tells.
    pub open spec fn is_as_listed(self) -> bool {
        self.json_size == self.contents.len() && self.json_hash == sha256_digest(self.contents)
    }

    /// Whether this is what reading the file gives, where its contents have a hash.
    pub open spec fn reads_with(self, hash: Seq<u8>, status: ArtifactReadResult) -> bool {
        if !self.write_to_disk {
            status matches ArtifactReadResult::Error(error) && error.message is Some
                && error.message->0@ == "file not found"@
        } else if self.json_size == self.contents.len() && self.json_hash == hash {
            status is Valid
        } else {
            status matches ArtifactReadResult::Mismatch { actual_size, actual_hash } && actual_size
                == self.contents.len() && actual_hash@ == hash
        }
    }

    /// Whether this is what reading the file gives.
    pub open spec fn reads_as(self, status: ArtifactReadResult) -> bool {
        self.reads_with(sha256_digest(self.contents), status)
    }

    /// Whether this is what reading the listed file in a directory gives.
    pub open spec fn is_read_as(self, dir: Seq<char>, result: ZoneManifestArtifactResult) -> bool {
        &&& result.file_name@ == self.file_name
        &&& is_joined(dir, self.file_name, result.path@)
        &&& result.expected_size == self.json_size
        &&& result.expected_hash@ == self.json_hash
        &&& self.reads_as(result.status)
    }
}

impl Clone for ZoneContents {
    fn clone(&self) -> (r: Self)
        ensures
            r@ == self@,
    {
        proof {
            use_type_invariant(self);
        }
        ZoneContents {
            file_name: self.file_name.clone(),
            contents: slice_to_vec(self.contents.as_slice()),
            json_size: self.json_size,
            json_hash: self.json_hash,
            write_to_disk: self.write_to_disk,
            include_in_json: self.include_in_json,
        }
    }
}

impl ZoneContents {
    #[verifier::type_invariant]
    closed spec fn inv(self) -> bool {
        self.contents@.len() < MAX_CONTENTS
    }

    /// A zone file that is there and as the manifest says.
    pub fn new(file_name: &str, contents: &[u8]) -> (r: Self)
        requires
            contents@.len() < MAX_CONTENTS,
        ensures
            r@ == faithful_zone(file_name@, contents@),
    {
        let size = contents.len() as u64;
        let hash = compute_hash(contents);
        let contents = slice_to_vec(contents);
        ZoneContents {
            file_name: file_name.to_owned(),
            contents,
            json_size: size,
            json_hash: hash,
            write_to_disk: true,
            include_in_json: true,
        }
    }

    /// The zone file, with another size in the manifest.
    fn with_json_size(self, json_size: u64) -> (r: Self)
        ensures
            r@ == (ZoneView { json_size, ..self@ }),
    {
        let mut zone = self;
        proof {
            use_type_invariant(&zone);
        }
        zone.json_size = json_size;
        zone
    }

    /// The zone file, with another hash in the manifest.
    fn with_json_hash(self, json_hash: ArtifactHash) -> (r: Self)
        ensures
            r@ == (ZoneView { json_hash: json_hash@, ..self@ }),
    {
        let mut zone = self;
        proof {
            use_type_invariant(&zone);
        }
        zone.json_hash = json_hash;
        zone
    }

    /// The zone file, which is not there.
    fn without_file(self) -> (r: Self)
        ensures
            r@ == (ZoneView { write_to_disk: false, ..self@ }),
    {
        let mut zone = self;
        proof {
            use_type_invariant(&zone);
        }
        zone.write_to_disk = false;
        zone
    }

    /// The zone file, which the manifest does not list.
    fn without_listing(self) -> (r: Self)
        ensures
            r@ == (ZoneView { include_in_json: false, ..self@ }),
    {
        let mut zone = self;
        proof {
            use_type_invariant(&zone);
        }
        zone.include_in_json = false;
        zone
    }

    /// What reading the file gives, where its contents have the given hash.
    pub fn read_status(&self, actual_hash: ArtifactHash) -> (r: ArtifactReadResult)
        ensures
            self@.reads_with(actual_hash@, r),
    {
        proof {
            use_type_invariant(self);
        }
        if !self.write_to_disk {
            // Missing from the disk
            return ArtifactReadResult::Error(
                NotFound { message: Some("file not found".to_owned()) },
            );
        }
        let actual_size = self.contents.len() as u64;
        if self.json_size != actual_size || !self.json_hash.same(&actual_hash) {
            ArtifactReadResult::Mismatch { actual_size, actual_hash }
        } else {
            ArtifactReadResult::Valid
        }
    }

    /// What reading the file gives.
    pub fn expected_result(&self, dir: &str) -> (r: ZoneManifestArtifactResult)
        ensures
            self@.is_read_as(dir@, r),
    {
        proof {
            use_type_invariant(self);
        }
        let status = self.read_status(compute_hash(self.contents.as_slice()));
        ZoneManifestArtifactResult {
            file_name: self.file_name.clone(),
            path: path_join(dir, self.file_name.as_str()),
            expected_size: self.json_size,
            expected_hash: self.json_hash,
            status,
        }
    }
}

impl IdOrdItem for ZoneContents {
    type Key<'a> = &'a str;

    /// The name of the zone file, which collections keep it under.
    fn key(&self) -> (r: &str)
        ensures
            r@ == self@.file_name,
    {
        self.file_name.as_str()
    }

    /// The same name, for a shorter time.
    fn upcast_key<'short, 'long: 'short>(long: &'long str) -> (r: &'short str)
        ensures
            r == long,
    {
        long
    }
}

// ---
// Collections of zone files
// ---

#[verifier::external_type_specification]
#[verifier::external_body]
#[verifier::reject_recursive_types(T)]
pub struct ExIdOrdMap<T>(IdOrdMap<T>);

/// The zone files that an `iddqd::IdOrdMap` holds, by their names.
pub uninterp spec fn zones_in(map: IdOrdMap<ZoneContents>) -> Map<Seq<char>, ZoneView>;

/// Whether a list holds each zone file once, in the order of their names.
pub open spec fn lists_zones(zones: Map<Seq<char>, ZoneView>, list: Seq<ZoneView>) -> bool {
    &&& forall|i: int, j: int|
        #![trigger list[i], list[j]]
        0 <= i < j < list.len() ==> text_before(list[i].file_name, list[j].file_name)
    &&& forall|i: int|
        0 <= i < list.len() ==> zones.contains_pair((#[trigger] list[i]).file_name, list[i])
    &&& forall|name: Seq<char>| #[trigger]
        zones.contains_key(name) ==> exists|i: int|
            0 <= i < list.len() && (#[trigger] list[i]).file_name == name
}

/// Makes a collection without zone files.
///
/// Calls `iddqd::IdOrdMap::new`.
#[verifier::external_body]
fn zones_new() -> (r: IdOrdMap<ZoneContents>)
    ensures
        zones_in(r).dom() == Set::<Seq<char>>::empty(),
{
    IdOrdMap::new()
}

/// Puts a zone file into a collection, in place of the one with the same name
/// if there is one.
///
/// Calls `iddqd::IdOrdMap::insert_overwrite`, and lets go of the file that was
/// replaced.
#[verifier::external_body]
fn zones_insert_overwrite(map: &mut IdOrdMap<ZoneContents>, zone: ZoneContents)
    ensures
        zones_in(*final(map)) == zones_in(*old(map)).insert(zone@.file_name, zone@),
{
    map.insert_overwrite(zone);
}

/// Whether this is what is returned when the zone file with a name is taken out
/// of a collection.
pub open spec fn is_taken(
    zones: Map<Seq<char>, ZoneView>,
    name: Seq<char>,
    taken: Option<ZoneContents>,
) -> bool {
    if zones.contains_key(name) {
        taken is Some && taken->0@ == zones[name] && taken->0@.file_name == name
    } else {
        taken is None
    }
}

/// Takes the zone file with a name out of a collection.
///
/// Calls `iddqd::IdOrdMap::remove`, which returns the file if there is one.
#[verifier::external_body]
fn zones_remove(map: &mut IdOrdMap<ZoneContents>, name: &str) -> (r: Option<ZoneContents>)
    ensures
        is_taken(zones_in(*old(map)), name@, r),
        zones_in(*final(map)) == zones_in(*old(map)).remove(name@),
{
    map.remove(name)
}

/// The zone files of a collection.
///
/// Calls `iddqd::IdOrdMap::iter`, which gives each file once, in the order of
/// their names, and gathers what it gives.
#[verifier::external_body]
fn zones_iter(map: &IdOrdMap<ZoneContents>) -> (r: Vec<&ZoneContents>)
    ensures
        lists_zones(zones_in(*map), zone_views(r@)),
{
    map.iter().collect()
}

/// What the zone files of a list stand for.
pub open spec fn zone_views(list: Seq<&ZoneContents>) -> Seq<ZoneView> {
    list.map_values(|z: &ZoneContents| z@)
}

/// There is one way to list the zone files of a collection.
pub proof fn law_one_listing(
    zones: Map<Seq<char>, ZoneView>,
    a: Seq<ZoneView>,
    b: Seq<ZoneView>,
)
    requires
        lists_zones(zones, a),
        lists_zones(zones, b),
    ensures
        a == b,
    decreases a.len(),
{
    if a.len() == 0 {
        if b.len() > 0 {
            assert(zones.contains_key(b[0].file_name));
        }
    } else {
        assert(zones.contains_key(a[0].file_name));
        let j = choose|j: int| 0 <= j < b.len() && (#[trigger] b[j]).file_name == a[0].file_name;
        let i = choose|i: int| 0 <= i < a.len() && (#[trigger] a[i]).file_name == b[0].file_name;
        assert(zones.contains_key(b[0].file_name));
        if j > 0 {
            assert(text_before(b[0].file_name, b[j].file_name));
            if i > 0 {
                assert(text_before(a[0].file_name, a[i].file_name));
                lemma_text_before_asymmetric(a[0].file_name, b[0].file_name);
            } else {
                lemma_text_before_irreflexive(b[0].file_name);
            }
        }
        let name = a[0].file_name;
        assert(a[0] == b[0]);
        let rest = zones.remove(name);
        let (c, d) = (a.drop_first(), b.drop_first());
        assert forall|n: Seq<char>| #[trigger] rest.contains_key(n) implies exists|k: int|
            0 <= k < c.len() && (#[trigger] c[k]).file_name == n by {
            assert(zones.contains_key(n));
            let k = choose|k: int| 0 <= k < a.len() && (#[trigger] a[k]).file_name == n;
            assert(c[k - 1].file_name == n);
        }
        assert forall|n: Seq<char>| #[trigger] rest.contains_key(n) implies exists|k: int|
            0 <= k < d.len() && (#[trigger] d[k]).file_name == n by {
            assert(zones.contains_key(n));
            let k = choose|k: int| 0 <= k < b.len() && (#[trigger] b[k]).file_name == n;
            assert(d[k - 1].file_name == n);
        }
        assert forall|k: int| 0 <= k < c.len() implies rest.contains_pair(
            (#[trigger] c[k]).file_name,
            c[k],
        ) by {
            assert(c[k] == a[k + 1]);
            assert(text_before(a[0].file_name, a[k + 1].file_name));
            lemma_text_before_irreflexive(name);
        }
        assert forall|k: int| 0 <= k < d.len() implies rest.contains_pair(
            (#[trigger] d[k]).file_name,
            d[k],
        ) by {
            assert(d[k] == b[k + 1]);
            assert(text_before(b[0].file_name, b[k + 1].file_name));
            lemma_text_before_irreflexive(name);
        }
        law_one_listing(rest, c, d);
        assert(a =~= seq![a[0]] + c);
        assert(b =~= seq![b[0]] + d);
    }
}

/// The zone files of a collection in the order of their names.
pub open spec fn zone_list(zones: Map<Seq<char>, ZoneView>) -> Seq<ZoneView> {
    choose|list: Seq<ZoneView>| lists_zones(zones, list)
}

// ---
// Install datasets
// ---

/// What tells of an override.
#[derive(Debug, PartialEq, Eq)]
pub struct MupdateOverrideInfo {
    pub mupdate_uuid: Uuid,
    /// the hashes of the artifacts that the override came with
    pub hash_ids: Vec<ArtifactHash>,
}

/// Where a zone manifest comes from.
#[derive(Copy, Clone, Debug, PartialEq, Eq, Structural)]
pub enum OmicronZoneManifestSource {
    Installinator { mupdate_id: Uuid },
    SledAgent,
}

/// What a zone manifest tells of a zone file.
#[derive(Debug, PartialEq, Eq)]
pub struct OmicronZoneFileMetadata {
    pub file_name: String,
    pub file_size: u64,
    pub hash: ArtifactHash,
}

/// What an `OmicronZoneFileMetadata` stands for.
#[verifier::ext_equal]
pub struct MetadataView {
    pub file_name: Seq<char>,
    pub file_size: u64,
    pub hash: Seq<u8>,
}

impl View for OmicronZoneFileMetadata {
    type V = MetadataView;

    open spec fn view(&self) -> MetadataView {
        MetadataView {
            file_name: self.file_name@,
            file_size: self.file_size,
            hash: self.hash@,
        }
    }
}

impl ZoneView {
    /// What the manifest tells of the zone file.
    pub open spec fn metadata(self) -> MetadataView {
        MetadataView {
            file_name: self.file_name,
            file_size: self.json_size,
            hash: self.json_hash,
        }
    }
}

/// The zone files of an install dataset, in the order of their names.
#[derive(Debug, PartialEq, Eq)]
pub struct OmicronZoneManifest {
    pub source: OmicronZoneManifestSource,
    pub zones: Vec<OmicronZoneFileMetadata>,
}

/// A zone manifest, and what comes of reading the files that it lists, in the
/// order of their names.
#[derive(Debug, PartialEq, Eq)]
pub struct ZoneManifestArtifactsResult {
    pub manifest: OmicronZoneManifest,
    pub data: Vec<ZoneManifestArtifactResult>,
}

/// What is written to a file.
#[derive(Debug, PartialEq, Eq)]
pub enum FileContents {
    Binary(Vec<u8>),
    Text(String),
}

/// A file to write.
#[derive(Debug, PartialEq, Eq)]
pub struct FileToWrite {
    pub name: String,
    pub contents: FileContents,
}

/// What a `FileContents` stands for.
#[verifier::ext_equal]
pub enum FileContentsView {
    Binary(Seq<u8>),
    Text(Seq<char>),
}

/// What a `FileToWrite` stands for.
#[verifier::ext_equal]
pub struct FileView {
    pub name: Seq<char>,
    pub contents: FileContentsView,
}

impl View for FileContents {
    type V = FileContentsView;

    open spec fn view(&self) -> FileContentsView {
        match self {
            FileContents::Binary(bytes) => FileContentsView::Binary(bytes@),
            FileContents::Text(text) => FileContentsView::Text(text@),
        }
    }
}

impl View for FileToWrite {
    type V = FileView;

    open spec fn view(&self) -> FileView {
        FileView { name: self.name@, contents: self.contents@ }
    }
}

impl ZoneView {
    /// The zone file itself.
    pub open spec fn file(self) -> FileView {
        FileView { name: self.file_name, contents: FileContentsView::Binary(self.contents) }
    }
}

/// The zone files that the manifest lists.
pub open spec fn listed_zones(zones: Map<Seq<char>, ZoneView>) -> Seq<ZoneView> {
    zone_list(zones).filter(|z: ZoneView| z.include_in_json)
}

/// What the manifest tells of the zone files.
pub open spec fn zones_metadata(zones: Map<Seq<char>, ZoneView>) -> Seq<MetadataView> {
    listed_zones(zones).map_values(|z: ZoneView| z.metadata())
}

/// The zone files that are there.
pub open spec fn zone_files(zones: Map<Seq<char>, ZoneView>) -> Seq<FileView> {
    zone_list(zones).filter(|z: ZoneView| z.write_to_disk).map_values(|z: ZoneView| z.file())
}

/// Context for writing out fake zones to install dataset directories.
#[derive(Debug)]
pub struct WriteInstallDatasetContext {
    pub zones: IdOrdMap<ZoneContents>,
    pub mupdate_id: Uuid,
    pub mupdate_override_uuid: Uuid,
    pub write_zone_manifest_to_disk: bool,
}

/// What a `WriteInstallDatasetContext` stands for.
#[verifier::ext_equal]
pub struct ContextView {
    pub zones: Map<Seq<char>, ZoneView>,
    pub mupdate_id: Uuid,
    pub mupdate_override_uuid: Uuid,
    pub write_zone_manifest_to_disk: bool,
}

impl View for WriteInstallDatasetContext {
    type V = ContextView;

    open spec fn view(&self) -> ContextView {
        ContextView {
            zones: zones_in(self.zones),
            mupdate_id: self.mupdate_id,
            mupdate_override_uuid: self.mupdate_override_uuid,
            write_zone_manifest_to_disk: self.write_zone_manifest_to_disk,
        }
    }
}

impl ContextView {
    /// Where the zone manifest comes from.
    pub open spec fn source(self) -> OmicronZoneManifestSource {
        if self.write_zone_manifest_to_disk {
            OmicronZoneManifestSource::Installinator { mupdate_id: self.mupdate_id }
        } else {
            OmicronZoneManifestSource::SledAgent
        }
    }

    /// Whether this is the zone manifest.
    pub open spec fn has_manifest(self, manifest: OmicronZoneManifest) -> bool {
        manifest.source == self.source() && views(manifest.zones@) == zones_metadata(self.zones)
    }

    /// Whether this is what reading the listed zone files in a directory gives.
    pub open spec fn has_data(
        self,
        dir: Seq<char>,
        data: Seq<ZoneManifestArtifactResult>,
    ) -> bool {
        let listed = listed_zones(self.zones);
        &&& data.len() == listed.len()
        &&& forall|i: int| 0 <= i < data.len() ==> listed[i].is_read_as(dir, #[trigger] data[i])
    }

    /// The files that are written, in the order in which they are written.
    pub open spec fn files(self, manifest_json: Seq<char>, override_json: Seq<char>) -> Seq<
        FileView,
    > {
        zone_files(self.zones) + (if self.write_zone_manifest_to_disk {
            seq![
                FileView {
                    name: "zones.json"@,
                    contents: FileContentsView::Text(manifest_json),
                },
            ]
        } else {
            Seq::empty()
        }) + seq![
            FileView {
                name: "mupdate-override.json"@,
                contents: FileContentsView::Text(override_json),
            },
        ]
    }
}

/// The zone files of a basic context.
pub open spec fn basic_zones() -> Map<Seq<char>, ZoneView> {
    Map::empty().insert(
        "zone1.tar.gz"@,
        faithful_zone("zone1.tar.gz"@, seq![0x7au8, 0x6f, 0x6e, 0x65, 0x31]),
    ).insert(
        "zone2.tar.gz"@,
        faithful_zone("zone2.tar.gz"@, seq![0x7au8, 0x6f, 0x6e, 0x65, 0x32]),
    ).insert(
        "zone3.tar.gz"@,
        faithful_zone("zone3.tar.gz"@, seq![0x7au8, 0x6f, 0x6e, 0x65, 0x33]),
    ).insert(
        "zone4.tar.gz"@,
        faithful_zone("zone4.tar.gz"@, seq![0x7au8, 0x6f, 0x6e, 0x65, 0x34]),
    ).insert(
        "zone5.tar.gz"@,
        faithful_zone("zone5.tar.gz"@, seq![0x7au8, 0x6f, 0x6e, 0x65, 0x35]),
    )
}

/// The zone files after a number of them have been made faulty.
pub open spec fn faulty_zones(zones: Map<Seq<char>, ZoneView>) -> Map<Seq<char>, ZoneView> {
    zones.insert(
        "zone2.tar.gz"@,
        ZoneView { json_size: 1024, ..zones["zone2.tar.gz"@] },
    ).insert(
        "zone3.tar.gz"@,
        ZoneView { json_hash: Seq::new(32, |i: int| 0u8), ..zones["zone3.tar.gz"@] },
    ).insert(
        "zone4.tar.gz"@,
        ZoneView { write_to_disk: false, ..zones["zone4.tar.gz"@] },
    ).insert(
        "zone5.tar.gz"@,
        ZoneView { include_in_json: false, ..zones["zone5.tar.gz"@] },
    )
}

proof fn lemma_names_differ()
    ensures
        "zone2.tar.gz"@ != "zone3.tar.gz"@,
        "zone2.tar.gz"@ != "zone4.tar.gz"@,
        "zone2.tar.gz"@ != "zone5.tar.gz"@,
        "zone3.tar.gz"@ != "zone4.tar.gz"@,
        "zone3.tar.gz"@ != "zone5.tar.gz"@,
        "zone4.tar.gz"@ != "zone5.tar.gz"@,
{
    reveal_strlit("zone2.tar.gz");
    reveal_strlit("zone3.tar.gz");
    reveal_strlit("zone4.tar.gz");
    reveal_strlit("zone5.tar.gz");
    assert("zone2.tar.gz"@[4] == '2');
    assert("zone3.tar.gz"@[4] == '3');
    assert("zone4.tar.gz"@[4] == '4');
    assert("zone5.tar.gz"@[4] == '5');
}

proof fn lemma_zone_list(zones: Map<Seq<char>, ZoneView>, list: Seq<ZoneView>)
    requires
        lists_zones(zones, list),
    ensures
        zone_list(zones) == list,
{
    law_one_listing(zones, zone_list(zones), list);
}

fn zones_clone(map: &IdOrdMap<ZoneContents>) -> (r: IdOrdMap<ZoneContents>)
    ensures
        zones_in(r) == zones_in(*map),
{
    let every = zones_iter(map);
    let ghost all = zone_views(every@);
    let mut out = zones_new();
    let mut i: usize = 0;
    while i < every.len()
        invariant
            i <= every.len(),
            all == zone_views(every@),
            lists_zones(zones_in(*map), all),
            forall|name: Seq<char>| #[trigger]
                zones_in(out).contains_key(name) ==> zones_in(*map).contains_pair(
                    name,
                    zones_in(out)[name],
                ),
            forall|k: int| 0 <= k < i ==> zones_in(out).contains_key((#[trigger] all[k]).file_name),
        decreases every.len() - i,
    {
        assert(all[i as int] == every@[i as int]@);
        zones_insert_overwrite(&mut out, every[i].clone());
        i = i + 1;
    }
    proof {
        assert forall|name: Seq<char>| #[trigger]
            zones_in(*map).contains_key(name) implies zones_in(out).contains_key(name) by {
            let k = choose|k: int| 0 <= k < all.len() && (#[trigger] all[k]).file_name == name;
            assert(zones_in(out).contains_key(all[k].file_name));
        }
        assert(zones_in(out) =~= zones_in(*map));
    }
    out
}

impl Clone for WriteInstallDatasetContext {
    fn clone(&self) -> (r: Self)
        ensures
            r@ == self@,
    {
        WriteInstallDatasetContext {
            zones: zones_clone(&self.zones),
            mupdate_id: self.mupdate_id,
            mupdate_override_uuid: self.mupdate_override_uuid,
            write_zone_manifest_to_disk: self.write_zone_manifest_to_disk,
        }
    }
}

impl WriteInstallDatasetContext {
    /// Initializes a new context with a couple of zones and no known errors.
    pub fn new_basic() -> (r: Self)
        ensures
            r@.zones == basic_zones(),
            is_random_uuid(r.mupdate_id),
            is_random_uuid(r.mupdate_override_uuid),
            r.write_zone_manifest_to_disk,
    {
        let mut zones = zones_new();
        // These are the bytes of "zone1", "zone2" and so on.
        zones_insert_overwrite(
            &mut zones,
            ZoneContents::new("zone1.tar.gz", vec![0x7a, 0x6f, 0x6e, 0x65, 0x31].as_slice()),
        );
        zones_insert_overwrite(
            &mut zones,
            ZoneContents::new("zone2.tar.gz", vec![0x7a, 0x6f, 0x6e, 0x65, 0x32].as_slice()),
        );
        zones_insert_overwrite(
            &mut zones,
            ZoneContents::new("zone3.tar.gz", vec![0x7a, 0x6f, 0x6e, 0x65, 0x33].as_slice()),
        );
        zones_insert_overwrite(
            &mut zones,
            ZoneContents::new("zone4.tar.gz", vec![0x7a, 0x6f, 0x6e, 0x65, 0x34].as_slice()),
        );
        zones_insert_overwrite(
            &mut zones,
            ZoneContents::new("zone5.tar.gz", vec![0x7a, 0x6f, 0x6e, 0x65, 0x35].as_slice()),
        );
        assert(zones_in(zones) =~= basic_zones());
        WriteInstallDatasetContext {
            zones,
            mupdate_id: random_uuid(),
            mupdate_override_uuid: random_uuid(),
            write_zone_manifest_to_disk: true,
        }
    }

    /// Makes a number of error cases for testing.
    pub fn make_error_cases(&mut self)
        requires
            old(self)@.zones.contains_key("zone2.tar.gz"@),
            old(self)@.zones.contains_key("zone3.tar.gz"@),
            old(self)@.zones.contains_key("zone4.tar.gz"@),
            old(self)@.zones.contains_key("zone5.tar.gz"@),
        ensures
            final(self)@ == (ContextView { zones: faulty_zones(old(self)@.zones), ..old(self)@ }),
    {
        let ghost before = self@.zones;
        proof {
            lemma_names_differ();
        }
        // zone1.tar.gz is valid.
        // For zone2.tar.gz, change the size.
        if let Some(zone) = zones_remove(&mut self.zones, "zone2.tar.gz") {
            zones_insert_overwrite(&mut self.zones, zone.with_json_size(1024));
        }
        // For zone3.tar.gz, change the hash.
        if let Some(zone) = zones_remove(&mut self.zones, "zone3.tar.gz") {
            let zeros = ArtifactHash([0; 32]);
            assert(zeros@ =~= Seq::new(32, |i: int| 0u8));
            zones_insert_overwrite(&mut self.zones, zone.with_json_hash(zeros));
        }
        // Don't write out zone4 but include it in the JSON.
        if let Some(zone) = zones_remove(&mut self.zones, "zone4.tar.gz") {
            zones_insert_overwrite(&mut self.zones, zone.without_file());
        }
        // Write out zone5 but don't include it in the JSON.
        if let Some(zone) = zones_remove(&mut self.zones, "zone5.tar.gz") {
            zones_insert_overwrite(&mut self.zones, zone.without_listing());
        }
        assert(self@.zones =~= faulty_zones(before));
    }

    /// Set to false to not write out the zone manifest to disk.
    pub fn write_zone_manifest_to_disk(&mut self, write: bool)
        ensures
            final(self)@ == (ContextView { write_zone_manifest_to_disk: write, ..old(self)@ }),
    {
        self.write_zone_manifest_to_disk = write;
    }

    /// Returns the override information for the mupdate.
    pub fn override_info(&self) -> (r: MupdateOverrideInfo)
        ensures
            r.mupdate_uuid == self.mupdate_override_uuid,
            r.hash_ids@.len() == 0,
    {
        MupdateOverrideInfo {
            mupdate_uuid: self.mupdate_override_uuid,
            // The hash IDs are not used for validation, so leave this
            // empty.
            hash_ids: Vec::new(),
        }
    }

    /// Returns the zone manifest.
    pub fn zone_manifest(&self) -> (r: OmicronZoneManifest)
        ensures
            self@.has_manifest(r),
            lists_zones(self@.zones, zone_list(self@.zones)),
    {
        let source = if self.write_zone_manifest_to_disk {
            OmicronZoneManifestSource::Installinator { mupdate_id: self.mupdate_id }
        } else {
            OmicronZoneManifestSource::SledAgent
        };
        let every = zones_iter(&self.zones);
        let ghost all = zone_views(every@);
        let ghost pred = |z: ZoneView| z.include_in_json;
        let ghost meta = |z: ZoneView| z.metadata();
        proof {
            lemma_zone_list(self@.zones, all);
        }
        let mut zones: Vec<OmicronZoneFileMetadata> = Vec::new();
        let mut i: usize = 0;
        while i < every.len()
            invariant
                i <= every.len(),
                all == zone_views(every@),
                pred == (|z: ZoneView| z.include_in_json),
                meta == (|z: ZoneView| z.metadata()),
                views(zones@) == all.take(i as int).filter(pred).map_values(meta),
            decreases every.len() - i,
        {
            let zone = every[i];
            let ghost so_far = views(zones@);
            proof {
                assert(all.take(i + 1) =~= all.take(i as int).push(zone@));
                all.take(i as int).lemma_filter_push(zone@, pred);
            }
            if zone.include_in_json {
                let metadata = OmicronZoneFileMetadata {
                    file_name: zone.file_name.clone(),
                    file_size: zone.json_size,
                    hash: zone.json_hash,
                };
                proof {
                    assert(metadata@ == zone@.metadata());
                    assert(all.take(i as int).filter(pred).push(zone@).map_values(meta)
                        =~= all.take(i as int).filter(pred).map_values(meta).push(metadata@));
                }
                zones.push(metadata);
                assert(views(zones@) =~= so_far.push(metadata@));
            }
            i = i + 1;
        }
        assert(all.take(i as int) =~= all);
        OmicronZoneManifest { source, zones }
    }

    /// Returns the expected result of writing the zone manifest, taking into
    /// account mismatches, etc.
    pub fn expected_result(&self, dir: &str) -> (r: ZoneManifestArtifactsResult)
        ensures
            self@.has_manifest(r.manifest),
            self@.has_data(dir@, r.data@),
            lists_zones(self@.zones, zone_list(self@.zones)),
    {
        let manifest = self.zone_manifest();
        let every = zones_iter(&self.zones);
        let ghost all = zone_views(every@);
        let ghost pred = |z: ZoneView| z.include_in_json;
        proof {
            lemma_zone_list(self@.zones, all);
        }
        let mut data: Vec<ZoneManifestArtifactResult> = Vec::new();
        let mut i: usize = 0;
        while i < every.len()
            invariant
                i <= every.len(),
                all == zone_views(every@),
                pred == (|z: ZoneView| z.include_in_json),
                data@.len() == all.take(i as int).filter(pred).len(),
                forall|j: int|
                    0 <= j < data@.len() ==> all.take(i as int).filter(pred)[j].is_read_as(
                        dir@,
                        #[trigger] data@[j],
                    ),
            decreases every.len() - i,
        {
            let zone = every[i];
            proof {
                assert(all.take(i + 1) =~= all.take(i as int).push(zone@));
                all.take(i as int).lemma_filter_push(zone@, pred);
            }
            // Currently, zone files not present in the JSON aren't
            // reported at all.
            if zone.include_in_json {
                data.push(zone.expected_result(dir));
            }
            i = i + 1;
        }
        assert(all.take(i as int) =~= all);
        ZoneManifestArtifactsResult { manifest, data }
    }

    /// The files to write to a directory, in the order in which they are to be
    /// written, where the manifest and the override information are as given.
    pub fn write_to(&self, manifest_json: String, override_json: String) -> (r: Vec<FileToWrite>)
        ensures
            views(r@) == self@.files(manifest_json@, override_json@),
            lists_zones(self@.zones, zone_list(self@.zones)),
    {
        let every = zones_iter(&self.zones);
        let ghost all = zone_views(every@);
        let ghost pred = |z: ZoneView| z.write_to_disk;
        let ghost file_of = |z: ZoneView| z.file();
        proof {
            lemma_zone_list(self@.zones, all);
        }
        let mut files: Vec<FileToWrite> = Vec::new();
        let mut i: usize = 0;
        while i < every.len()
            invariant
                i <= every.len(),
                all == zone_views(every@),
                pred == (|z: ZoneView| z.write_to_disk),
                file_of == (|z: ZoneView| z.file()),
                views(files@) == all.take(i as int).filter(pred).map_values(file_of),
            decreases every.len() - i,
        {
            let zone = every[i];
            let ghost so_far = views(files@);
            proof {
                assert(all.take(i + 1) =~= all.take(i as int).push(zone@));
                all.take(i as int).lemma_filter_push(zone@, pred);
            }
            if zone.write_to_disk {
                let file = FileToWrite {
                    name: zone.file_name.clone(),
                    contents: FileContents::Binary(slice_to_vec(zone.contents.as_slice())),
                };
                proof {
                    assert(file@ == zone@.file());
                    assert(all.take(i as int).filter(pred).push(zone@).map_values(file_of)
                        =~= all.take(i as int).filter(pred).map_values(file_of).push(file@));
                }
                files.push(file);
                assert(views(files@) =~= so_far.push(file@));
            }
            i = i + 1;
        }
        assert(all.take(i as int) =~= all);
        if self.write_zone_manifest_to_disk {
            files.push(
                FileToWrite {
                    name: ZONE_MANIFEST_FILE_NAME.to_owned(),
                    contents: FileContents::Text(manifest_json),
                },
            );
        }
        files.push(
            FileToWrite {
                name: MUPDATE_OVERRIDE_FILE_NAME.to_owned(),
                contents: FileContents::Text(override_json),
            },
        );
        assert(views(files@) =~= self@.files(manifest_json@, override_json@));
        files
    }
}

/// A zone file that is there and as the manifest says reads as valid, and as
/// nothing else.
pub proof fn law_faithful_zone_is_valid(
    file_name: Seq<char>,
    contents: Seq<u8>,
    status: ArtifactReadResult,
)
    requires
        contents.len() < MAX_CONTENTS,
    ensures
        faithful_zone(file_name, contents).reads_as(status) <==> status is Valid,
{
}

/// The names of the files that a manifest tells of.
pub open spec fn metadata_names(list: Seq<MetadataView>) -> Seq<Seq<char>> {
    list.map_values(|m: MetadataView| m.file_name)
}

/// The names of files.
pub open spec fn file_names(list: Seq<FileView>) -> Seq<Seq<char>> {
    list.map_values(|f: FileView| f.name)
}

/// The zones that the manifest lists are the zone files that are there, where
/// no zone is there unlisted or listed without being there.
pub proof fn law_manifest_matches_files(
    zones: Map<Seq<char>, ZoneView>,
    list: Seq<ZoneView>,
)
    requires
        lists_zones(zones, list),
        forall|name: Seq<char>| #[trigger]
            zones.contains_key(name) ==> zones[name].include_in_json == zones[name].write_to_disk,
    ensures
        metadata_names(zones_metadata(zones)) == file_names(zone_files(zones)),
{
    let (listed, there) = (|z: ZoneView| z.include_in_json, |z: ZoneView| z.write_to_disk);
    lemma_zone_list(zones, list);
    assert forall|i: int| 0 <= i < list.len() implies listed(#[trigger] list[i]) == there(
        list[i],
    ) by {
        assert(zones.contains_key(list[i].file_name));
    }
    lemma_same_filter(list, listed, there);
    assert(metadata_names(zones_metadata(zones)) =~= file_names(zone_files(zones)));
}

proof fn lemma_same_filter<T>(list: Seq<T>, p: spec_fn(T) -> bool, q: spec_fn(T) -> bool)
    requires
        forall|i: int| 0 <= i < list.len() ==> p(#[trigger] list[i]) == q(list[i]),
    ensures
        list.filter(p) == list.filter(q),
    decreases list.len(),
{
    reveal(Seq::filter);
    if list.len() > 0 {
        let init = list.drop_last();
        assert forall|i: int| 0 <= i < init.len() implies p(#[trigger] init[i]) == q(init[i]) by {
            assert(init[i] == list[i]);
        }
        lemma_same_filter(init, p, q);
        assert(p(list[list.len() - 1]) == q(list[list.len() - 1]));
    }
}

/// Making error cases gives one of each kind, and leaves the other zones alone:
/// a wrong size, a wrong hash, a listed zone that is not there, and one that is
/// there but not listed.
pub proof fn law_error_cases(zones: Map<Seq<char>, ZoneView>, name: Seq<char>)
    requires
        zones.contains_key("zone2.tar.gz"@),
        zones.contains_key("zone3.tar.gz"@),
        zones.contains_key("zone4.tar.gz"@),
        zones.contains_key("zone5.tar.gz"@),
        zones.contains_key(name),
    ensures
        faulty_zones(zones).contains_key(name),
        faulty_zones(zones)[name].contents == zones[name].contents,
        name == "zone2.tar.gz"@ && zones[name].contents.len() != 1024
            ==> !faulty_zones(zones)[name].is_as_listed(),
        name == "zone3.tar.gz"@ && sha256_digest(zones[name].contents) != Seq::new(
            32,
            |i: int| 0u8,
        ) ==> !faulty_zones(zones)[name].is_as_listed(),
        name == "zone4.tar.gz"@ ==> !faulty_zones(zones)[name].write_to_disk,
        name == "zone5.tar.gz"@ ==> !faulty_zones(zones)[name].include_in_json,
        name != "zone2.tar.gz"@ && name != "zone3.tar.gz"@ && name != "zone4.tar.gz"@ && name
            != "zone5.tar.gz"@ ==> faulty_zones(zones)[name] == zones[name],
{
    lemma_names_differ();
}

// ---
// Errors
// ---

/// The type of a file that is not a directory.
#[derive(Copy, Clone, Debug, PartialEq, Eq, Structural)]
pub enum FileType {
    File,
    Symlink,
    Other,
}

/// An error in reading what describes an install dataset.
#[derive(Debug, PartialEq, Eq)]
pub enum InstallMetadataReadError {
    /// The metadata of the dataset's directory could not be read.
    DatasetDirMetadata { dataset_dir: String, error: NotFound },
    /// The dataset is not a directory.
    DatasetNotDirectory { dataset_dir: String, file_type: FileType },
    /// A file could not be parsed.
    Deserialize { path: String, contents: String, error: String },
}

/// The error that the directory of a dataset is missing.
pub fn dataset_missing_error(dir_path: &str) -> (r: InstallMetadataReadError)
    ensures
        r matches InstallMetadataReadError::DatasetDirMetadata { dataset_dir, error }
            && dataset_dir@ == dir_path@ && error.message is None,
{
    InstallMetadataReadError::DatasetDirMetadata {
        dataset_dir: dir_path.to_owned(),
        error: NotFound { message: None },
    }
}

/// The error that a dataset is no directory, but a file of the given type.
pub fn dataset_not_dir_error(dir_path: &str, file_type: FileType) -> (r: InstallMetadataReadError)
    ensures
        r matches InstallMetadataReadError::DatasetNotDirectory { dataset_dir, file_type: found }
            && dataset_dir@ == dir_path@ && found == file_type,
{
    InstallMetadataReadError::DatasetNotDirectory { dataset_dir: dir_path.to_owned(), file_type }
}

/// The error that the contents of a file in a directory could not be parsed.
pub fn deserialize_error(
    dir_path: &str,
    json_path: &str,
    contents: &str,
    parse_error: &str,
) -> (r: InstallMetadataReadError)
    ensures
        r matches InstallMetadataReadError::Deserialize { path, contents: read, error }
            && is_joined(dir_path@, json_path@, path@) && read@ == contents@ && error@
            == parse_error@,
{
    InstallMetadataReadError::Deserialize {
        path: path_join(dir_path, json_path),
        contents: contents.to_owned(),
        error: parse_error.to_owned(),
    }
}

} // verus!
