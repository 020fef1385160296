//! What holds of zone images and of what is written for them.

use vstd::prelude::*;

use crate::diff_laws::lemma_filter_split;
use crate::sort::views;
use crate::text::{text_before, uuid_text, Uuid};
use crate::text_laws::law_ids_differ_in_text;
use crate::zone_images::{
    basic_zones, faithful_zone, faulty_zones, install_dataset_path, is_absolute, is_joined,
    is_taken, law_one_listing, listed_zones, lists_zones, sha256_digest, zone_files, zone_list,
    zones_in, zones_metadata, ArtifactReadResult, ContextView, FileContents, FileContentsView,
    FileToWrite, FileView, MetadataView, OmicronZoneFileMetadata, OmicronZoneManifest,
    OmicronZoneManifestSource, OverridePaths, WriteInstallDatasetContext, ZoneContents,
    ZoneManifestArtifactResult, ZoneView, BOOT_UUID, MAX_CONTENTS, MUPDATE_OVERRIDE_FILE_NAME,
    NON_BOOT_2_UUID, NON_BOOT_3_UUID, NON_BOOT_UUID, ZONE_MANIFEST_FILE_NAME,
};

verus! {

// ---
// Paths
// ---

/// The paths of an install dataset lie on its pool, and the two files that describe it
/// lie in it.
pub proof fn law_paths_of_a_dataset(paths: OverridePaths, uuid: Uuid)
    requires
        paths.are_of(uuid),
    ensures
        paths.install_dataset@ == "pool/int/"@ + uuid_text(uuid) + "/install"@,
        paths.zones_json@ == paths.install_dataset@ + "/"@ + "zones.json"@,
        paths.mupdate_override_json@ == paths.install_dataset@ + "/"@ + "mupdate-override.json"@,
        ZONE_MANIFEST_FILE_NAME@ == "zones.json"@,
        MUPDATE_OVERRIDE_FILE_NAME@ == "mupdate-override.json"@,
{
}

/// Datasets on different pools have different paths.
pub proof fn law_datasets_have_their_own_paths(a: Uuid, b: Uuid)
    requires
        install_dataset_path(a) == install_dataset_path(b),
    ensures
        a == b,
{
    let (p, q) = (install_dataset_path(a), install_dataset_path(b));
    let n = "pool/int/"@.len() as int;
    assert(p.subrange(n, n + 36) =~= uuid_text(a));
    assert(q.subrange(n, n + 36) =~= uuid_text(b));
    law_ids_differ_in_text(a, b);
}

/// The pools of the boot disk and of the other disks are different ones.
pub proof fn law_disks_differ()
    ensures
        BOOT_UUID == 0xd3e7205d_4efe_493b_ac5e_9175584907cd,
        NON_BOOT_UUID == 0x4854189f_b290_47cd_b076_374d0e1748ec,
        NON_BOOT_2_UUID == 0x72201e1e_9fee_4231_81cd_4e2d514cb632,
        NON_BOOT_3_UUID == 0xd0d04947_93c5_40fd_97ab_4648b8cc28d6,
        MAX_CONTENTS == 0x2000_0000_0000_0000,
{
}

/// A path that starts at the root stays as it is under any directory. Another one comes
/// after the directory, with one slash between.
pub proof fn law_joined_paths(dir: Seq<char>, path: Seq<char>, joined: Seq<char>)
    requires
        is_joined(dir, path, joined),
    ensures
        is_absolute(path) <==> path.len() > 0 && path[0] == '/',
        is_absolute(path) ==> joined == path,
        dir.len() == 0 ==> joined == path,
        path.len() > 0 && path[0] != '/' && dir.len() > 0 && dir.last() == '/' ==> joined == dir
            + path,
        path.len() > 0 && path[0] != '/' && dir.len() > 0 && dir.last() != '/' ==> joined == dir
            + "/"@ + path,
{
}

// ---
// Reading zone files
// ---

/// A zone file reads as an error just where it is not there, as valid just where it is
/// there with the size and the hash that are listed, and otherwise as a mismatch that
/// tells the size and the hash that it has.
pub proof fn law_how_a_zone_file_reads(
    zone: ZoneView,
    hash: Seq<u8>,
    status: ArtifactReadResult,
)
    requires
        zone.reads_with(hash, status),
    ensures
        status is Error <==> !zone.write_to_disk,
        status is Error ==> status->Error_0.message is Some && status->Error_0.message->0@
            == "file not found"@,
        status is Valid <==> zone.write_to_disk && zone.json_size == zone.contents.len()
            && zone.json_hash == hash,
        status is Mismatch <==> zone.write_to_disk && (zone.json_size != zone.contents.len()
            || zone.json_hash != hash),
        status is Mismatch ==> status->actual_size == zone.contents.len() && status->actual_hash@
            == hash,
{
}

/// What a file reads as goes by its own digest, and tells its name, its path in the
/// directory, and what is listed of it.
pub proof fn law_what_is_told_of_a_zone_file(
    zone: ZoneView,
    dir: Seq<char>,
    result: ZoneManifestArtifactResult,
)
    requires
        zone.is_read_as(dir, result),
    ensures
        result.file_name@ == zone.file_name,
        is_joined(dir, zone.file_name, result.path@),
        result.expected_size == zone.json_size,
        result.expected_hash@ == zone.json_hash,
        zone.reads_with(sha256_digest(zone.contents), result.status),
        zone.is_as_listed() <==> zone.json_size == zone.contents.len() && zone.json_hash
            == sha256_digest(zone.contents),
        zone.write_to_disk ==> (result.status is Valid <==> zone.is_as_listed()),
{
}

/// A file that is made faithful is there, and is listed with its own size and digest.
pub proof fn law_faithful_zone_is_listed_as_it_is(file_name: Seq<char>, contents: Seq<u8>)
    requires
        contents.len() < MAX_CONTENTS,
    ensures
        ({
            let zone = faithful_zone(file_name, contents);
            &&& zone.file_name == file_name
            &&& zone.contents == contents
            &&& zone.json_size == contents.len()
            &&& zone.json_hash == sha256_digest(contents)
            &&& zone.write_to_disk
            &&& zone.include_in_json
        }),
{
}

// ---
// Install datasets
// ---

proof fn lemma_listing(zones: Map<Seq<char>, ZoneView>, list: Seq<ZoneView>)
    requires
        lists_zones(zones, list),
    ensures
        zone_list(zones) == list,
{
    law_one_listing(zones, zone_list(zones), list);
}

proof fn lemma_listed_members(
    zones: Map<Seq<char>, ZoneView>,
    list: Seq<ZoneView>,
    name: Seq<char>,
)
    requires
        lists_zones(zones, list),
        zones.contains_key(name),
    ensures
        list.contains(zones[name]),
        zones[name].file_name == name,
{
    let i = choose|i: int| 0 <= i < list.len() && (#[trigger] list[i]).file_name == name;
    assert(zones.contains_pair(list[i].file_name, list[i]));
}

/// The manifest lists just those zone files that are to be listed, each by its name and
/// with the size and the hash to list, whether or not it is there.
pub proof fn law_what_the_manifest_lists(
    zones: Map<Seq<char>, ZoneView>,
    list: Seq<ZoneView>,
    m: MetadataView,
)
    requires
        lists_zones(zones, list),
    ensures
        zones_metadata(zones).contains(m) <==> {
            &&& zones.contains_key(m.file_name)
            &&& zones[m.file_name].include_in_json
            &&& zones[m.file_name].json_size == m.file_size
            &&& zones[m.file_name].json_hash == m.hash
        },
{
    lemma_listing(zones, list);
    let pred = |z: ZoneView| z.include_in_json;
    let kept = listed_zones(zones);
    let all = zones_metadata(zones);
    if all.contains(m) {
        let i = choose|i: int| 0 <= i < all.len() && all[i] == m;
        let z = kept[i];
        lemma_filter_split(list, pred, z);
        assert(kept.contains(z));
        let k = choose|k: int| 0 <= k < list.len() && list[k] == z;
        assert(zones.contains_pair(list[k].file_name, list[k]));
    }
    if zones.contains_key(m.file_name) && zones[m.file_name].include_in_json
        && zones[m.file_name].json_size == m.file_size && zones[m.file_name].json_hash == m.hash {
        let z = zones[m.file_name];
        lemma_listed_members(zones, list, m.file_name);
        lemma_filter_split(list, pred, z);
        let i = choose|i: int| 0 <= i < kept.len() && kept[i] == z;
        assert(all[i] =~= m);
    }
}

/// Just those zone files are written that are to be there, each under its name and with
/// its contents, whether or not it is listed.
pub proof fn law_which_zone_files_are_written(
    zones: Map<Seq<char>, ZoneView>,
    list: Seq<ZoneView>,
    name: Seq<char>,
    contents: Seq<u8>,
)
    requires
        lists_zones(zones, list),
    ensures
        zone_files(zones).contains(
            (FileView { name, contents: FileContentsView::Binary(contents) }),
        ) <==> {
            &&& zones.contains_key(name)
            &&& zones[name].write_to_disk
            &&& zones[name].contents == contents
        },
{
    lemma_listing(zones, list);
    let pred = |z: ZoneView| z.write_to_disk;
    let kept = list.filter(pred);
    let all = zone_files(zones);
    let file = FileView { name, contents: FileContentsView::Binary(contents) };
    if all.contains(file) {
        let i = choose|i: int| 0 <= i < all.len() && all[i] == file;
        let z = kept[i];
        lemma_filter_split(list, pred, z);
        assert(kept.contains(z));
        let k = choose|k: int| 0 <= k < list.len() && list[k] == z;
        assert(zones.contains_pair(list[k].file_name, list[k]));
    }
    if zones.contains_key(name) && zones[name].write_to_disk && zones[name].contents == contents {
        let z = zones[name];
        lemma_listed_members(zones, list, name);
        lemma_filter_split(list, pred, z);
        let i = choose|i: int| 0 <= i < kept.len() && kept[i] == z;
        assert(all[i] =~= file);
    }
}

/// The zone files are written first, then the manifest where it is to be written, and
/// last what tells of the override.
pub proof fn law_order_of_what_is_written(
    context: ContextView,
    manifest_json: Seq<char>,
    override_json: Seq<char>,
)
    ensures
        ({
            let files = context.files(manifest_json, override_json);
            let n = zone_files(context.zones).len() as int;
            &&& files.take(n) == zone_files(context.zones)
            &&& files.last() == (FileView {
                name: "mupdate-override.json"@,
                contents: FileContentsView::Text(override_json),
            })
            &&& context.write_zone_manifest_to_disk ==> files.len() == n + 2 && files[n] == (
            FileView { name: "zones.json"@, contents: FileContentsView::Text(manifest_json) })
            &&& !context.write_zone_manifest_to_disk ==> files.len() == n + 1
        }),
{
    let files = context.files(manifest_json, override_json);
    let n = zone_files(context.zones).len() as int;
    assert(files.take(n) =~= zone_files(context.zones));
}

/// The manifest comes from the installinator, with the id of the update, where it is
/// written, and otherwise from the sled agent.
pub proof fn law_source_of_the_manifest(context: ContextView, manifest: OmicronZoneManifest)
    requires
        context.has_manifest(manifest),
    ensures
        context.write_zone_manifest_to_disk ==> manifest.source == (
        OmicronZoneManifestSource::Installinator { mupdate_id: context.mupdate_id }),
        !context.write_zone_manifest_to_disk ==> manifest.source
            == OmicronZoneManifestSource::SledAgent,
        views(manifest.zones@) == zones_metadata(context.zones),
{
}

/// What is read goes with what is listed: entry by entry, the name, the size and the
/// hash that are expected are those of the manifest.
pub proof fn law_data_go_with_the_manifest(
    context: ContextView,
    manifest: OmicronZoneManifest,
    dir: Seq<char>,
    data: Seq<ZoneManifestArtifactResult>,
    i: int,
)
    requires
        context.has_manifest(manifest),
        context.has_data(dir, data),
    ensures
        data.len() == manifest.zones@.len(),
        0 <= i < data.len() ==> {
            &&& data[i].file_name@ == manifest.zones@[i]@.file_name
            &&& data[i].expected_size == manifest.zones@[i]@.file_size
            &&& data[i].expected_hash@ == manifest.zones@[i]@.hash
        },
{
    let told = views(manifest.zones@);
    assert(told.len() == manifest.zones@.len());
    if 0 <= i < data.len() {
        let listed = listed_zones(context.zones);
        assert(listed[i].is_read_as(dir, data[i]));
        assert(told[i] == listed[i].metadata());
    }
}

/// A basic context has five zone files, each there and listed as it is.
pub proof fn law_basic_zone_files(name: Seq<char>)
    ensures
        basic_zones().contains_key(name) <==> name == "zone1.tar.gz"@ || name == "zone2.tar.gz"@
            || name == "zone3.tar.gz"@ || name == "zone4.tar.gz"@ || name == "zone5.tar.gz"@,
        basic_zones().contains_key(name) ==> {
            let zone = basic_zones()[name];
            &&& zone == faithful_zone(name, zone.contents)
            &&& zone.contents.len() == 5
            &&& zone.contents.take(4) == seq![0x7au8, 0x6f, 0x6e, 0x65]
        },
        basic_zones()["zone1.tar.gz"@].contents[4] == 0x31,
        basic_zones()["zone2.tar.gz"@].contents[4] == 0x32,
        basic_zones()["zone3.tar.gz"@].contents[4] == 0x33,
        basic_zones()["zone4.tar.gz"@].contents[4] == 0x34,
        basic_zones()["zone5.tar.gz"@].contents[4] == 0x35,
{
    reveal_strlit("zone1.tar.gz");
    reveal_strlit("zone2.tar.gz");
    reveal_strlit("zone3.tar.gz");
    reveal_strlit("zone4.tar.gz");
    reveal_strlit("zone5.tar.gz");
    assert("zone1.tar.gz"@[4] == '1');
    assert("zone2.tar.gz"@[4] == '2');
    assert("zone3.tar.gz"@[4] == '3');
    assert("zone4.tar.gz"@[4] == '4');
    assert("zone5.tar.gz"@[4] == '5');
    if basic_zones().contains_key(name) {
        assert(basic_zones()[name].contents.take(4) =~= seq![0x7au8, 0x6f, 0x6e, 0x65]);
    }
}

/// Each error case changes one thing of one zone file, and nothing else.
pub proof fn law_error_cases_change_one_thing(zones: Map<Seq<char>, ZoneView>)
    ensures
        ({
            let faulty = faulty_zones(zones);
            let (b, c) = ("zone2.tar.gz"@, "zone3.tar.gz"@);
            let (d, e) = ("zone4.tar.gz"@, "zone5.tar.gz"@);
            &&& faulty[b] == (ZoneView { json_size: 1024, ..zones[b] })
            &&& faulty[c] == (ZoneView { json_hash: faulty[c].json_hash, ..zones[c] })
            &&& faulty[c].json_hash.len() == 32
            &&& forall|i: int| 0 <= i < 32 ==> #[trigger] faulty[c].json_hash[i] == 0
            &&& faulty[d] == (ZoneView { write_to_disk: false, ..zones[d] })
            &&& faulty[e] == (ZoneView { include_in_json: false, ..zones[e] })
        }),
{
    reveal_strlit("zone2.tar.gz");
    reveal_strlit("zone3.tar.gz");
    reveal_strlit("zone4.tar.gz");
    reveal_strlit("zone5.tar.gz");
    assert("zone2.tar.gz"@[4] == '2');
    assert("zone3.tar.gz"@[4] == '3');
    assert("zone4.tar.gz"@[4] == '4');
    assert("zone5.tar.gz"@[4] == '5');
}

/// What is taken out of a collection is the file with the name that was asked for, and
/// nothing where there is none.
pub proof fn law_what_is_taken_out(
    zones: Map<Seq<char>, ZoneView>,
    name: Seq<char>,
    taken: Option<ZoneContents>,
)
    requires
        is_taken(zones, name, taken),
    ensures
        taken is Some <==> zones.contains_key(name),
        taken is Some ==> taken->0@ == zones[name] && taken->0@.file_name == name,
{
}

/// What is written, and what is listed, stands for what its fields hold.
pub proof fn law_files_stand_for_themselves(
    metadata: OmicronZoneFileMetadata,
    contents: FileContents,
    file: FileToWrite,
    context: WriteInstallDatasetContext,
)
    ensures
        metadata@.file_name == metadata.file_name@,
        metadata@.file_size == metadata.file_size,
        metadata@.hash == metadata.hash.0@,
        match contents {
            FileContents::Binary(bytes) => contents@ == FileContentsView::Binary(bytes@),
            FileContents::Text(text) => contents@ == FileContentsView::Text(text@),
        },
        file@.name == file.name@,
        file@.contents == file.contents@,
        context@.zones == zones_in(context.zones),
        context@.mupdate_id == context.mupdate_id,
        context@.mupdate_override_uuid == context.mupdate_override_uuid,
        context@.write_zone_manifest_to_disk == context.write_zone_manifest_to_disk,
{
}

/// The zone files of a collection are listed by their names: each under its own, each
/// once, and in the order of the names.
pub proof fn law_zone_files_are_listed_by_name(
    zones: Map<Seq<char>, ZoneView>,
    list: Seq<ZoneView>,
    i: int,
    j: int,
    name: Seq<char>,
)
    requires
        lists_zones(zones, list),
    ensures
        0 <= i < j < list.len() ==> text_before(list[i].file_name, list[j].file_name),
        0 <= i < list.len() ==> zones.contains_key(list[i].file_name)
            && zones[list[i].file_name] == list[i],
        zones.contains_key(name) ==> list.contains(zones[name]),
{
    if 0 <= i < list.len() {
        assert(zones.contains_pair(list[i].file_name, list[i]));
    }
    if zones.contains_key(name) {
        lemma_listed_members(zones, list, name);
    }
}

} // verus!
