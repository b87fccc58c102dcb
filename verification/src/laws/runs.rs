//! How a store is run, found, described and stopped.

use crate::image::{
    image_model, image_name, labelled_sha, segment_override, Boomerang, Mount, BOOMERANG_PORT, NAME,
    READY_MESSAGE, TAG,
};
use crate::json::{json_of, Json, JsonNumber};
use crate::manager::{
    countable, local_uri, memory_bytes, runs, start_step, stop_step, store_description, store_logs,
    store_uri, user_text, BoomerangStoreManager, ContainerSpec, StartAction, StartEvent, StopAction,
    StopEvent,
};
use crate::number::decimal;
use crate::text::{optional_text, trimmed, utf8_lossy};
use vstd::prelude::*;

verus! {

/// A store is found where its setting says, or on a port of this host: the one given, or 50051.
pub proof fn law_store_is_found_where_set(setting: Seq<char>, host_port: u16)
    ensures
        store_uri(Some(setting)) == setting,
        store_uri(None) == "http://127.0.0.1:50051"@,
        local_uri(host_port) == "http://127.0.0.1:"@ + decimal(host_port as nat),
{
    reveal_with_fuel(decimal, 6);
    reveal_strlit("http://127.0.0.1:");
    reveal_strlit("http://127.0.0.1:50051");
    assert(decimal(50051) =~= seq!['5', '0', '0', '5', '1']);
    assert(store_uri(None) =~= "http://127.0.0.1:50051"@);
}

/// The image is `boomerang:local`; it serves on port 50051 and says `Boomerang started` when it is
/// up.
pub proof fn law_image_is_the_local_one()
    ensures
        NAME@ == "boomerang"@,
        TAG@ == "local"@,
        READY_MESSAGE@ == "Boomerang started"@,
        BOOMERANG_PORT == 50051,
{
}

/// The size of a segment is set exactly where the setting is there and not empty, and to that
/// setting.
pub proof fn law_segment_size_is_the_setting(setting: Seq<char>)
    ensures
        segment_override(None) is None,
        setting.len() == 0 ==> segment_override(Some(setting)) is None,
        setting.len() > 0 ==> segment_override(Some(setting)) == Some(setting),
{
}

/// The image runs with its data directory, the given durability and its port in the environment,
/// and with the segment size where one is set; it mounts the given directory of the host, or a
/// volume without a name, as its data directory, and nothing else.
pub proof fn law_image_runs_as_asked(
    data_dir: Option<String>,
    durability: Seq<char>,
    segment_setting: Option<String>,
    image: Boomerang,
)
    requires
        image@ == image_model(optional_text(data_dir), durability, optional_text(segment_setting)),
    ensures
        image.env_vars@.len() == (if segment_setting is Some && segment_setting->0@.len() > 0 {
            4int
        } else {
            3
        }),
        image.env_vars@[0].0@ == "BOOMERANG_DATA_DIR"@,
        image.env_vars@[0].1@ == "/data"@,
        image.env_vars@[1].0@ == "BOOMERANG_DURABILITY"@,
        image.env_vars@[1].1@ == durability,
        image.env_vars@[2].0@ == "GRPC_PORT"@,
        image.env_vars@[2].1@ == "50051"@,
        segment_setting matches Some(bytes) ==> (bytes@.len() > 0 ==> {
            &&& image.env_vars@[3].0@ == "BOOMERANG_SEGMENT_MAX_BYTES"@
            &&& image.env_vars@[3].1@ == bytes@
        }),
        image.mounts@.len() == 1,
        match image.mounts@[0] {
            Mount::Bind { source, target } => {
                &&& data_dir matches Some(path) && source@ == path@
                &&& target@ == "/data"@
            },
            Mount::Volume { name, target } => {
                &&& data_dir is None
                &&& name@ == ""@
                &&& target@ == "/data"@
            },
        },
{
    let model = image_model(optional_text(data_dir), durability, optional_text(segment_setting));
    assert(image@.env_vars.len() == image.env_vars@.len());
    assert(forall|i: int|
        0 <= i < image.env_vars@.len() ==> #[trigger] model.env_vars[i] == (
            image.env_vars@[i].0@,
            image.env_vars@[i].1@,
        ));
    assert(model.env_vars[0].0 == "BOOMERANG_DATA_DIR"@);
    assert(model.env_vars[1].0 == "BOOMERANG_DURABILITY"@);
    assert(model.env_vars[2].0 == "GRPC_PORT"@);
    if segment_setting is Some && segment_setting->0@.len() > 0 {
        assert(model.env_vars[3].0 == "BOOMERANG_SEGMENT_MAX_BYTES"@);
    }
    assert(image@.mounts.len() == image.mounts@.len());
    assert(model.mounts[0] == image.mounts@[0]@);
}

/// A container runs the image with the store's durability, on the given mount and with the given
/// segment size. On a directory of the host it runs as the owner of this process, else as the image
/// says. It may open 1048576 files, and it has the platform and the memory limit of the store, where
/// the store has them.
pub proof fn law_container_runs_as_asked(
    manager: BoomerangStoreManager,
    mount_path: Option<String>,
    owner: Option<(u32, u32)>,
    segment_setting: Option<String>,
    container: ContainerSpec,
)
    requires
        runs(container, manager, mount_path, owner, segment_setting),
    ensures
        container.image@ == image_model(
            optional_text(mount_path),
            manager.durability@,
            optional_text(segment_setting),
        ),
        container.user is Some <==> mount_path is Some && owner is Some,
        container.user matches Some(user) ==> {
            let (uid, gid) = owner->0;
            user@ == decimal(uid as nat) + ":"@ + decimal(gid as nat)
        },
        container.open_files == 1_048_576,
        container.platform is Some <==> manager.docker_platform is Some,
        container.platform matches Some(platform) ==> platform@ == manager.docker_platform->0@,
        container.memory_bytes is Some <==> manager.memory_limit_mb is Some,
        container.memory_bytes matches Some(bytes) ==> {
            let asked = manager.memory_limit_mb->0 * 1024 * 1024;
            &&& asked <= i64::MAX ==> bytes == asked
            &&& i64::MAX < asked <= u64::MAX ==> bytes == asked - 0x1_0000_0000_0000_0000
        },
{
}

/// A store can be started with every memory limit whose bytes fit in 64 bits, and without one.
pub proof fn law_memory_limits_can_be_counted(limit_mb: u64)
    ensures
        countable(None),
        countable(Some(limit_mb)) <==> limit_mb * 0x10_0000 <= u64::MAX,
{
}

/// A memory limit is set exactly where one was given, and two limits that can be counted are never
/// the same number of bytes.
pub proof fn law_memory_limits_stay_apart(a: u64, b: u64)
    requires
        a * 1024 * 1024 <= u64::MAX,
        b * 1024 * 1024 <= u64::MAX,
    ensures
        memory_bytes(None) is None,
        memory_bytes(Some(a)) is Some,
        memory_bytes(Some(a)) == memory_bytes(Some(b)) ==> a == b,
{
}

/// A start does nothing for a store that someone else runs. For others it sets up the data
/// directory, starts the container, takes over its id and its address, and waits up to 60 seconds
/// for an answer at that address; then it is done. Nothing else of the store changes.
pub proof fn law_start_goes_step_by_step(
    before: BoomerangStoreManager,
    event: StartEvent,
    after: BoomerangStoreManager,
    action: StartAction,
)
    requires
        start_step(before, event, after, action),
    ensures
        after.use_docker == before.use_docker,
        after.data_dir == before.data_dir,
        after.memory_limit_mb == before.memory_limit_mb,
        after.docker_platform == before.docker_platform,
        after.store_name == before.store_name,
        after.durability == before.durability,
        !(event is ContainerStarted) ==> after == before,
        event is Begin && before.use_docker ==> action is SetUpDataDir,
        event is Begin && !before.use_docker ==> action is Done,
        event matches StartEvent::DataDirReady { mount_path, owner, segment_setting } ==> (
        action matches StartAction::StartContainer(container) && runs(
            container,
            before,
            mount_path,
            owner,
            segment_setting,
        )),
        event matches StartEvent::ContainerStarted { id, host_port } ==> (
        action matches StartAction::AwaitReady(check) && {
            &&& after.container == Some(id)
            &&& after.uri@ == "http://127.0.0.1:"@ + decimal(host_port as nat)
            &&& check.store_name == before.store_name
            &&& check.uri@ == after.uri@
            &&& check.timeout_secs == 60
        }),
        event is Ready ==> action is Done,
{
}

/// A stop gives up the container, stops it where there is one, then cleans up the data directory,
/// and then is done. Nothing else of the store changes.
pub proof fn law_stop_goes_step_by_step(
    before: BoomerangStoreManager,
    event: StopEvent,
    after: BoomerangStoreManager,
    action: StopAction,
)
    requires
        stop_step(before, event, after, action),
    ensures
        after.uri == before.uri,
        after.use_docker == before.use_docker,
        after.data_dir == before.data_dir,
        after.memory_limit_mb == before.memory_limit_mb,
        after.docker_platform == before.docker_platform,
        after.store_name == before.store_name,
        after.durability == before.durability,
        event is Begin ==> after.container is None,
        !(event is Begin) ==> after.container == before.container,
        event is Begin ==> (before.container matches Some(id) ==> action
            == StopAction::StopContainer(id)),
        event is Begin && before.container is None ==> action is CleanUpDataDir,
        event is ContainerStopped ==> action is CleanUpDataDir,
        event is CleanedUp ==> action is Done,
{
}

/// A run records the image, the durability, the commit and the segment size of a store, null for
/// what is not known or not set, and the memory limit where there is one; it records nothing else.
pub proof fn law_description_records_the_store(
    manager: BoomerangStoreManager,
    git_sha: Option<String>,
    segment_setting: Option<String>,
    described: serde_json::Value,
)
    requires
        json_of(described) == Json::Object(
            store_description(manager, optional_text(git_sha), optional_text(segment_setting)),
        ),
    ensures
        json_of(described) matches Json::Object(members) && {
            &&& forall|key: Seq<char>| #[trigger]
                members.contains_key(key) <==> {
                    ||| key == "image"@
                    ||| key == "durability"@
                    ||| key == "git_sha"@
                    ||| key == "segment_max_bytes"@
                    ||| key == "memory_limit_mb"@ && manager.memory_limit_mb is Some
                }
            &&& members["image"@] == Json::Text("boomerang:local"@)
            &&& members["durability"@] == Json::Text(manager.durability@)
            &&& members["git_sha"@] == (match git_sha {
                Some(sha) => Json::Text(sha@),
                None => Json::Null,
            })
            &&& members["segment_max_bytes"@] == (if segment_setting is Some
                && segment_setting->0@.len() > 0 {
                Json::Text(segment_setting->0@)
            } else {
                Json::Null
            })
            &&& manager.memory_limit_mb matches Some(limit_mb) ==> members["memory_limit_mb"@]
                == Json::Number(JsonNumber::Natural(limit_mb))
        },
{
    reveal_strlit("image");
    reveal_strlit("durability");
    reveal_strlit("git_sha");
    reveal_strlit("segment_max_bytes");
    reveal_strlit("memory_limit_mb");
    reveal_strlit("boomerang");
    reveal_strlit("local");
    reveal_strlit(":");
    reveal_strlit("boomerang:local");
    assert("image"@.len() == 5 && "durability"@.len() == 10 && "git_sha"@.len() == 7);
    assert("segment_max_bytes"@.len() == 17 && "memory_limit_mb"@.len() == 15);
    assert(image_name() =~= "boomerang:local"@);
}

/// The commit of an image is its label without the white space around it. There is none where
/// nothing is left of the label, or where what is left says that it is missing.
pub proof fn law_commit_is_the_trimmed_label(label: Seq<char>)
    ensures
        labelled_sha(label) is None <==> trimmed(label).len() == 0 || trimmed(label)
            == "<no value>"@,
        labelled_sha(label) matches Some(sha) ==> sha == trimmed(label),
{
}

/// The logs of a store are the standard output of its container and, where there is some, its
/// standard error after a heading; a store without a container has none.
pub proof fn law_logs_hold_both_outputs(stdout: Vec<u8>, stderr: Vec<u8>)
    ensures
        store_logs(None) == "No logs"@,
        stderr@.len() == 0 ==> store_logs(Some((stdout, stderr))) == utf8_lossy(stdout@),
        stderr@.len() > 0 ==> store_logs(Some((stdout, stderr))) == utf8_lossy(stdout@)
            + "\n--- STDERR ---\n"@ + utf8_lossy(stderr@),
{
}

/// The user and the group of a container are written in decimal, with a colon between them.
pub proof fn law_user_is_written_in_decimal(uid: u32, gid: u32)
    ensures
        user_text((uid, gid)) == decimal(uid as nat) + ":"@ + decimal(gid as nat),
{
}

} // verus!
