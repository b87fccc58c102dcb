use boomerang::image::{
    git_sha_in, image_git_sha, image_reference, segment_max_bytes_override, Boomerang, Mount,
    BOOMERANG_PORT,
};
use boomerang::manager::{
    BoomerangFactory, BoomerangStoreManager, StartAction, StartEvent, StopAction, StopEvent,
};
use boomerang::number::{as_signed, decimal_text};
use boomerang::text::{insert_ascending, str_precedes};

fn text(text: &str) -> Option<String> {
    Some(text.to_string())
}

#[test]
fn test_factory_exposes_single_fsync_store() {
    let factory = BoomerangFactory;
    assert_eq!(factory.name(), "boomerang");

    let manager = BoomerangStoreManager::fsync(None, None, false);
    assert_eq!(manager.durability, "Fsync");
    assert_eq!(manager.store_name, "boomerang");
    assert_eq!(factory.create_store_manager(None, None, false), manager);
}

#[test]
fn uri_is_local_unless_set() {
    let manager = BoomerangStoreManager::fsync(None, text("/tmp/d"), true);
    assert_eq!(manager.uri, "http://127.0.0.1:50051");
    assert_eq!(manager.data_dir, text("/tmp/d"));
    assert!(manager.use_docker());
    assert_eq!(manager.container_id(), None);
    let set = BoomerangStoreManager::fsync(text("http://store:1"), None, false);
    assert_eq!(set.uri, "http://store:1");
    assert_eq!(BoomerangStoreManager::get_uri(text("")), "");
    assert_eq!(BoomerangStoreManager::format_uri(0), "http://127.0.0.1:0");
    assert_eq!(BoomerangStoreManager::format_uri(65535), "http://127.0.0.1:65535");
}

#[test]
fn stores_of_others_are_not_started() {
    let mut manager = BoomerangStoreManager::fsync(None, None, false);
    assert_eq!(manager.start(StartEvent::Begin), StartAction::Done);
    assert_eq!(manager.stop(StopEvent::Begin), StopAction::CleanUpDataDir);
}

#[test]
fn container_is_started_and_stopped() {
    let mut manager = BoomerangStoreManager::fsync(None, None, true);
    manager.set_memory_limit(Some(512));
    manager.set_docker_platform(text("linux/amd64"));
    assert_eq!(manager.start(StartEvent::Begin), StartAction::SetUpDataDir);
    let action = manager.start(StartEvent::DataDirReady {
        mount_path: text("/host/data"),
        owner: Some((1000, 20)),
        segment_setting: text("4096"),
    });
    let StartAction::StartContainer(container) = action else { panic!("no container") };
    assert_eq!(container.user, text("1000:20"));
    assert_eq!(container.open_files, 1_048_576);
    assert_eq!(container.platform, text("linux/amd64"));
    assert_eq!(container.memory_bytes, Some(536_870_912));
    assert_eq!(
        container.image,
        Boomerang::new(text("/host/data"), "Fsync", text("4096"))
    );
    let started = StartEvent::ContainerStarted { id: "c1".to_string(), host_port: 32768 };
    let StartAction::AwaitReady(check) = manager.start(started) else { panic!("not awaited") };
    assert_eq!(check.store_name, "boomerang");
    assert_eq!(check.uri, "http://127.0.0.1:32768");
    assert_eq!(check.timeout_secs, 60);
    assert_eq!(manager.uri, check.uri);
    assert_eq!(manager.container_id(), text("c1"));
    assert_eq!(manager.start(StartEvent::Ready), StartAction::Done);
    assert_eq!(manager.stop(StopEvent::Begin), StopAction::StopContainer("c1".to_string()));
    assert_eq!(manager.container_id(), None);
    assert_eq!(manager.stop(StopEvent::ContainerStopped), StopAction::CleanUpDataDir);
    assert_eq!(manager.stop(StopEvent::CleanedUp), StopAction::Done);
    assert_eq!(manager.stop(StopEvent::Begin), StopAction::CleanUpDataDir);
    assert_eq!(manager.durability, "Fsync");
}

#[test]
fn volumes_run_as_the_image_does() {
    let mut manager = BoomerangStoreManager::fsync(None, None, true);
    let action = manager.start(StartEvent::DataDirReady {
        mount_path: None,
        owner: Some((1000, 20)),
        segment_setting: None,
    });
    let StartAction::StartContainer(container) = action else { panic!("no container") };
    assert_eq!(container.user, None);
    assert_eq!(container.platform, None);
    assert_eq!(container.memory_bytes, None);
}

#[test]
fn image_runs_on_its_data() {
    let bound = Boomerang::new(text("/host"), "Fsync", text("1024"));
    assert_eq!(
        bound.mounts,
        vec![Mount::Bind { source: "/host".to_string(), target: "/data".to_string() }]
    );
    assert_eq!(
        bound.env_vars,
        vec![
            ("BOOMERANG_DATA_DIR", "/data".to_string()),
            ("BOOMERANG_DURABILITY", "Fsync".to_string()),
            ("GRPC_PORT", "50051".to_string()),
            ("BOOMERANG_SEGMENT_MAX_BYTES", "1024".to_string()),
        ]
    );
    assert_eq!(bound.env_vars[2].1, decimal_text(BOOMERANG_PORT as u64));
    let own = Boomerang::new(None, "Synchronous", text(""));
    assert_eq!(
        own.mounts,
        vec![Mount::Volume { name: String::new(), target: "/data".to_string() }]
    );
    assert_eq!(own.env_vars.len(), 3);
    assert_eq!(own.env_vars[1].1, "Synchronous");
    assert_eq!((own.name(), own.tag()), ("boomerang", "local"));
    assert_eq!(own.ready_conditions(), "Boomerang started");
    assert_eq!(own.expose_ports(), vec![50051]);
}

#[test]
fn segment_setting_counts_unless_empty() {
    assert_eq!(segment_max_bytes_override(None), None);
    assert_eq!(segment_max_bytes_override(text("")), None);
    assert_eq!(segment_max_bytes_override(text("7")), text("7"));
}

#[test]
fn stores_are_described() {
    let mut manager = BoomerangStoreManager::fsync(None, None, true);
    let plain = manager.describe(None, None);
    assert_eq!(
        plain.to_string(),
        r#"{"durability":"Fsync","git_sha":null,"image":"boomerang:local","segment_max_bytes":null}"#
    );
    manager.set_memory_limit(Some(64));
    let full = manager.describe(text("abc"), text("9"));
    assert_eq!(full["memory_limit_mb"], 64);
    assert_eq!(full["git_sha"], "abc");
    assert_eq!(full["segment_max_bytes"], "9");
    assert_eq!(full["image"], "boomerang:local");
    assert_eq!(image_reference(), "boomerang:local");
}

#[test]
fn git_sha_is_trimmed_and_may_be_missing() {
    assert_eq!(image_git_sha(true, b" abc123\n"), text("abc123"));
    assert_eq!(image_git_sha(false, b"abc123\n"), None);
    assert_eq!(image_git_sha(true, b"<no value>\n"), None);
    assert_eq!(image_git_sha(true, b" \t\r\n"), None);
    assert_eq!(image_git_sha(true, b"a\xffb"), text("a\u{fffd}b"));
    assert_eq!(git_sha_in("\u{2003}\u{a0}x y\u{3000}"), text("x y"));
    assert_eq!(git_sha_in("\u{200b}x"), text("\u{200b}x"));
}

#[test]
fn white_space_is_the_unicode_property() {
    for code in 0..=0x10ffffu32 {
        if let Some(c) = char::from_u32(code) {
            let listed = matches!(
                code,
                0x9..=0xd | 0x20 | 0x85 | 0xa0 | 0x1680 | 0x2000..=0x200a | 0x2028 | 0x2029
                    | 0x202f | 0x205f | 0x3000
            );
            assert_eq!(c.to_string().trim().is_empty(), listed);
        }
    }
}

#[test]
fn logs_follow_each_other() {
    assert_eq!(BoomerangStoreManager::logs(None), "No logs");
    assert_eq!(BoomerangStoreManager::logs(Some((b"out".to_vec(), Vec::new()))), "out");
    assert_eq!(
        BoomerangStoreManager::logs(Some((b"o\xff".to_vec(), b"err".to_vec()))),
        "o\u{fffd}\n--- STDERR ---\nerr"
    );
    assert_eq!(
        BoomerangStoreManager::join_logs(String::new(), text("e")),
        "\n--- STDERR ---\ne"
    );
}

#[test]
fn numbers_are_written_and_wrapped() {
    assert_eq!(decimal_text(0), "0");
    assert_eq!(decimal_text(10), "10");
    assert_eq!(decimal_text(u64::MAX), "18446744073709551615");
    assert_eq!(as_signed(5), 5);
    assert_eq!(as_signed(u64::MAX), -1);
    assert_eq!(as_signed(1 << 63), i64::MIN);
}

#[test]
fn texts_are_ordered_as_strings_are() {
    let texts = ["", "a", "ab", "b", "B", "\u{e9}", "\u{ffff}", "\u{10000}"];
    for a in texts {
        for b in texts {
            assert_eq!(str_precedes(a, b), a < b);
        }
    }
    let mut list = Vec::new();
    for text in ["b", "a", "c", "a", ""] {
        insert_ascending(&mut list, text.to_string());
    }
    assert_eq!(list, vec!["", "a", "b", "c"]);
}
