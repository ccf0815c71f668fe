use trueshot_server::adaptive::{admit_session, AdaptiveSession};
use trueshot_server::crypto::sha256_hex;
use trueshot_server::devices::{
    device_list, device_stats, CameraProfileFacts, ConnectionType, DeviceCounts, DeviceStatus, DeviceType, DiskFacts,
    PhoneFacts,
};
use trueshot_server::share::{lod_basis, share_lod_paths};
use trueshot_server::storage::{
    archive_digest_ok, restore_job, store_job, BackupJob, BackupJobStatus, BackupJobType,
};

fn backup(id: &str) -> BackupJob {
    BackupJob {
        id: id.to_string(),
        job_type: BackupJobType::Backup,
        project_id: "p1".to_string(),
        label: Some("nightly".to_string()),
        storage_id: Some("s3:bucket".to_string()),
        remote_path: Some("TrueShot/backups/p1/j1.tar.gz".to_string()),
        status: BackupJobStatus::Completed,
        created_at: "2024-01-01T00:00:00+00:00".to_string(),
        started_at: Some("2024-01-01T00:00:01+00:00".to_string()),
        finished_at: Some("2024-01-01T00:00:09+00:00".to_string()),
        archive_path: Some("/data/_backups/p1/j1.tar.gz".to_string()),
        size_bytes: Some(1234),
        sha256: Some("abc".to_string()),
        error: None,
        restore_project_id: None,
    }
}

#[test]
fn digests_are_lower_case_hex_sha256() {
    assert_eq!(sha256_hex(b"abc"), "ba7816bf8f01cfea414140de5dae2223b00361a396177a9cb410ff61f20015ad");
    assert_eq!(sha256_hex(b""), "e3b0c44298fc1c149afbf4c8996fb92427ae41e4649b934ca495991b7852b855");
    let good = "ba7816bf8f01cfea414140de5dae2223b00361a396177a9cb410ff61f20015ad";
    assert!(archive_digest_ok(Some(good), b"abc"));
    assert!(!archive_digest_ok(Some(good), b"abd"));
    assert!(!archive_digest_ok(Some("BA7816BF8F01CFEA414140DE5DAE2223B00361A396177A9CB410FF61F20015AD"), b"abc"));
    assert!(archive_digest_ok(None, b"anything"));
}

#[test]
fn restore_jobs_copy_the_source_and_start_pending() {
    let source = backup("j1");
    let r = restore_job(&source, "p2".to_string(), "r1".to_string(), "2024-02-02T00:00:00+00:00".to_string());
    assert_eq!(r.id, "r1");
    assert_eq!(r.job_type, BackupJobType::Restore);
    assert_eq!(r.status, BackupJobStatus::Pending);
    assert_eq!(r.project_id, "p1");
    assert_eq!(r.label, source.label);
    assert_eq!(r.storage_id, source.storage_id);
    assert_eq!(r.remote_path, source.remote_path);
    assert_eq!(r.archive_path, source.archive_path);
    assert_eq!(r.size_bytes, Some(1234));
    assert_eq!(r.sha256, Some("abc".to_string()));
    assert_eq!(r.restore_project_id, Some("p2".to_string()));
    assert_eq!(r.created_at, "2024-02-02T00:00:00+00:00");
    assert_eq!(r.started_at, None);
    assert_eq!(r.finished_at, None);
    assert_eq!(r.error, None);
}

#[test]
fn jobs_are_stored_by_id() {
    let mut jobs = vec![backup("j1"), backup("j2")];
    store_job(&mut jobs, backup("j3"));
    assert_eq!(jobs.iter().map(|j| j.id.as_str()).collect::<Vec<_>>(), vec!["j1", "j2", "j3"]);
    let mut updated = backup("j2");
    updated.status = BackupJobStatus::Failed;
    store_job(&mut jobs, updated);
    assert_eq!(jobs.len(), 3);
    assert_eq!(jobs[1].status, BackupJobStatus::Failed);
    assert_eq!(jobs[0].status, BackupJobStatus::Completed);
}

#[test]
fn the_device_list_holds_every_source_in_order() {
    let cameras = vec![
        CameraProfileFacts {
            id: "cam-a".to_string(),
            name: "A".to_string(),
            nickname: Some("left".to_string()),
            has_depth: false,
            enabled: true,
            battery_level: Some(80),
        },
        CameraProfileFacts {
            id: "cam-b".to_string(),
            name: "B".to_string(),
            nickname: None,
            has_depth: true,
            enabled: false,
            battery_level: None,
        },
    ];
    let connected = vec!["cam-b".to_string()];
    let phones = vec![PhoneFacts {
        id: "ph1".to_string(),
        name: "Pixel".to_string(),
        is_ready: true,
        device_info: "Pixel 8".to_string(),
        battery_level: 55,
    }];
    let disks = vec![DiskFacts { name: "sda1".to_string(), removable: true }];
    let list = device_list(&cameras, &connected, true, true, "", Some(&phones), &disks);
    assert_eq!(list.len(), 6);
    assert_eq!(list[0].id, "cam-a");
    assert_eq!(list[0].status, DeviceStatus::Disconnected);
    assert_eq!(list[0].device_type, DeviceType::Camera);
    assert_eq!(list[0].battery_level, Some(80));
    assert_eq!(list[1].status, DeviceStatus::Connected);
    assert_eq!(list[1].device_type, DeviceType::DepthCamera);
    assert!(!list[1].enabled);
    assert_eq!(list[2].id, "turntable-main");
    assert_eq!(list[2].name, "Turntable");
    assert_eq!(list[2].status, DeviceStatus::Busy);
    assert_eq!(list[2].connection, ConnectionType::Serial);
    assert_eq!(list[3].id, "ph1");
    assert_eq!(list[3].status, DeviceStatus::Ready);
    assert_eq!(list[3].model, Some("Pixel 8".to_string()));
    assert_eq!(list[4].id, "sensor-host");
    assert_eq!(list[4].name, "Host Sensors");
    assert_eq!(list[5].id, "storage:sda1");
    assert_eq!(list[5].connection, ConnectionType::Usb);

    let without_phones = device_list(&cameras, &connected, false, false, "Drive", None, &Vec::new());
    assert_eq!(without_phones.len(), 4);
    assert_eq!(without_phones[2].status, DeviceStatus::Disconnected);
    assert_eq!(without_phones[2].name, "Drive");
    assert_eq!(without_phones[3].id, "sensor-host");

    let stats = device_stats(DeviceCounts {
        registered_cameras: 2,
        connected_cameras: 5,
        phones: Some(1),
        disks: 1,
        turntable_connected: true,
    });
    assert_eq!(stats.total, list.len());
    assert_eq!(stats.connected, 9);
}

#[test]
fn share_lods_are_planned_by_extension() {
    assert_eq!(lod_basis("obj", 0, 10), Some((1, 4)));
    assert_eq!(lod_basis("glb", 1000, 0), Some((1000, 4)));
    assert_eq!(lod_basis("ply", 0, 5000), Some((5000, 50)));
    assert_eq!(lod_basis("ply", 10, 5000), Some((10, 4)));
    assert_eq!(lod_basis("ply", 0, 0), None);
    assert_eq!(lod_basis("stl", 1000, 1000), None);
    let plan = share_lod_paths("/p/output", "mesh", "obj", 1000, 0, &[500, 1000, 2]);
    assert_eq!(plan, vec![(1, 500, "/p/output/mesh.lod1.obj".to_string())]);
    let points = share_lod_paths("/p/output/", "scan", "ply", 0, 10000, &[5000, 1000, 40]);
    assert_eq!(
        points,
        vec![(1, 5000, "/p/output/scan.lod1.ply".to_string()), (2, 1000, "/p/output/scan.lod2.ply".to_string())]
    );
    assert!(share_lod_paths("/p", "m", "fbx", 1000, 1000, &[10]).is_empty());
}

fn session(id: &str) -> AdaptiveSession<u32> {
    AdaptiveSession { id: id.to_string(), camera_id: "cam".to_string(), generation: 3, core: 0 }
}

#[test]
fn adaptive_sessions_are_capped_at_thirty_two() {
    let mut few = vec![session("a")];
    assert_eq!(admit_session(&mut few, &vec![true], "b".to_string(), "cam2".to_string(), 7), Ok(()));
    assert_eq!(few.len(), 2);
    assert_eq!(few[1].id, "b");
    assert_eq!(few[1].generation, 0);
    assert_eq!(few[1].core, 7);

    let mut full: Vec<AdaptiveSession<u32>> = (0..32).map(|i| session(&format!("s{i}"))).collect();
    let none_done = vec![false; 32];
    assert_eq!(
        admit_session(&mut full, &none_done, "new".to_string(), "cam".to_string(), 1),
        Err("Too many active adaptive capture sessions")
    );
    assert_eq!(full.len(), 32);

    let mut done: Vec<bool> = vec![false; 32];
    done[0] = true;
    done[5] = true;
    assert_eq!(admit_session(&mut full, &done, "new".to_string(), "cam".to_string(), 1), Ok(()));
    assert_eq!(full.len(), 31);
    assert!(full.iter().all(|s| s.id != "s0" && s.id != "s5"));
    assert_eq!(full[30].id, "new");

    let mut again = vec![session("x"), session("y")];
    assert_eq!(admit_session(&mut again, &vec![false, false], "x".to_string(), "cam9".to_string(), 4), Ok(()));
    assert_eq!(again.len(), 2);
    assert_eq!(again[0].camera_id, "cam9");
    assert_eq!(again[0].generation, 0);
}
