use trueshot_server::storage::{
    archive_integrity_ok, backup_archive_path, backup_job_next, backup_remote_path, backup_root_dir,
    default_backup_remote_path, frontend_base_url, join_strings, nas_target_path, oauth_config_availability,
    oauth_env_hint, oauth_not_configured_message, oauth_provider_from_key, oauth_redirect_base_url,
    oauth_state_expired, profile_email, provider_from_connection_id, provider_from_key, provider_oauth_state,
    restore_target, state_token_from, storage_connected_redirect, BackupJobStatus, CallbackRefusal, CloudProvider,
    OAuthConfig, RemotePathError, RestoreRefusal,
};

fn config(client_id: &str, client_secret: &str, redirect_uri: &str) -> OAuthConfig {
    OAuthConfig {
        client_id: client_id.to_string(),
        client_secret: client_secret.to_string(),
        redirect_uri: redirect_uri.to_string(),
        scopes: vec!["a".to_string()],
    }
}

#[test]
fn providers_have_display_names_and_oauth_flags() {
    assert_eq!(CloudProvider::GoogleDrive.display_name(), "Google Drive");
    assert_eq!(CloudProvider::S3.display_name(), "Amazon S3");
    assert_eq!(CloudProvider::Nas.display_name(), "Network Storage");
    assert!(CloudProvider::Dropbox.requires_oauth());
    assert!(CloudProvider::OneDrive.requires_oauth());
    assert!(!CloudProvider::ICloudDrive.requires_oauth());
    assert!(!CloudProvider::Azure.requires_oauth());
    assert_eq!(oauth_env_hint(CloudProvider::Dropbox), "DROPBOX_CLIENT_ID/DROPBOX_CLIENT_SECRET");
    assert_eq!(oauth_env_hint(CloudProvider::Gcs), "N/A");
}

#[test]
fn provider_keys_and_connection_ids_name_providers() {
    assert_eq!(provider_from_key("google_drive"), Some(CloudProvider::GoogleDrive));
    assert_eq!(provider_from_key("icloud"), Some(CloudProvider::ICloudDrive));
    assert_eq!(provider_from_key("ftp"), None);
    assert_eq!(provider_from_connection_id("s3:my-bucket"), Some(CloudProvider::S3));
    assert_eq!(provider_from_connection_id("nas"), Some(CloudProvider::Nas));
    assert_eq!(provider_from_connection_id("box:thing"), None);
    assert_eq!(oauth_provider_from_key("onedrive"), Some(CloudProvider::OneDrive));
    assert_eq!(oauth_provider_from_key("s3"), None);
}

#[test]
fn oauth_availability_lists_blank_fields_in_order() {
    let a = oauth_config_availability(CloudProvider::GoogleDrive, &config(" ", "secret", ""));
    assert!(!a.available);
    assert_eq!(a.missing_fields, vec!["client_id", "redirect_uri"]);
    assert_eq!(a.env_hint, "GOOGLE_CLIENT_ID/GOOGLE_CLIENT_SECRET");
    let b = oauth_config_availability(CloudProvider::Dropbox, &config("id", "secret", "http://x/cb"));
    assert!(b.available);
    assert!(b.missing_fields.is_empty());
}

#[test]
fn provider_oauth_state_reports_missing_configuration() {
    let none = provider_oauth_state(CloudProvider::GoogleDrive, None);
    assert!(!none.available);
    assert_eq!(none.unavailable_reason.as_deref(), Some("OAuth config missing"));
    assert_eq!(none.missing_fields, None);
    let partial = config("", "s", "u");
    let st = provider_oauth_state(CloudProvider::OneDrive, Some(&partial));
    assert!(!st.available);
    assert_eq!(
        st.unavailable_reason.as_deref(),
        Some("Missing OAuth credentials. Set ONEDRIVE_CLIENT_ID/ONEDRIVE_CLIENT_SECRET.")
    );
    assert_eq!(st.missing_fields, Some(vec!["client_id"]));
    assert_eq!(
        st.setup_hint.as_deref(),
        Some("Configure ONEDRIVE_CLIENT_ID/ONEDRIVE_CLIENT_SECRET and restart the server.")
    );
    let full = config("i", "s", "u");
    let ok = provider_oauth_state(CloudProvider::OneDrive, Some(&full));
    assert!(ok.available);
    assert_eq!(ok.setup_hint, None);
}

#[test]
fn oauth_messages_and_redirects_are_spelled_out() {
    assert_eq!(
        oauth_not_configured_message(CloudProvider::Dropbox, "DROPBOX_CLIENT_ID/DROPBOX_CLIENT_SECRET"),
        "OAuth credentials not configured for Dropbox. Set DROPBOX_CLIENT_ID/DROPBOX_CLIENT_SECRET environment variables."
    );
    assert_eq!(storage_connected_redirect("http://localhost:5173", "s3:x"), "http://localhost:5173/?storage_connected=s3:x");
    assert_eq!(frontend_base_url(None), "http://localhost:5173");
    assert_eq!(frontend_base_url(Some("https://app.example.com//")), "https://app.example.com");
    assert_eq!(oauth_redirect_base_url(Some("https://api.example.com/"), "0.0.0.0", 8080), "https://api.example.com");
    assert_eq!(oauth_redirect_base_url(None, "0.0.0.0", 8080), "http://localhost:8080");
    assert_eq!(oauth_redirect_base_url(None, "10.0.0.2", 443), "http://10.0.0.2:443");
    assert_eq!(CallbackRefusal::ProviderError("denied".to_string()).message(), "OAuth error: denied");
    assert_eq!(CallbackRefusal::MissingState.message(), "Missing state");
}

#[test]
fn oauth_states_expire_after_ten_minutes() {
    assert!(!oauth_state_expired(1_000, 1_600));
    assert!(oauth_state_expired(999, 1_600));
    assert!(!oauth_state_expired(2_000, 1_600));
}

#[test]
fn state_tokens_are_url_safe_base64_of_their_bytes() {
    assert_eq!(state_token_from(&[0u8; 32]), "A".repeat(43));
    let mut expected = "_".repeat(42);
    expected.push('8');
    assert_eq!(state_token_from(&[0xffu8; 32]), expected);
}

#[test]
fn scopes_are_joined_with_the_separator() {
    let items = vec!["openid".to_string(), "email".to_string(), "profile".to_string()];
    assert_eq!(join_strings(&items, " "), "openid email profile");
    assert_eq!(join_strings(&Vec::new(), " "), "");
    assert_eq!(join_strings(&vec!["one".to_string()], ","), "one");
}

#[test]
fn profile_email_depends_on_the_provider() {
    let e = Some("e@x".to_string());
    let m = Some("m@x".to_string());
    let p = Some("p@x".to_string());
    assert_eq!(profile_email(CloudProvider::OneDrive, e.clone(), m.clone(), p.clone()), m);
    assert_eq!(profile_email(CloudProvider::OneDrive, e.clone(), None, p.clone()), p);
    assert_eq!(profile_email(CloudProvider::GoogleDrive, e.clone(), m, p), e);
}

#[test]
fn nas_targets_join_the_mount_and_the_remote_path() {
    assert_eq!(nas_target_path(None, "x"), Err(RemotePathError::NasEndpointMissing));
    assert_eq!(nas_target_path(Some("/mnt/nas"), " // "), Err(RemotePathError::RemotePathMissing));
    assert_eq!(nas_target_path(Some("/mnt/nas"), "/TrueShot/backups/"), Ok("/mnt/nas/TrueShot/backups".to_string()));
    assert_eq!(nas_target_path(Some("/mnt/nas/"), "a"), Ok("/mnt/nas/a".to_string()));
}

#[test]
fn backup_paths_follow_the_layout() {
    assert_eq!(backup_root_dir("/data/projects"), "/data/projects/_backups");
    assert_eq!(
        backup_archive_path("/data/projects/_backups", "p1", "job-7"),
        "/data/projects/_backups/p1/job-7.tar.gz"
    );
    assert_eq!(default_backup_remote_path("/TrueShot/", "p1", "job-7"), "TrueShot/backups/p1/job-7.tar.gz");
    assert_eq!(default_backup_remote_path("", "p1", "j"), "backups/p1/j.tar.gz");
    assert_eq!(
        backup_remote_path(Some("custom/where".to_string()), Some("/TrueShot"), "p1", "j"),
        Some("custom/where".to_string())
    );
    assert_eq!(backup_remote_path(None, Some("/TrueShot"), "p1", "j"), Some("TrueShot/backups/p1/j.tar.gz".to_string()));
    assert_eq!(backup_remote_path(None, None, "p1", "j"), None);
}

#[test]
fn restores_check_digest_and_target() {
    assert!(archive_integrity_ok(None, "abc"));
    assert!(archive_integrity_ok(Some("abc"), "abc"));
    assert!(!archive_integrity_ok(Some("abc"), "abd"));
    assert_eq!(restore_target(None, "p1", true), Err(RestoreRefusal::TargetExists));
    assert_eq!(restore_target(None, "p1", false), Ok("p1".to_string()));
    assert_eq!(restore_target(Some("p2".to_string()), "p1", false), Ok("p2".to_string()));
}

#[test]
fn backup_jobs_move_pending_running_then_done() {
    assert_eq!(backup_job_next(BackupJobStatus::Pending, true, None), BackupJobStatus::Running);
    assert_eq!(backup_job_next(BackupJobStatus::Running, false, Some(true)), BackupJobStatus::Completed);
    assert_eq!(backup_job_next(BackupJobStatus::Running, false, Some(false)), BackupJobStatus::Failed);
}
