use s3_transfer::b2b::copy_destination_key;
use s3_transfer::delete_bucket::Args as DeleteArgs;
use s3_transfer::f2b::Args as FolderArgs;
use s3_transfer::utils::{
    concurrency_limit, get_file_key, is_multipart, resolve_endpoint, PART_SIZE,
};

#[test]
fn relative_key_strips_root() {
    assert_eq!(get_file_key("/data/sub/a.txt", "a.txt", Some("/data")), "sub/a.txt");
}

#[test]
fn flatten_key_is_base_name() {
    assert_eq!(get_file_key("/data/sub/a.txt", "a.txt", None), "a.txt");
}

#[test]
fn file_at_root_has_no_leading_separator() {
    assert_eq!(get_file_key("/data/a.txt", "a.txt", Some("/data")), "a.txt");
}

#[test]
fn backslashes_become_slashes() {
    assert_eq!(
        get_file_key("C:\\data\\sub\\a.txt", "a.txt", Some("C:\\data")),
        "sub/a.txt"
    );
}

#[test]
fn path_outside_root_is_kept() {
    assert_eq!(get_file_key("/other/a.txt", "a.txt", Some("/data")), "other/a.txt");
}

#[test]
fn copy_key_is_unchanged() {
    assert_eq!(copy_destination_key(&"dir/x.bin".to_string()), "dir/x.bin");
}

#[test]
fn payload_at_threshold_is_single_upload() {
    assert!(!is_multipart(PART_SIZE as u64));
    assert!(!is_multipart(0));
}

#[test]
fn payload_over_threshold_is_multipart() {
    assert!(is_multipart(PART_SIZE as u64 + 1));
    assert_eq!(PART_SIZE, 20 * 1024 * 1024);
}

#[test]
fn default_endpoint_uses_region() {
    assert_eq!(resolve_endpoint(&None, "eu-west-1"), "s3.eu-west-1.amazonaws.com");
    assert_eq!(
        resolve_endpoint(&Some("minio.local:9000".to_string()), "eu-west-1"),
        "minio.local:9000"
    );
}

#[test]
fn concurrency_defaults() {
    assert_eq!(concurrency_limit(None, 50), 50);
    assert_eq!(concurrency_limit(Some(7), 50), 7);
    assert_eq!(concurrency_limit(Some(0), 10), 10);
    let d = DeleteArgs {
        db: None,
        bucket: "b".to_string(),
        region: "r".to_string(),
        aws_access_key_id: "k".to_string(),
        aws_secret_access_key: "s".to_string(),
        endpoint: None,
        concurrency: None,
    };
    assert_eq!(d.concurrency_limit(), 10);
    assert_eq!(d.endpoint(), "s3.r.amazonaws.com");
}

#[test]
fn folder_args_flatten_mode() {
    let mut a = FolderArgs {
        f2b: None,
        directory: "/data".to_string(),
        bucket: "b".to_string(),
        region: "r".to_string(),
        aws_access_key_id: "k".to_string(),
        aws_secret_access_key: "s".to_string(),
        endpoint: None,
        concurrency: None,
        flatten: Some(true),
    };
    assert_eq!(a.concurrency_limit(), 50);
    assert_eq!(a.key_root(&"/data".to_string()), None);
    a.flatten = None;
    assert_eq!(a.key_root(&"/data".to_string()), Some("/data".to_string()));
}

#[test]
fn doubled_separator_is_trimmed() {
    assert_eq!(get_file_key("/data//a.txt", "a.txt", Some("/data")), "a.txt");
    assert_eq!(get_file_key("/data/\\sub\\a.txt", "a.txt", Some("/data")), "sub/a.txt");
    assert_eq!(get_file_key("/x", "//a.txt", None), "a.txt");
    assert_eq!(get_file_key("/data", "data", Some("/data")), "");
}
