use http_server::config::directory_from_args;
use http_server::store::file_path;

fn args(list: &[&str]) -> Vec<String> {
    list.iter().map(|s| s.to_string()).collect()
}

#[test]
fn file_path_joins_root_and_name() {
    assert_eq!(file_path(b"/tmp/data", b"report.txt"), b"/tmp/data/report.txt".to_vec());
    assert_eq!(file_path(b"/tmp/data/", b"report.txt"), b"/tmp/data//report.txt".to_vec());
    assert_eq!(file_path(b"data", b"a/b"), b"data/a/b".to_vec());
    assert_eq!(file_path(b"/", b"x"), b"//x".to_vec());
}

#[test]
fn file_path_with_an_empty_root_is_the_name() {
    assert_eq!(file_path(b"", b"report.txt"), b"report.txt".to_vec());
    assert_eq!(file_path(b"", b""), Vec::<u8>::new());
}

#[test]
fn directory_follows_the_flag() {
    assert_eq!(directory_from_args(&args(&["server", "--directory", "/tmp/data"])), "/tmp/data");
    assert_eq!(directory_from_args(&args(&["--directory", "d"])), "d");
    assert_eq!(directory_from_args(&args(&["server", "-v", "--directory", "d", "x"])), "d");
}

#[test]
fn directory_is_empty_without_the_flag() {
    assert_eq!(directory_from_args(&args(&[])), "");
    assert_eq!(directory_from_args(&args(&["server"])), "");
    assert_eq!(directory_from_args(&args(&["server", "--dir", "d"])), "");
    assert_eq!(directory_from_args(&args(&["server", "--directory"])), "");
    assert_eq!(directory_from_args(&args(&["--directory"])), "");
}

#[test]
fn the_last_flag_counts() {
    assert_eq!(
        directory_from_args(&args(&["server", "--directory", "a", "--directory", "b"])),
        "b"
    );
    assert_eq!(directory_from_args(&args(&["server", "--directory", "a", "--directory"])), "a");
    assert_eq!(
        directory_from_args(&args(&["server", "--directory", "--directory", "b"])),
        "b"
    );
    assert_eq!(
        directory_from_args(&args(&["server", "--directory", "--directory"])),
        "--directory"
    );
}
