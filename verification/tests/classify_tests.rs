use joshuto_ui::classify;
use joshuto_ui::is_executable;
use joshuto_ui::stringify_mode;
use joshuto_ui::FileCategory;

fn ext(s: &str) -> Option<Vec<char>> {
    Some(s.chars().collect())
}

#[test]
fn directory_wins_outright() {
    assert_eq!(classify(0o040755, &None), FileCategory::Directory);
    assert_eq!(classify(0o040755, &ext("png")), FileCategory::Directory);
}

#[test]
fn executable_regular_file() {
    assert_eq!(classify(0o100755, &None), FileCategory::Executable);
    assert_eq!(classify(0o100100, &None), FileCategory::Executable);
    assert_eq!(classify(0o100010, &None), FileCategory::Executable);
    assert_eq!(classify(0o100001, &None), FileCategory::Executable);
    // Execute bits win over the extension.
    assert_eq!(classify(0o100755, &ext("png")), FileCategory::Executable);
}

#[test]
fn links_and_devices_collapse() {
    assert_eq!(classify(0o120777, &None), FileCategory::LinkOrDevice);
    assert_eq!(classify(0o020600, &None), FileCategory::LinkOrDevice);
    assert_eq!(classify(0o060600, &None), FileCategory::LinkOrDevice);
}

#[test]
fn sockets_and_fifos_collapse() {
    assert_eq!(classify(0o140644, &None), FileCategory::SocketOrFifo);
    assert_eq!(classify(0o010644, &None), FileCategory::SocketOrFifo);
}

#[test]
fn image_extensions() {
    assert_eq!(classify(0o100644, &ext("png")), FileCategory::ImageExtension);
    assert_eq!(classify(0o100644, &ext("jpg")), FileCategory::ImageExtension);
    assert_eq!(classify(0o100644, &ext("jpeg")), FileCategory::ImageExtension);
    assert_eq!(classify(0o100644, &ext("gif")), FileCategory::ImageExtension);
}

#[test]
fn media_extensions() {
    for e in ["mkv", "mp4", "mp3", "flac", "ogg", "avi", "wmv", "wav", "m4a"] {
        assert_eq!(classify(0o100644, &ext(e)), FileCategory::MediaExtension);
    }
}

#[test]
fn extension_match_is_case_sensitive() {
    assert_eq!(classify(0o100644, &ext("PNG")), FileCategory::PlainFile);
    assert_eq!(classify(0o100644, &ext("Mp3")), FileCategory::PlainFile);
}

#[test]
fn plain_and_unknown() {
    assert_eq!(classify(0o100644, &ext("txt")), FileCategory::PlainFile);
    assert_eq!(classify(0o100644, &None), FileCategory::PlainFile);
    assert_eq!(classify(0, &None), FileCategory::Unknown);
}

#[test]
fn execute_bits() {
    assert!(is_executable(0o100755));
    assert!(is_executable(0o100010));
    assert!(!is_executable(0o100644));
    assert!(!is_executable(0));
}

#[test]
fn mode_strings() {
    assert_eq!(stringify_mode(0o100644), "-rw-r--r--");
    assert_eq!(stringify_mode(0o040755), "drwxr-xr-x");
    assert_eq!(stringify_mode(0o140644), "srw-r--r--");
    assert_eq!(stringify_mode(0o120777), "lrwxrwxrwx");
    assert_eq!(stringify_mode(0o060600), "brw-------");
    assert_eq!(stringify_mode(0o020600), "crw-------");
    assert_eq!(stringify_mode(0o010644), "frw-r--r--");
    // A mode without a recognised type yields the nine permission
    // characters alone.
    assert_eq!(stringify_mode(0), "---------");
}
