use hw_assistant::error::ErrorKind;
use hw_assistant::subject::files::get_most_recent_download;
use hw_assistant::subject::steps::DownloadEntry;

fn download(path: &str, created: Option<i128>) -> DownloadEntry {
    DownloadEntry { path: path.to_string(), created }
}

#[test]
fn most_recent_download_is_the_latest_created() {
    let entries = vec![
        download("a.pdf", Some(10)),
        download("c.pdf", Some(30)),
        download("b.pdf", Some(20)),
    ];
    assert_eq!(get_most_recent_download(&entries).unwrap(), 1);
}

#[test]
fn most_recent_download_takes_the_last_of_equals() {
    let entries = vec![
        download("a.pdf", Some(30)),
        download("b.pdf", Some(5)),
        download("c.pdf", Some(30)),
        download("d.pdf", Some(7)),
    ];
    assert_eq!(get_most_recent_download(&entries).unwrap(), 2);
}

#[test]
fn entries_without_creation_time_are_passed_over() {
    let entries = vec![
        download("a.pdf", None),
        download("b.pdf", Some(-5)),
        download("c.pdf", None),
    ];
    assert_eq!(get_most_recent_download(&entries).unwrap(), 1);
}

#[test]
fn times_before_the_epoch_are_ordered() {
    let entries = vec![download("a.pdf", Some(-5)), download("b.pdf", Some(-50))];
    assert_eq!(get_most_recent_download(&entries).unwrap(), 0);
}

#[test]
fn empty_downloads_is_an_error() {
    let err = get_most_recent_download(&Vec::new()).unwrap_err();
    assert_eq!(err.kind, ErrorKind::EmptyDownloads);
    assert_eq!(err.message, "downloads directory was empty");
}

#[test]
fn downloads_without_readable_entries_is_an_error() {
    let entries = vec![download("a.pdf", None), download("b.pdf", None)];
    let err = get_most_recent_download(&entries).unwrap_err();
    assert_eq!(err.kind, ErrorKind::EmptyDownloads);
}
