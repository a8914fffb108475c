use xodus::package::{
    classify_source, next_download_action, streaming_url, validate_selection, DownloadAction,
    DownloadEvent, PackageFile, PackageSource,
};

fn file(name: &str, roots: &[&str]) -> PackageFile {
    PackageFile {
        file_name: name.to_string(),
        file_size: 10,
        cdn_root_paths: roots.iter().map(|r| r.to_string()).collect(),
        relative_url: format!("/{name}"),
    }
}

fn kind(source: &str) -> (&'static str, String) {
    match classify_source(source.to_string()) {
        PackageSource::Local(s) => ("local", s),
        PackageSource::Url(s) => ("url", s),
        PackageSource::Content(s) => ("content", s),
        PackageSource::Product(s) => ("product", s),
    }
}

#[test]
fn a_source_is_a_file_an_address_a_content_or_a_product() {
    assert_eq!(kind("file:///tmp/x"), ("local", "/tmp/x".to_string()));
    assert_eq!(kind("file://"), ("local", String::new()));
    for url in ["http://a/b", "https://a/b"] {
        assert_eq!(kind(url), ("url", url.to_string()));
    }
    for id in [
        "936da01f-9abd-4d9d-80c7-02af85c822a8",
        "936DA01F9ABD4D9D80C702AF85C822A8",
        "{936da01f-9abd-4d9d-80c7-02af85c822a8}",
        "urn:uuid:936da01f-9abd-4d9d-80c7-02af85c822a8",
        "URN:UUID:936da01f-9abd-4d9d-80c7-02af85c822a8",
    ] {
        assert_eq!(kind(id), ("content", id.to_string()));
    }
    for product in [
        "9NBLGGH4R315",
        "",
        "936da01f-9abd-4d9d-80c7-02af85c822a",
        "936da01f-9abd-4d9d-80c7-02af85c822ag",
        "936da01f09abd-4d9d-80c7-02af85c822a8",
        "(936da01f-9abd-4d9d-80c7-02af85c822a8)",
        "ftp://a",
    ] {
        assert_eq!(kind(product), ("product", product.to_string()));
    }
}

#[test]
fn the_first_package_that_can_be_streamed_is_taken() {
    let files = vec![
        file("a.txt", &[]),
        file("b.msixvc", &["http://one", "http://two"]),
        file("c.msixvc", &["http://three"]),
    ];
    assert_eq!(streaming_url(&files).unwrap(), "http://one/b.msixvc");
    assert_eq!(
        streaming_url(&vec![file("a.txt", &["http://one"])]).unwrap_err(),
        "No .msixvc file found"
    );
}

#[test]
fn something_has_to_be_selected() {
    assert!(validate_selection(1).is_ok());
    assert_eq!(
        validate_selection(0).unwrap_err(),
        "At least one item has to be selected"
    );
}

#[test]
fn a_file_is_requested_opened_and_written_piece_by_piece() {
    let f = file("f", &["http://one"]);
    let next = |event| next_download_action(&f, false, event);
    assert!(matches!(
        next(DownloadEvent::Reached),
        DownloadAction::Request { url } if url == "http://one/f"
    ));
    assert!(matches!(
        next(DownloadEvent::Requested),
        DownloadAction::OpenFile
    ));
    assert!(matches!(
        next(DownloadEvent::Opened),
        DownloadAction::NextChunk
    ));
    assert!(matches!(
        next(DownloadEvent::ChunkRead),
        DownloadAction::WriteChunk
    ));
    assert!(matches!(
        next(DownloadEvent::ChunkWritten),
        DownloadAction::NextChunk
    ));
    assert!(matches!(
        next(DownloadEvent::StreamEnded),
        DownloadAction::NextFile
    ));
}

#[test]
fn a_dry_run_only_prints_the_address() {
    let f = file("f", &["http://one"]);
    assert!(matches!(
        next_download_action(&f, true, DownloadEvent::Reached),
        DownloadAction::PrintUrl { url } if url == "http://one/f"
    ));
}

#[test]
fn a_download_that_breaks_removes_what_was_written() {
    let f = file("f", &["http://one"]);
    let fail = |event| match next_download_action(&f, false, event) {
        DownloadAction::Fail { message } => (false, message),
        DownloadAction::RemoveAndFail { message } => (true, message),
        _ => panic!("no failure"),
    };
    let why = || "why".to_string();
    assert_eq!(
        fail(DownloadEvent::RequestFailed(why())),
        (false, "Failed to request 'f': why".to_string())
    );
    assert_eq!(
        fail(DownloadEvent::OpenFailed(why())),
        (false, "Could not open 'f' for writing: why".to_string())
    );
    assert_eq!(
        fail(DownloadEvent::ChunkFailed(why())),
        (true, "Download of 'f' interrupted: why".to_string())
    );
    assert_eq!(
        fail(DownloadEvent::WriteFailed(why())),
        (true, "Failed to write 'f' to disk: why".to_string())
    );
    assert!(matches!(
        next_download_action(&file("g", &[]), true, DownloadEvent::Reached),
        DownloadAction::Fail { message } if message == "'g' has no CDN root paths to download from"
    ));
}
