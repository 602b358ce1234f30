use hostsfeed::config::Config;
use hostsfeed::filter_list::{FilterList, ListInput};
use hostsfeed::input::file::{Compression, FileInput};
use hostsfeed::input::url::UrlInput;
use hostsfeed::input::InputError;

#[test]
fn description_picks_the_kind_of_input() {
    let plain = FilterList::File { path: "lists/a.txt".to_string(), compression: None };
    assert_eq!(plain.input(), ListInput::File(FileInput::new("lists/a.txt".to_string(), None)));

    let archive = FilterList::File {
        path: "lists/a.tar.gz".to_string(),
        compression: Some(Compression::TarGz("a/list.txt".to_string())),
    };
    assert_eq!(
        archive.input(),
        ListInput::File(FileInput::new(
            "lists/a.tar.gz".to_string(),
            Some(Compression::TarGz("a/list.txt".to_string()))
        ))
    );
    match archive.input() {
        ListInput::File(input) => assert_eq!(input.handle(), None),
        ListInput::Url(_) => panic!("a file was described"),
    }

    let url = FilterList::Url { url: "http://lists.example/a".to_string() };
    assert_eq!(url.input(), ListInput::Url(UrlInput::new("http://lists.example/a".to_string())));
    match url.input() {
        ListInput::Url(input) => assert!(!input.is_open()),
        ListInput::File(_) => panic!("a URL was described"),
    }
}

#[test]
fn config_holds_its_lists_and_directories() {
    let config = Config {
        lists: vec![
            FilterList::Url { url: "http://lists.example/a".to_string() },
            FilterList::File { path: "b.gz".to_string(), compression: Some(Compression::Gz) },
        ],
        tmp_dir: "/tmp/lists".to_string(),
        out_dir: "/var/lists".to_string(),
    };
    assert_eq!(config.lists.len(), 2);
    assert_eq!(config.tmp_dir, "/tmp/lists");
    assert_eq!(config.out_dir, "/var/lists");
}

#[test]
fn every_failure_is_an_open_failure_or_a_read_failure() {
    let s = || "x".to_string();
    let open = [
        InputError::OpenFile { path: s() },
        InputError::Archive { cause: s() },
        InputError::MemberNotFound,
        InputError::Request { cause: s() },
        InputError::Status { code: 404, url: s() },
        InputError::EmptyBody { url: s() },
    ];
    let read = [
        InputError::ReadLine { cause: s() },
        InputError::ReadChunk { cause: s() },
        InputError::Transfer { cause: s() },
    ];
    assert!(open.iter().all(|e| e.is_open_failure()));
    assert!(read.iter().all(|e| !e.is_open_failure()));
}
