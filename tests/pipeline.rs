use transmission_leptos::fetch::{FetchResource, FetchResult};
use transmission_leptos::filter::{filter_torrents, text_contains};
use transmission_leptos::gateway::{port_test_report, rpc_endpoint, torrents_from_reply, FetchError, RpcReply};
use transmission_leptos::order::{names_le, sort_torrents, str_le};
use transmission_leptos::torrent::{normalize_all, MyTorrent, RemoteTorrent, RowKey};
use transmission_leptos::view::ViewState;

fn torrent(id: Option<i64>, name: Option<&str>) -> MyTorrent {
    MyTorrent { id, name: name.map(|s| s.to_string()) }
}

fn names(v: &[MyTorrent]) -> Vec<Option<String>> {
    v.iter().map(|t| t.name.clone()).collect()
}

fn ids(v: &[MyTorrent]) -> Vec<Option<i64>> {
    v.iter().map(|t| t.id).collect()
}

fn some(s: &str) -> Option<String> {
    Some(s.to_string())
}

fn example_records() -> Vec<MyTorrent> {
    vec![torrent(Some(1), Some("Beta")), torrent(Some(2), None), torrent(Some(3), Some("alpha"))]
}

#[test]
fn normalize_keeps_id_and_name() {
    let r = RemoteTorrent { id: Some(42), name: some("debian.iso") };
    let t = MyTorrent::normalize(&r);
    assert_eq!(t.id, Some(42));
    assert_eq!(t.name, some("debian.iso"));
    let blank = MyTorrent::normalize(&RemoteTorrent { id: None, name: None });
    assert_eq!(blank.id, None);
    assert_eq!(blank.name, None);
}

#[test]
fn normalize_all_keeps_order() {
    let records = vec![
        RemoteTorrent { id: Some(7), name: some("b") },
        RemoteTorrent { id: None, name: some("a") },
    ];
    let v = normalize_all(&records);
    assert_eq!(ids(&v), vec![Some(7), None]);
    assert_eq!(names(&v), vec![some("b"), some("a")]);
}

#[test]
fn sort_example_absent_first_then_raw_order() {
    let sorted = sort_torrents(&example_records());
    assert_eq!(names(&sorted), vec![None, some("Beta"), some("alpha")]);
    assert_eq!(ids(&sorted), vec![Some(2), Some(1), Some(3)]);
}

#[test]
fn filter_example_is_case_insensitive() {
    let sorted = sort_torrents(&example_records());
    let filtered = filter_torrents(&sorted, "a");
    assert_eq!(names(&filtered), vec![some("Beta"), some("alpha")]);
}

#[test]
fn sort_is_stable_for_equal_names() {
    let v = vec![
        torrent(Some(1), Some("x")),
        torrent(Some(2), None),
        torrent(Some(3), Some("a")),
        torrent(Some(4), Some("x")),
        torrent(Some(5), None),
        torrent(Some(6), Some("a")),
    ];
    let sorted = sort_torrents(&v);
    assert_eq!(ids(&sorted), vec![Some(2), Some(5), Some(3), Some(6), Some(1), Some(4)]);
}

#[test]
fn sort_twice_is_sort_once() {
    let v = vec![
        torrent(Some(1), Some("zeta")),
        torrent(Some(2), Some("alpha")),
        torrent(Some(3), None),
        torrent(Some(4), Some("al")),
    ];
    let once = sort_torrents(&v);
    let twice = sort_torrents(&once);
    assert_eq!(ids(&once), vec![Some(3), Some(4), Some(2), Some(1)]);
    assert_eq!(ids(&twice), ids(&once));
}

#[test]
fn sort_of_empty_is_empty() {
    assert!(sort_torrents(&Vec::new()).is_empty());
}

#[test]
fn name_order_is_total() {
    assert!(names_le(&None, &None));
    assert!(names_le(&None, &some("a")));
    assert!(!names_le(&some("a"), &None));
    assert!(names_le(&some("ab"), &some("abc")));
    assert!(!names_le(&some("abc"), &some("ab")));
    assert!(names_le(&some("Z"), &some("a")));
    assert!(str_le("same", "same"));
    assert!(str_le("", ""));
    assert!(!str_le("b", "a"));
}

#[test]
fn empty_filter_keeps_everything() {
    let sorted = sort_torrents(&example_records());
    let filtered = filter_torrents(&sorted, "");
    assert_eq!(ids(&filtered), ids(&sorted));
}

#[test]
fn exact_name_filter_keeps_that_torrent() {
    let v = vec![torrent(Some(1), Some("ubuntu.iso")), torrent(Some(2), Some("fedora.img"))];
    let filtered = filter_torrents(&v, "fedora.img");
    assert_eq!(ids(&filtered), vec![Some(2)]);
}

#[test]
fn uppercase_filter_matches_lowercase_name() {
    let v = vec![torrent(Some(1), Some("ubuntu.iso")), torrent(Some(2), Some("notes.txt"))];
    let filtered = filter_torrents(&v, "ISO");
    assert_eq!(ids(&filtered), vec![Some(1)]);
}

#[test]
fn filter_absent_from_all_names_gives_nothing() {
    let filtered = filter_torrents(&example_records(), "zzz");
    assert!(filtered.is_empty());
}

#[test]
fn absent_name_matches_only_empty_filter() {
    let v = vec![torrent(Some(1), None)];
    assert_eq!(filter_torrents(&v, "").len(), 1);
    assert_eq!(filter_torrents(&v, "a").len(), 0);
}

#[test]
fn text_contains_cases() {
    assert!(text_contains("ubuntu.iso", "iso"));
    assert!(text_contains("abc", ""));
    assert!(text_contains("", ""));
    assert!(!text_contains("", "a"));
    assert!(!text_contains("ab", "abc"));
    assert!(!text_contains("ubuntu.iso", "ISO"));
}

#[test]
fn reply_success_is_normalized() {
    let reply = RpcReply {
        result: "success".to_string(),
        torrents: vec![
            RemoteTorrent { id: Some(1), name: some("a") },
            RemoteTorrent { id: Some(2), name: None },
        ],
    };
    let v = torrents_from_reply(reply).unwrap();
    assert_eq!(ids(&v), vec![Some(1), Some(2)]);
    assert_eq!(names(&v), vec![some("a"), None]);
}

#[test]
fn reply_error_is_protocol_failure() {
    let reply = RpcReply { result: "invalid argument".to_string(), torrents: vec![] };
    match torrents_from_reply(reply) {
        Err(FetchError::Protocol(m)) => assert_eq!(m, "invalid argument"),
        _ => panic!("expected a protocol error"),
    }
}

#[test]
fn port_test_reports() {
    assert_eq!(port_test_report(true), "Response ok? true");
    assert_eq!(port_test_report(false), "Response ok? false");
}

#[test]
fn endpoint_parses_url() {
    let u = rpc_endpoint("http://plutonium:9091/transmission/rpc").unwrap();
    assert_eq!(u.as_str(), "http://plutonium:9091/transmission/rpc");
    assert!(rpc_endpoint("not a url").is_err());
}

#[test]
fn row_keys_prefer_id() {
    let a = torrent(Some(1), Some("same")).row_key();
    let b = torrent(None, Some("same")).row_key();
    assert!(matches!(a, RowKey::Id(1)));
    match b {
        RowKey::Name(n) => assert_eq!(n, some("same")),
        _ => panic!("expected a name key"),
    }
}

#[test]
fn fetch_success_settles_once() {
    let mut state = ViewState::new();
    assert!(state.fetch.observe());
    assert!(!state.fetch.observe());
    assert!(state.derived_list().is_empty());
    state.settle(Ok(example_records()));
    match &state.fetch.result {
        FetchResult::Ready(v) => assert_eq!(v.len(), 3),
        _ => panic!("expected ready"),
    }
    state.settle(Err(FetchError::Transport("late".to_string())));
    assert!(matches!(state.fetch.result, FetchResult::Ready(_)));
    assert_eq!(names(&state.derived_list()), vec![None, some("Beta"), some("alpha")]);
    state.set_filter("ALPHA".to_string());
    assert_eq!(ids(&state.derived_list()), vec![Some(3)]);
}

#[test]
fn fetch_failure_shows_nothing() {
    let mut state = ViewState::new();
    state.settle(Err(FetchError::Decode("bad shape".to_string())));
    assert!(matches!(state.fetch.result, FetchResult::Failed(FetchError::Decode(_))));
    state.settle(Ok(example_records()));
    assert!(matches!(state.fetch.result, FetchResult::Failed(_)));
    state.set_filter("a".to_string());
    assert_eq!(state.filter, "a");
    assert!(state.derived_list().is_empty());
}

#[test]
fn fetch_resource_starts_pending() {
    let mut f = FetchResource::new();
    assert!(f.is_pending());
    f.settle(Ok(vec![]));
    assert!(!f.is_pending());
    assert!(!f.observe());
}
