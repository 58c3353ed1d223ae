use clashrw::cache::{
    parse_remote_configure, read_or_fetch, FetchAction, FetchEvent, FetchState, FileCache,
    CACHE_TIME,
};
use clashrw::file_watcher::{decide, FileEvent, FileEventKind, Mailbox};
use clashrw::lifecycle::{on_signal, Order, Phase, Signal, FORCED_EXIT_CODE};
use clashrw::parser::{
    Configure, HttpServerConfigure, Keyword, OverridableValue, Proxies, ProxyGroup, ProxyGroups,
    RemoteConfigure, Rules, ShareConfig, UpStream, UpdateConfigureEvent,
};
use clashrw::web::{
    build_body, forbidden, internal_server_error, merge_fetched, not_acceptable, plan_request,
    get, request_timeout, respond, rewrite_status, ErrorCode, QueryParams,
};

fn share(proxies: Vec<serde_yaml::Value>) -> ShareConfig {
    let ov = OverridableValue::new(None, Some(999), None, None);
    ShareConfig::new(
        Configure::new(
            vec![
                UpStream::new("a".into(), "http://example/sub".into(), None, None),
                UpStream::new("h".into(), "hello".into(), Some("http://raw".into()), Some(ov)),
            ],
            Rules::new(vec!["MATCH,DIRECT".into()]),
            Proxies(proxies),
            Keyword::new(vec![], vec![]),
            "http://t".into(),
            HttpServerConfigure::default(),
            vec![],
            vec![],
            vec![],
        ),
        redis::Client::open("redis://127.0.0.1/").unwrap(),
    )
}

fn remote() -> RemoteConfigure {
    let template: serde_yaml::Value = serde_yaml::from_str("name: t\npassword: ''\n").unwrap();
    RemoteConfigure::new(
        1,
        2,
        3,
        false,
        "Rule".into(),
        "info".into(),
        "c".into(),
        "".into(),
        Proxies(vec![template]),
        ProxyGroups(vec![ProxyGroup::new_select("G".into(), vec!["t".into(), "u".into()])]),
        Rules::new(vec![]),
    )
}

fn pair(content: &str, status: &str) -> (String, String) {
    (content.to_string(), status.to_string())
}

#[test]
fn a_known_subscription_is_planned() {
    let share = share(vec![]);
    let plan = plan_request(&share, "a", "").unwrap();
    assert_eq!(plan.remote_url(), "http://example/sub");
    assert_eq!(plan.redis_key(), "9b776a7cd1c4c7dd2b4908e839f05d3902ab6722e2a293e846502cd7a4c96321");
    assert!(!plan.raw());
    assert!(plan.sub_override().is_none());
    let plan = plan_request(&share, "h", "other").unwrap();
    assert_eq!(plan.remote_url(), "hello");
    assert_eq!(plan.redis_key(), "2cf24dba5fb0a30e26e83b2ac5b9e29e1b161e5c1fa7425e73043362938b9824");
    assert_eq!(plan.sub_override().unwrap().total(), Some(999));
}

#[test]
fn the_raw_method_has_its_own_key_and_address() {
    let share = share(vec![]);
    let plan = plan_request(&share, "h", "raw").unwrap();
    assert!(plan.raw());
    assert_eq!(plan.remote_url(), "http://raw");
    assert_eq!(plan.redis_key(), "a5f1e35857fcb6964c2c980bfc6811ff1cb9b5311254324478b3ea55c514469e");
    let plan = plan_request(&share, "a", "raw").unwrap();
    assert_eq!(plan.remote_url(), "http://example/sub");
    assert_eq!(plan.redis_key(), "b770e1b6137dd5187c692298d143ae40518b336f142c8dd1515c7fa28b76db6a");
}

#[test]
fn an_unknown_subscription_is_forbidden() {
    let outcome = plan_request(&share(vec![]), "unknown", "").map(|_| ());
    assert_eq!(outcome, Err(ErrorCode::Forbidden));
    let reply = get(Err(ErrorCode::Forbidden));
    assert_eq!(reply.status(), 403);
    assert_eq!(reply.body(), "403 forbidden");
    assert!(reply.headers().is_empty());
}

#[test]
fn each_error_has_its_reply() {
    let cases = [
        (ErrorCode::Forbidden, forbidden(), 403, "403 forbidden"),
        (ErrorCode::InternalServerError, internal_server_error(), 500, "500 internal server error"),
        (ErrorCode::RequestTimeout, request_timeout(), 408, "408 Request Timeout"),
        (ErrorCode::NotAcceptable, not_acceptable(), 406, "406 Not Acceptable"),
    ];
    for (code, built, status, body) in cases {
        let reply = get(Err(code));
        assert_eq!((reply.status(), reply.body()), (status, body));
        assert_eq!((built.status(), built.body()), (status, body));
    }
    assert_eq!(ErrorCode::from(()), ErrorCode::InternalServerError);
    let plain = build_body(418, "teapot");
    assert_eq!((plain.status(), plain.into_body()), (418, "teapot".to_string()));
}

#[test]
fn a_served_subscription_holds_the_injected_groups() {
    let share = share(vec![]);
    let plan = plan_request(&share, "a", "").unwrap();
    let merged = merge_fetched("a", Some(remote()), &share).unwrap();
    let names: Vec<&str> =
        merged.configure.proxy_groups().get_vec().iter().map(|g| g.name()).collect();
    assert_eq!(names, vec!["Force proxy or Direct", "Proxy or Direct", "G"]);
    assert_eq!(merged.configure.proxy_groups().get_vec()[2].proxies(), &vec!["u".to_string()]);
    assert_eq!(merged.configure.rules().get_element(), vec!["MATCH,DIRECT".to_string()]);
    assert_eq!(merged.dropped_records, 1);
    let status = rewrite_status(&plan, String::new());
    let reply = get(respond("a", status, Some("body".to_string())));
    assert_eq!(reply.status(), 200);
    assert_eq!(reply.body(), "body");
    assert_eq!(
        reply.headers(),
        &vec![("content-disposition".to_string(), "attachment; filename=Clash_a.yaml".to_string())]
    );
}

#[test]
fn quota_figures_are_overridden_and_sent() {
    let share = share(vec![]);
    let plan = plan_request(&share, "h", "raw").unwrap();
    let status = rewrite_status(&plan, "upload=1;download=2;total=3;expire=100".to_string());
    assert_eq!(status, "upload=1;download=2;total=999;expire=100");
    let reply = respond("h", status, Some("X".to_string())).unwrap();
    assert_eq!(
        reply.headers(),
        &vec![
            (
                "subscription-userinfo".to_string(),
                "upload=1;download=2;total=999;expire=100".to_string()
            ),
            ("content-disposition".to_string(), "attachment; filename=Clash_h.yaml".to_string()),
        ]
    );
    let plain = plan_request(&share, "a", "").unwrap();
    assert_eq!(rewrite_status(&plain, "total=3;x".to_string()), "total=3;x");
}

#[test]
fn what_cannot_be_served_is_an_error() {
    let share_ok = share(vec![]);
    assert_eq!(merge_fetched("a", None, &share_ok).map(|_| ()), Err(ErrorCode::NotAcceptable));
    assert_eq!(parse_remote_configure(None).map(|_| ()), Err(ErrorCode::NotAcceptable));
    let nameless: serde_yaml::Value = serde_yaml::from_str("type: ss\n").unwrap();
    let share_bad = share(vec![nameless]);
    assert_eq!(
        merge_fetched("a", Some(remote()), &share_bad).map(|_| ()),
        Err(ErrorCode::InternalServerError)
    );
    assert_eq!(respond("a", String::new(), None).map(|_| ()), Err(ErrorCode::InternalServerError));
    let parsed = parse_remote_configure(Some(remote())).unwrap();
    assert_eq!(parsed.proxy_groups().get_vec()[0].proxies(), &vec!["u".to_string()]);
}

#[test]
fn query_method_defaults_to_empty() {
    assert_eq!(QueryParams::new(None).method(), "");
    assert_eq!(QueryParams::new(Some("raw".into())).method(), "raw");
}

#[test]
fn envelope_holds_content_and_status() {
    let cache = FileCache::new(pair("X", "upload=1;download=2;total=3"));
    assert_eq!(cache.content(), "X");
    assert_eq!(cache.remote_status(), "upload=1;download=2;total=3");
    assert_eq!(cache.timestamp(), None);
    assert!(cache.is_fresh(u64::MAX));
    let stamped = cache.clone().stamped(1000);
    assert_eq!(stamped.timestamp(), Some(1000));
    assert!(stamped.is_fresh(1010));
    assert!(stamped.is_fresh(1600));
    assert!(!stamped.is_fresh(1601));
    assert!(stamped.is_fresh(999));
    assert_eq!(CACHE_TIME, 600);
}

#[test]
fn a_fresh_entry_is_served_without_a_fetch() {
    let begin = FetchEvent::Begin { store_reachable: true, cache_disabled: false };
    let (state, action) = read_or_fetch(FetchState::Start, begin);
    assert_eq!(state, FetchState::Probing);
    assert!(matches!(action, FetchAction::AskExists));
    let (state, action) = read_or_fetch(state, FetchEvent::Exists(Some(true)));
    assert_eq!(state, FetchState::Reading);
    assert!(matches!(action, FetchAction::ReadEntry));
    let held = FileCache::new(pair("X", "upload=1;download=2;total=3")).stamped(1000);
    let (state, action) = read_or_fetch(state, FetchEvent::Entry { envelope: Some(held), now: 1010 });
    assert_eq!(state, FetchState::Done);
    match action {
        FetchAction::Return(cache) => {
            assert_eq!(cache.content(), "X");
            assert_eq!(cache.remote_status(), "upload=1;download=2;total=3");
        }
        _ => panic!("not served from the store"),
    }
}

#[test]
fn a_stale_or_missing_entry_is_fetched_once_and_written_back() {
    let held = FileCache::new(pair("old", "")).stamped(1000);
    let (state, action) =
        read_or_fetch(FetchState::Reading, FetchEvent::Entry { envelope: Some(held), now: 1601 });
    assert_eq!(state, FetchState::Fetching { write_back: true });
    assert!(matches!(action, FetchAction::FetchOrigin));
    let (state, action) = read_or_fetch(state, FetchEvent::Fetched(Some(pair("new", "q"))));
    assert_eq!(state, FetchState::Done);
    match action {
        FetchAction::ReturnFetched { envelope, write_back } => {
            assert!(write_back);
            assert_eq!(envelope.content(), "new");
            assert_eq!(envelope.remote_status(), "q");
        }
        _ => panic!("not fetched"),
    }
    for event in [
        FetchEvent::Exists(Some(false)),
        FetchEvent::Exists(None),
    ] {
        let (state, action) = read_or_fetch(FetchState::Probing, event);
        assert_eq!(state, FetchState::Fetching { write_back: true });
        assert!(matches!(action, FetchAction::FetchOrigin));
    }
    let (state, action) =
        read_or_fetch(FetchState::Reading, FetchEvent::Entry { envelope: None, now: 0 });
    assert_eq!(state, FetchState::Fetching { write_back: true });
    assert!(matches!(action, FetchAction::FetchOrigin));
}

#[test]
fn without_the_store_the_origin_is_asked() {
    for (reachable, disabled) in [(false, false), (false, true), (true, true)] {
        let begin = FetchEvent::Begin { store_reachable: reachable, cache_disabled: disabled };
        let (state, action) = read_or_fetch(FetchState::Start, begin);
        assert_eq!(state, FetchState::Fetching { write_back: reachable });
        assert!(matches!(action, FetchAction::FetchOrigin));
    }
}

#[test]
fn a_failed_fetch_is_a_timeout_and_a_stray_event_an_internal_error() {
    let (state, action) =
        read_or_fetch(FetchState::Fetching { write_back: false }, FetchEvent::Fetched(None));
    assert_eq!(state, FetchState::Done);
    assert!(matches!(action, FetchAction::Fail(ErrorCode::RequestTimeout)));
    let (state, action) = read_or_fetch(FetchState::Done, FetchEvent::Exists(Some(true)));
    assert_eq!(state, FetchState::Done);
    assert!(matches!(action, FetchAction::Fail(ErrorCode::InternalServerError)));
    let (_, action) = read_or_fetch(FetchState::Start, FetchEvent::Fetched(Some(pair("a", "b"))));
    assert!(matches!(action, FetchAction::Fail(ErrorCode::InternalServerError)));
}

#[test]
fn the_watcher_decides_by_name_and_kind() {
    let event = |names: &[&str], kind, rescan| {
        FileEvent::new(names.iter().map(|s| s.as_bytes().to_vec()).collect(), kind, rescan)
    };
    assert!(decide(b"config.yaml", &event(&["x", "config.yaml"], FileEventKind::CloseWrite, false)));
    assert!(decide(b"config.yaml", &event(&["config.yaml"], FileEventKind::Create, false)));
    assert!(decide(b"config.yaml", &event(&["config.yaml"], FileEventKind::Other, true)));
    assert!(!decide(b"config.yaml", &event(&["config.yaml"], FileEventKind::Other, false)));
    assert!(!decide(b"config.yaml", &event(&["other.yaml"], FileEventKind::CloseWrite, true)));
    assert!(!decide(b"config.yaml", &event(&[], FileEventKind::Create, true)));
    assert!(!decide(b"config.yaml", &event(&["config.yam", "config.yamlx"], FileEventKind::Create, true)));
    let odd = FileEvent::new(vec![vec![0xff, 0xfe]], FileEventKind::Create, false);
    assert!(decide(&[0xff, 0xfe], &odd));
    assert!(!decide(&[0xff, 0xfd], &odd));
}

#[test]
fn requests_to_update_coalesce_in_the_mailbox() {
    let mut mailbox = Mailbox::new();
    assert_eq!(mailbox.take(), None);
    assert!(mailbox.post(UpdateConfigureEvent::NeedUpdate));
    assert!(!mailbox.post(UpdateConfigureEvent::NeedUpdate));
    assert!(!mailbox.post(UpdateConfigureEvent::NeedUpdate));
    assert_eq!(mailbox.take(), Some(UpdateConfigureEvent::NeedUpdate));
    assert_eq!(mailbox.take(), None);
    assert!(mailbox.post(UpdateConfigureEvent::NeedUpdate));
    assert!(!mailbox.post(UpdateConfigureEvent::Terminate));
    assert!(!mailbox.post(UpdateConfigureEvent::NeedUpdate));
    assert_eq!(mailbox.take(), Some(UpdateConfigureEvent::Terminate));
    assert_eq!(mailbox.take(), None);
}

#[test]
fn shutdown_goes_through_its_phases() {
    assert_eq!(on_signal(Phase::Serving, Signal::Interrupt), (Phase::Draining, Order::BeginShutdown));
    assert_eq!(on_signal(Phase::Draining, Signal::Interrupt), (Phase::Finished, Order::Exit(137)));
    assert_eq!(FORCED_EXIT_CODE, 137);
    assert_eq!(on_signal(Phase::Draining, Signal::ServerEnded), (Phase::Closing, Order::Nothing));
    assert_eq!(on_signal(Phase::Serving, Signal::ServerEnded), (Phase::Closing, Order::Nothing));
    assert_eq!(on_signal(Phase::Closing, Signal::ReloaderEnded), (Phase::Finished, Order::Leave));
    assert_eq!(on_signal(Phase::Closing, Signal::Interrupt), (Phase::Finished, Order::Abandon));
    assert_eq!(on_signal(Phase::Serving, Signal::ReloaderEnded), (Phase::Serving, Order::Nothing));
    assert_eq!(on_signal(Phase::Finished, Signal::Interrupt), (Phase::Finished, Order::Nothing));
}
