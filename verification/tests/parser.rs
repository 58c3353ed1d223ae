use clashrw::parser::configure::default_test_url;
use clashrw::parser::http_configure::get_default_redis_server;
use clashrw::parser::remote_configure::{
    collect_template_names, default_port, default_redir_port, default_socks_port, prune_group,
};
use clashrw::parser::share_config::UpdaterAction;
use clashrw::get_name;
use clashrw::parser::{
    Configure, ExternalConfig, ExternalConfigSub, HttpServerConfigure, Keyword, OverridableValue,
    Proxies, ProxyGroup, ProxyGroups, RemoteConfigure, Rules, ShareConfig, UpStream,
    UpdateConfigureEvent, UrlConfig,
};
use clashrw::{DEFAULT_FORCE_PROXY_OR_DIRECT_NAME, DEFAULT_PROXY_OR_DIRECT_NAME, DIRECT_NAME};

fn strings(items: &[&str]) -> Vec<String> {
    items.iter().map(|s| s.to_string()).collect()
}

fn record(name: &str, password: &str) -> serde_yaml::Value {
    serde_yaml::from_str(&format!("name: {name}\npassword: '{password}'\n")).unwrap()
}

fn configure(upstream: Vec<UpStream>, rules: &[&str], manual: &[&str]) -> Configure {
    Configure::new(
        upstream,
        Rules::new(strings(rules)),
        Proxies(vec![record("p", "x")]),
        Keyword::new(strings(&["f"]), strings(&["ok"])),
        default_test_url(),
        HttpServerConfigure::default(),
        strings(manual),
        vec![ProxyGroup::default()],
        strings(&["a.json,T", "nocomma"]),
    )
}

fn client() -> redis::Client {
    redis::Client::open("redis://127.0.0.1/").unwrap()
}

#[test]
fn group_builders() {
    let relay = ProxyGroup::new_relay("r".into(), "a".into(), "b".into());
    assert_eq!(relay.name(), "r");
    assert_eq!(relay.group_type(), "relay");
    assert_eq!(relay.proxies(), &strings(&["a", "b"]));
    let select = ProxyGroup::new_select("s".into(), strings(&["x"]));
    assert_eq!(select.group_type(), "select");
    let probe = ProxyGroup::new_url_test("u".into(), strings(&["x"]), "http://t".into());
    assert_eq!(probe.group_type(), "url-test");
    assert_eq!(probe.url().unwrap(), "http://t");
    assert_eq!(probe.interval(), Some(600));
    let empty = ProxyGroup::default();
    assert_eq!(empty.name(), "");
    assert!(empty.proxies().is_empty());
    assert!(empty.apply_to().is_empty());
}

#[test]
fn group_members_change_in_place() {
    let mut group = ProxyGroup::new_select("s".into(), strings(&["a", "b", "c"]));
    group.insert(1, "x".into()).insert(0, "y".into());
    assert_eq!(group.proxies(), &strings(&["y", "a", "x", "b", "c"]));
    group.remove(2).remove(0);
    assert_eq!(group.proxies(), &strings(&["a", "b", "c"]));
    group.proxies_mut().push("d".into());
    assert_eq!(group.proxies(), &strings(&["a", "b", "c", "d"]));
    let group = group.insert_direct();
    assert_eq!(group.proxies().last().unwrap(), DIRECT_NAME);
    assert_eq!(group.insert_direct().proxies(), &strings(&["a", "b", "c", "d", "DIRECT", "DIRECT"]));
    assert_eq!(DEFAULT_PROXY_OR_DIRECT_NAME, "Proxy or Direct");
    assert_eq!(DEFAULT_FORCE_PROXY_OR_DIRECT_NAME, "Force proxy or Direct");
}

#[test]
fn group_and_proxy_lists() {
    let mut groups = ProxyGroups::default();
    assert!(groups.get_vec().is_empty());
    groups.set_vec(vec![ProxyGroup::new_select("s".into(), vec![])]);
    assert_eq!(groups.get_vec().len(), 1);
    assert_eq!(groups.clone().get_vec()[0].name(), "s");
    let mut proxies = Proxies(vec![]);
    proxies.set_vec(vec![record("a", "")]);
    assert_eq!(proxies.len(), 1);
    assert_eq!(get_name(&proxies.get_vec()[0]), Some("a".to_string()));
}

#[test]
fn rules_grow_at_both_ends() {
    let mut rules = Rules::new(strings(&["m"]));
    rules.insert_head(strings(&["a", "b"])).append(strings(&["y", "z"]));
    assert_eq!(rules.get_element(), strings(&["a", "b", "m", "y", "z"]));
    assert_eq!(rules.len(), 5);
    assert_eq!(rules.clone().get_element(), rules.get_element());
}

#[test]
fn defaults() {
    assert_eq!(default_port(), 7890);
    assert_eq!(default_socks_port(), 7891);
    assert_eq!(default_redir_port(), 7892);
    assert_eq!(default_test_url(), "http://www.gstatic.com/generate_204");
    assert_eq!(get_default_redis_server(), "redis://127.0.0.1/");
    let http = HttpServerConfigure::default();
    assert_eq!(http.address(), "127.0.0.1");
    assert_eq!(http.port(), 23365);
    assert_eq!(http.redis_address(), "redis://127.0.0.1/");
    let http = HttpServerConfigure::new("0.0.0.0".into(), 80, "redis://r/".into());
    assert_eq!((http.address(), http.port(), http.redis_address()), ("0.0.0.0", 80, "redis://r/"));
}

#[test]
fn optimize_takes_template_names_out_of_groups() {
    let mut remote = RemoteConfigure::new(
        1,
        2,
        3,
        false,
        "rule".into(),
        "info".into(),
        "c".into(),
        "".into(),
        Proxies(vec![record("t1", ""), record("ok", "pw"), record("t2", ""), record("t1", "")]),
        ProxyGroups(vec![
            ProxyGroup::new_select("g1".into(), strings(&["t1", "ok", "t1", "t2", "t1"])),
            ProxyGroup::new_select("g2".into(), strings(&["ok"])),
        ]),
        Rules::new(vec![]),
    );
    assert_eq!(
        collect_template_names(remote.proxies().get_vec()),
        strings(&["t1", "t2", "t1"])
    );
    remote.optimize();
    let groups = remote.proxy_groups().get_vec();
    assert_eq!(groups[0].proxies(), &strings(&["ok", "t1"]));
    assert_eq!(groups[1].proxies(), &strings(&["ok"]));
    assert_eq!(remote.proxies_len(), 4);
    let mut group = ProxyGroup::new_select("g".into(), strings(&["a", "b", "a"]));
    prune_group(&mut group, &strings(&["a", "zz"]));
    assert_eq!(group.proxies(), &strings(&["b", "a"]));
}

#[test]
fn remote_parts_can_be_replaced() {
    let mut remote = RemoteConfigure::new(
        1,
        2,
        3,
        false,
        "GLOBAL".into(),
        "info".into(),
        "c".into(),
        "".into(),
        Proxies(vec![]),
        ProxyGroups(vec![]),
        Rules::new(vec![]),
    );
    remote.mut_rules().append(strings(&["r"]));
    remote.mut_proxies().set_vec(vec![record("a", "b")]);
    remote.mut_proxy_groups().set_vec(vec![ProxyGroup::default()]);
    remote.normalize();
    assert_eq!(remote.rules().get_element(), strings(&["r"]));
    assert_eq!(remote.proxies_len(), 1);
    assert_eq!(remote.proxy_groups().get_vec().len(), 1);
    assert_eq!(remote.mode(), "global");
}

#[test]
fn external_rules_are_written_per_domain() {
    let block = ExternalConfigSub::new(strings(&["a.com", "b.com"]), strings(&["c.org"]), strings(&["^d"]));
    assert_eq!(
        block.transform("T"),
        strings(&["DOMAIN,a.com,T", "DOMAIN,b.com,T", "DOMAIN-SUFFIX,c.org,T", "DOMAIN-REGEX,^d,T"])
    );
    let file = ExternalConfig::new(vec![
        ExternalConfigSub::new(vec![], strings(&["x"]), vec![]),
        ExternalConfigSub::new(vec![], vec![], vec![]),
        ExternalConfigSub::new(strings(&["y"]), vec![], vec![]),
    ]);
    assert_eq!(file.transform("DIRECT"), strings(&["DOMAIN-SUFFIX,x,DIRECT", "DOMAIN,y,DIRECT"]));
    assert!(ExternalConfig::new(vec![]).transform("T").is_empty());
}

#[test]
fn additional_rules_are_absorbed() {
    assert_eq!(Configure::rule_source("a.json,T"), Some(("a.json".to_string(), "T".to_string())));
    assert_eq!(Configure::rule_source("a,b,c"), Some(("a".to_string(), "b,c".to_string())));
    assert_eq!(Configure::rule_source(","), Some((String::new(), String::new())));
    assert_eq!(Configure::rule_source("nocomma"), None);
    let mut local = configure(vec![], &["R"], &[]);
    assert_eq!(local.additional_rules(), &strings(&["a.json,T", "nocomma"]));
    let file = ExternalConfig::new(vec![ExternalConfigSub::new(strings(&["d"]), vec![], strings(&["e"]))]);
    assert_eq!(local.absorb(file, "T"), 2);
    assert_eq!(local.rules().get_element(), strings(&["R", "DOMAIN,d,T", "DOMAIN-REGEX,e,T"]));
    assert_eq!(local.keyword().filter(), &strings(&["f"]));
    assert_eq!(local.keyword().accepted(), &strings(&["ok"]));
    assert_eq!(local.http().port(), 23365);
    assert_eq!(local.proxy_groups().len(), 1);
    assert_eq!(local.proxies().len(), 1);
    assert_eq!(local.test_url(), "http://www.gstatic.com/generate_204");
    assert_eq!(local.clone().need_added_proxy(), Vec::<String>::new());
}

#[test]
fn subscriptions_are_found_by_id() {
    let ov = OverridableValue::new(None, Some(5), None, None);
    let ups = vec![
        UpStream::new("a".into(), "http://one".into(), None, None),
        UpStream::new("b".into(), "http://two".into(), Some("http://raw".into()), Some(ov)),
        UpStream::new("a".into(), "http://three".into(), None, None),
    ];
    assert_eq!(ups[1].sub_id(), "b");
    assert_eq!(ups[1].upstream(), "http://two");
    assert_eq!(ups[1].raw().unwrap(), "http://raw");
    assert_eq!(ups[1].sub_override().unwrap().total(), Some(5));
    let from = UrlConfig::from(&ups[1]);
    assert_eq!(from.upstream(), "http://two");
    assert_eq!(from.raw(), Some("http://raw"));
    assert_eq!(from.sub_override().unwrap().total(), Some(5));
    let table = ShareConfig::upstreams_into_hashmap(&ups);
    assert_eq!(table.len(), 2);
    assert_eq!(table.url_of("a").unwrap().upstream(), "http://three");
    assert!(table.url_of("c").is_none());
    let share = ShareConfig::new(configure(ups, &["r1", "r2"], &["m"]), client());
    assert_eq!(share.search_url("a").unwrap().upstream(), "http://three");
    assert_eq!(share.search_url("b").unwrap().raw(), Some("http://raw"));
    assert!(share.search_url("unknown").is_none());
    assert_eq!(share.briefing(), "Find 2 subscriptions, 2 rules, 1 proxies, 1 groups");
    assert_eq!(share.manual_insert_proxies(), &strings(&["m"]));
    assert_eq!(share.groups().len(), 1);
    assert_eq!(share.keyword().accepted(), &strings(&["ok"]));
    assert_eq!(share.test_url(), "http://www.gstatic.com/generate_204");
    assert_eq!(share.redis_client().get_connection_info().addr().to_string(), "127.0.0.1:6379");
    let new = UrlConfig::new("u".into(), None, None);
    assert_eq!((new.upstream(), new.raw()), ("u", None));
    assert!(new.clone().sub_override().is_none());
}

#[test]
fn a_reload_replaces_everything_or_nothing() {
    let mut share = ShareConfig::new(
        configure(vec![UpStream::new("a".into(), "http://one".into(), None, None)], &["old"], &["m"]),
        client(),
    );
    assert!(!share.reload(None));
    assert_eq!(share.rules().get_element(), strings(&["old"]));
    assert!(share.search_url("a").is_some());
    let next = configure(vec![UpStream::new("b".into(), "http://two".into(), None, None)], &["n1", "n2"], &[]);
    assert!(share.reload(Some(next)));
    assert_eq!(share.rules().get_element(), strings(&["n1", "n2"]));
    assert!(share.search_url("a").is_none());
    assert_eq!(share.search_url("b").unwrap().upstream(), "http://two");
    assert!(share.manual_insert_proxies().is_empty());
    share.update(configure(vec![], &[], &["x"]));
    assert_eq!(share.briefing(), "Find 0 subscriptions, 0 rules, 1 proxies, 1 groups");
    assert_eq!(share.manual_insert_proxies(), &strings(&["x"]));
}

#[test]
fn the_updater_reloads_or_exits() {
    assert_eq!(
        ShareConfig::configure_file_updater(Some(UpdateConfigureEvent::NeedUpdate)),
        UpdaterAction::Reload
    );
    assert_eq!(
        ShareConfig::configure_file_updater(Some(UpdateConfigureEvent::Terminate)),
        UpdaterAction::Exit
    );
    assert_eq!(ShareConfig::configure_file_updater(None), UpdaterAction::Exit);
}
