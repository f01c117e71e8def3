use meow::adapter::{
    connect_over_unsupported, look_up_members, MeowError, Proxy, ProxyAdapter,
};
use meow::health::{DelayHistory, ProxyHealth};
use meow::metadata::Metadata;
use meow::session::Session;
use meow::addr::SocketAddr;

struct Leaf {
    health: ProxyHealth,
}

struct Group {
    leaf: Leaf,
    names: Vec<String>,
}

fn map() -> Vec<(String, String)> {
    ["a", "b", "c"].iter().map(|n| (n.to_string(), format!("proxy {n}"))).collect()
}

fn pairs(list: Vec<(String, String)>) -> String {
    list.iter().map(|(n, p)| format!("{n}={p};")).collect()
}

fn names(list: &[&str]) -> Vec<String> {
    list.iter().map(|n| n.to_string()).collect()
}

impl ProxyAdapter for Group {
    type AdapterType = u8;
    type Handle = String;
    type Health = ProxyHealth;

    fn name(&self) -> &str {
        "group"
    }
    fn adapter_type(&self) -> u8 {
        2
    }
    fn addr(&self) -> &str {
        ""
    }
    fn support_udp(&self) -> bool {
        false
    }
    fn health(&self) -> &ProxyHealth {
        self.leaf.health()
    }
}

impl Proxy for Group {
    fn alive(&self) -> bool {
        self.leaf.alive()
    }
    fn alive_for_url(&self, url: &str) -> bool {
        self.leaf.alive_for_url(url)
    }
    fn last_delay(&self) -> u16 {
        self.leaf.last_delay()
    }
    fn last_delay_for_url(&self, url: &str) -> u16 {
        self.leaf.last_delay_for_url(url)
    }
    fn delay_history(&self) -> Vec<DelayHistory> {
        self.leaf.delay_history()
    }
    fn members(&self) -> Option<Vec<String>> {
        Some(self.names.clone())
    }
}

impl ProxyAdapter for Leaf {
    type AdapterType = u8;
    type Handle = String;
    type Health = ProxyHealth;

    fn name(&self) -> &str {
        "leaf"
    }
    fn adapter_type(&self) -> u8 {
        1
    }
    fn addr(&self) -> &str {
        "127.0.0.1:1"
    }
    fn support_udp(&self) -> bool {
        false
    }
    fn health(&self) -> &ProxyHealth {
        &self.health
    }
}

impl Proxy for Leaf {
    fn alive(&self) -> bool {
        self.health.alive()
    }
    fn alive_for_url(&self, _url: &str) -> bool {
        self.health.alive()
    }
    fn last_delay(&self) -> u16 {
        self.health.last_delay()
    }
    fn last_delay_for_url(&self, _url: &str) -> u16 {
        self.health.last_delay()
    }
    fn delay_history(&self) -> Vec<DelayHistory> {
        self.health.delay_history()
    }
}

#[test]
fn a_leaf_adapter_has_no_members() {
    let leaf = Leaf { health: ProxyHealth::new() };
    let session =
        Session::redir(SocketAddr::any(1), SocketAddr::any(2), "in".to_string(), false);
    let metadata: &Metadata = session.metadata();
    assert!(leaf.unwrap_proxy(metadata).is_none());
    assert!(leaf.members().is_none());
    assert!(leaf.member_proxies(&map()).is_none());
    assert!(leaf.current().is_none());
    assert!(leaf.alive());
    assert!(leaf.health().alive());
}

#[test]
fn connecting_over_a_stream_is_refused_by_name() {
    match connect_over_unsupported("leaf") {
        MeowError::NotSupported(text) => assert_eq!(text, "leaf: connect_over not supported"),
    }
}

#[test]
fn a_group_finds_its_members_in_the_proxy_map() {
    let leaf = Leaf { health: ProxyHealth::new() };
    let group = Group { leaf, names: names(&["c", "a"]) };
    assert_eq!(pairs(group.member_proxies(&map()).unwrap()), "c=proxy c;a=proxy a;");
}

#[test]
fn members_are_looked_up_by_name_in_order() {
    assert_eq!(pairs(look_up_members(&names(&["b", "a", "b"]), &map())), "b=proxy b;a=proxy a;b=proxy b;");
    assert_eq!(pairs(look_up_members(&names(&["x", "c", "y"]), &map())), "c=proxy c;");
    assert_eq!(pairs(look_up_members(&names(&[]), &map())), "");
}
