use kiro_provider::error::ProviderError;
use kiro_provider::provider::same_proxy;
use kiro_provider::provider::EndpointRegistry;
use kiro_provider::provider::KiroProvider;
use kiro_provider::provider::ProxyConfig;

type Provider = KiroProvider<&'static str, String, &'static str>;

/// A client is written as the proxy and the timeout that it was built for.
fn build(proxy: &Option<ProxyConfig>, timeout: u64) -> Result<String, String> {
    match proxy {
        Some(p) if p.url == "bad" => Err(String::from("no client")),
        Some(p) => Ok(format!("{}@{}", p.url, timeout)),
        None => Ok(format!("direct@{}", timeout)),
    }
}

fn proxy(url: &str) -> Option<ProxyConfig> {
    Some(ProxyConfig { url: url.to_string(), username: None, password: None })
}

fn registry() -> EndpointRegistry<&'static str> {
    let mut endpoints = EndpointRegistry::new();
    endpoints.insert("ide".to_string(), "the ide");
    endpoints.insert("cli".to_string(), "the cli");
    endpoints
}

fn provider(global: Option<ProxyConfig>) -> Provider {
    KiroProvider::with_proxy("tm", global, registry(), "ide".to_string(), build).unwrap()
}

#[test]
fn test_update_default_endpoint() {
    let mut provider = provider(None);

    let endpoint = provider.endpoint_for(None).unwrap();
    assert_eq!(*endpoint, "the ide");

    provider.update_default_endpoint("cli".to_string()).unwrap();
    let endpoint = provider.endpoint_for(None).unwrap();
    assert_eq!(*endpoint, "the cli");

    provider.update_default_endpoint("ide".to_string()).unwrap();
    let endpoint = provider.endpoint_for(None).unwrap();
    assert_eq!(*endpoint, "the ide");

    let result = provider.update_default_endpoint("unknown".to_string());
    assert!(result.is_err());
    assert!(result.unwrap_err().message().contains("未知端点"));
    assert_eq!(*provider.endpoint_for(None).unwrap(), "the ide");
}

#[test]
fn test_endpoint_for_respects_credential_override() {
    let mut provider = provider(None);

    let endpoint = provider.endpoint_for(Some("cli")).unwrap();
    assert_eq!(*endpoint, "the cli");

    provider.update_default_endpoint("ide".to_string()).unwrap();
    let endpoint = provider.endpoint_for(Some("cli")).unwrap();
    assert_eq!(*endpoint, "the cli");
}

#[test]
fn unknown_endpoint_of_a_credential() {
    let provider = provider(None);
    let error = provider.endpoint_for(Some("web")).unwrap_err();
    assert!(matches!(&error, ProviderError::UnknownEndpoint { name } if name == "web"));
    assert_eq!(error.message(), "未知端点: web");
}

#[test]
fn new_provider_has_the_default_endpoints() {
    let provider: Provider = KiroProvider::new("tm", "I", "C", build).unwrap();
    assert_eq!(*provider.endpoint_for(None).unwrap(), "I");
    assert_eq!(*provider.endpoint_for(Some("ide")).unwrap(), "I");
    assert_eq!(*provider.endpoint_for(Some("cli")).unwrap(), "C");
    assert_eq!(*provider.token_manager(), "tm");
}

#[test]
fn provider_without_a_client() {
    let r: Result<Provider, String> =
        KiroProvider::with_proxy("tm", proxy("bad"), registry(), "cli".to_string(), build);
    assert!(matches!(r, Err(e) if e == "no client"));
}

#[test]
fn registry_keeps_one_endpoint_per_name() {
    let mut endpoints = registry();
    endpoints.insert("ide".to_string(), "other");
    assert_eq!(endpoints.get("ide"), Some(&"other"));
    assert!(endpoints.contains_key("cli"));
    assert!(!endpoints.contains_key("IDE"));
    assert_eq!(endpoints.get(""), None);
}

#[test]
fn credentials_under_the_global_proxy_share_the_default_client() {
    let mut provider = provider(proxy("global"));
    assert_eq!(provider.get_client_for_credential(1, &proxy("global"), build), "global@720");
    let no_build = |_: &Option<ProxyConfig>, _: u64| -> Result<String, String> { panic!("built") };
    assert_eq!(provider.get_client_for_credential(1, &proxy("global"), no_build), "global@720");
}

#[test]
fn credentials_with_their_own_proxy_keep_their_client() {
    let mut provider = provider(proxy("global"));
    assert_eq!(provider.get_client_for_credential(1, &proxy("own"), build), "own@720");
    assert_eq!(provider.get_client_for_credential(2, &None, build), "direct@720");
    let no_build = |_: &Option<ProxyConfig>, _: u64| -> Result<String, String> { panic!("built") };
    assert_eq!(provider.get_client_for_credential(1, &proxy("own"), no_build), "own@720");
    assert_eq!(provider.get_client_for_credential(2, &None, no_build), "direct@720");
}

#[test]
fn a_credential_that_moves_to_another_proxy_gets_a_new_client() {
    let mut provider = provider(proxy("global"));
    let no_build = |_: &Option<ProxyConfig>, _: u64| -> Result<String, String> { panic!("built") };
    assert_eq!(provider.get_client_for_credential(7, &proxy("own"), build), "own@720");
    assert_eq!(provider.get_client_for_credential(8, &proxy("own"), build), "own@720");
    assert_eq!(provider.get_client_for_credential(7, &proxy("moved"), build), "moved@720");
    assert_eq!(provider.get_client_for_credential(7, &proxy("moved"), no_build), "moved@720");
    assert_eq!(provider.get_client_for_credential(8, &proxy("own"), no_build), "own@720");
    assert_eq!(provider.get_client_for_credential(7, &proxy("global"), no_build), "global@720");
    assert_eq!(provider.get_client_for_credential(7, &proxy("moved"), no_build), "moved@720");
    assert_eq!(provider.get_client_for_credential(7, &proxy("bad"), build), "global@720");
    assert_eq!(provider.get_client_for_credential(7, &proxy("own"), build), "own@720");
}

#[test]
fn a_changed_login_needs_a_new_client() {
    let mut provider = provider(None);
    let with_login = |user: &str, pass: &str| {
        Some(ProxyConfig {
            url: "own".to_string(),
            username: Some(user.to_string()),
            password: Some(pass.to_string()),
        })
    };
    let by_login = |p: &Option<ProxyConfig>, _: u64| -> Result<String, String> {
        let p = p.as_ref().unwrap();
        Ok(format!("{:?}{:?}", p.username, p.password))
    };
    let first = provider.get_client_for_credential(1, &with_login("u", "p"), by_login);
    let second = provider.get_client_for_credential(1, &with_login("u", "q"), by_login);
    assert_eq!(first, "Some(\"u\")Some(\"p\")");
    assert_eq!(second, "Some(\"u\")Some(\"q\")");
}

#[test]
fn default_client_stands_in_for_one_that_cannot_be_built() {
    let mut provider = provider(None);
    assert_eq!(provider.get_client_for_credential(7, &proxy("bad"), build), "direct@720");
    let no_build = |_: &Option<ProxyConfig>, _: u64| -> Result<String, String> { panic!("built") };
    assert_eq!(provider.get_client_for_credential(7, &proxy("bad"), no_build), "direct@720");
}

#[test]
fn a_new_global_proxy_forgets_the_clients() {
    let mut provider = provider(None);
    assert_eq!(provider.get_client_for_credential(1, &proxy("a"), build), "a@720");
    provider.update_global_proxy(proxy("b"), build).unwrap();
    assert_eq!(provider.get_client_for_credential(2, &proxy("b"), build), "b@720");
    assert_eq!(provider.get_client_for_credential(1, &proxy("c"), build), "c@720");
}

#[test]
fn a_bad_global_proxy_changes_nothing() {
    let mut provider = provider(proxy("a"));
    assert_eq!(provider.get_client_for_credential(1, &proxy("own"), build), "own@720");
    assert_eq!(provider.update_global_proxy(proxy("bad"), build), Err(String::from("no client")));
    assert_eq!(provider.get_client_for_credential(2, &proxy("a"), build), "a@720");
    let no_build = |_: &Option<ProxyConfig>, _: u64| -> Result<String, String> { panic!("built") };
    assert_eq!(provider.get_client_for_credential(1, &proxy("own"), no_build), "own@720");
}

#[test]
fn proxies_differ_in_any_part() {
    let full = |url: &str, user: Option<&str>, pass: Option<&str>| {
        Some(ProxyConfig {
            url: url.to_string(),
            username: user.map(String::from),
            password: pass.map(String::from),
        })
    };
    assert!(same_proxy(&None, &None));
    assert!(same_proxy(&full("u", Some("a"), Some("b")), &full("u", Some("a"), Some("b"))));
    assert!(!same_proxy(&full("u", Some("a"), Some("b")), &full("v", Some("a"), Some("b"))));
    assert!(!same_proxy(&full("u", Some("a"), Some("b")), &full("u", None, Some("b"))));
    assert!(!same_proxy(&full("u", Some("a"), Some("b")), &full("u", Some("a"), Some("c"))));
    assert!(!same_proxy(&full("u", None, None), &None));
}

#[test]
fn the_global_proxy_can_be_asked_for() {
    let mut provider = provider(None);
    assert!(provider.global_proxy().is_none());
    provider.update_global_proxy(proxy("a"), build).unwrap();
    assert_eq!(provider.global_proxy().map(|p| p.url.as_str()), Some("a"));
}
