use namecheap_cli::config::{ConfigError, ConfigFile, EnvCredentials, NamecheapConfig};
use namecheap_cli::models::DnsHostRecord;
use namecheap_cli::number::{format_u32, format_u64, parse_u32, parse_u64};
use namecheap_cli::records::{add_host_record, remove_matching_records};
use namecheap_cli::request::{
    check_domains_request, list_domains_request, request_form, set_custom_succeeded,
    set_default_succeeded, set_dns_hosts_request, set_hosts_succeeded, set_nameservers_request,
    dns_hosts_request,
};
use namecheap_cli::text::{contains_str, eq_ignore_ascii_case, trim_str};

fn config(sandbox: bool) -> NamecheapConfig {
    NamecheapConfig {
        api_user: "user".into(),
        api_key: "key".into(),
        client_ip: "1.2.3.4".into(),
        sandbox,
    }
}

#[test]
fn test_base_url() {
    let prod = NamecheapConfig {
        api_user: "user".into(),
        api_key: "key".into(),
        client_ip: "1.2.3.4".into(),
        sandbox: false,
    };
    assert_eq!(prod.base_url(), "https://api.namecheap.com/xml.response");

    let sandbox = NamecheapConfig {
        api_user: "user".into(),
        api_key: "key".into(),
        client_ip: "1.2.3.4".into(),
        sandbox: true,
    };
    assert_eq!(
        sandbox.base_url(),
        "https://api.sandbox.namecheap.com/xml.response"
    );
}

fn no_env() -> EnvCredentials {
    EnvCredentials { api_user: None, api_key: None, client_ip: None, sandbox: None }
}

#[test]
fn numbers_round_trip_and_follow_parse_rules() {
    for n in [0u64, 7, 10, 1800, u64::MAX] {
        assert_eq!(parse_u64(&format_u64(n)), Some(n));
        assert_eq!(format_u64(n), n.to_string());
    }
    assert_eq!(format_u32(u32::MAX), "4294967295");
    assert_eq!(parse_u32("+12"), Some(12));
    assert_eq!(parse_u32("+"), None);
    assert_eq!(parse_u32(""), None);
    assert_eq!(parse_u32("-1"), None);
    assert_eq!(parse_u32(" 1"), None);
    assert_eq!(parse_u32("4294967296"), None);
    assert_eq!(parse_u64("18446744073709551616"), None);
    assert_eq!(parse_u32("007"), Some(7));
}

#[test]
fn text_helpers() {
    assert_eq!(trim_str("\u{3000} a b \t\n"), "a b");
    assert_eq!(trim_str("   "), "");
    assert!(eq_ignore_ascii_case("HostId", "hostid"));
    assert!(!eq_ignore_ascii_case("Straße", "STRASSE"));
    assert!(contains_str("<x IsSuccess=\"true\"/>", "IsSuccess=\"true\""));
    assert!(!contains_str("ab", "abc"));
}

#[test]
fn resolve_prefers_flag_then_env_then_file() {
    let file = ConfigFile {
        api_user: Some("file-user".into()),
        api_key: Some("file-key".into()),
        client_ip: Some("9.9.9.9".into()),
        sandbox: None,
    };
    let env = EnvCredentials {
        api_user: Some("env-user".into()),
        api_key: None,
        client_ip: None,
        sandbox: Some("TRUE".into()),
    };
    let c = NamecheapConfig::resolve(Some("  flag-user ".into()), None, None, false, env, file)
        .ok()
        .unwrap();
    assert_eq!(c.api_user, "flag-user");
    assert_eq!(c.api_key, "file-key");
    assert_eq!(c.client_ip, "9.9.9.9");
    assert!(c.sandbox);
}

#[test]
fn resolve_reports_the_first_missing_credential() {
    let r = NamecheapConfig::resolve(Some("   ".into()), None, None, false, no_env(), ConfigFile::default());
    assert!(matches!(r, Err(ConfigError::MissingApiUser)));
    let r = NamecheapConfig::resolve(Some("u".into()), Some("k".into()), None, false, no_env(), ConfigFile::default());
    match r {
        Err(e) => {
            assert!(matches!(e, ConfigError::MissingClientIp));
            assert!(e.message().starts_with("Client IP is required."));
        }
        Ok(_) => panic!("expected an error"),
    }
    let r = NamecheapConfig::resolve(Some("u".into()), None, Some("i".into()), false, no_env(), ConfigFile::default());
    assert!(matches!(r, Err(ConfigError::MissingApiKey)));
    let env = EnvCredentials { sandbox: Some("yes".into()), ..no_env() };
    let c = NamecheapConfig::resolve(Some("u".into()), Some("k".into()), Some("i".into()), false, env, ConfigFile::default())
        .ok()
        .unwrap();
    assert!(!c.sandbox);
}

#[test]
fn config_set_and_login_update_the_file() {
    let mut file = ConfigFile::default();
    file.apply_set(Some("alice".into()), None, Some("1.1.1.1".into()), Some(false));
    assert_eq!(file.api_user.as_deref(), Some("alice"));
    assert_eq!(file.api_key, None);
    assert_eq!(file.sandbox, Some(false));
    file.apply_login(None, Some("secret".into()), None, true);
    assert_eq!(file.api_user.as_deref(), Some("alice"));
    assert_eq!(file.api_key.as_deref(), Some("secret"));
    assert_eq!(file.sandbox, Some(true));
    file.apply_login(None, None, None, false);
    assert_eq!(file.sandbox, Some(true));
    let c = NamecheapConfig::resolve(None, None, None, false, no_env(), file).unwrap();
    assert_eq!(c.api_user, "alice");
    assert!(c.sandbox);
    assert_eq!(namecheap_cli::config::stdin_api_key("  key\n"), Some("key".to_string()));
    assert_eq!(namecheap_cli::config::stdin_api_key(" \n"), None);
}

fn record(name: &str, rt: &str) -> DnsHostRecord {
    DnsHostRecord {
        host_id: Some(1),
        name: name.into(),
        record_type: rt.into(),
        address: "1.2.3.4".into(),
        mx_pref: None,
        ttl: 1800,
    }
}

#[test]
fn dns_add_appends_and_delete_filters() {
    let existing = vec![record("@", "A"), record("www", "CNAME"), record("WWW", "A")];
    let added = add_host_record(existing, "mail".into(), "MX".into(), "mx.x.com".into(), Some(10), 600);
    assert_eq!(added.len(), 4);
    assert_eq!(added[3].host_id, None);
    assert_eq!(added[3].mx_pref, Some(10));
    assert_eq!(added[3].ttl, 600);
    let kept = remove_matching_records(&added, "www", None);
    assert_eq!(kept.iter().map(|r| r.name.as_str()).collect::<Vec<_>>(), vec!["@", "mail"]);
    let kept = remove_matching_records(&added, "www", Some("a"));
    assert_eq!(kept.len(), 3);
    assert_eq!(kept[1].record_type, "CNAME");
    let kept = remove_matching_records(&added, "nothing", None);
    assert_eq!(kept.len(), added.len());
    let before = vec![record("@", "A"), record("mail", "A")];
    let added = add_host_record(before.clone(), "MAIL".into(), "mx".into(), "m.x.com".into(), None, 300);
    assert_eq!(
        remove_matching_records(&added, "mail", Some("MX")),
        remove_matching_records(&before, "mail", Some("MX"))
    );
}

fn pairs(ps: &[(String, String)]) -> Vec<(&str, &str)> {
    ps.iter().map(|(k, v)| (k.as_str(), v.as_str())).collect()
}

#[test]
fn requests_carry_the_calls_fields() {
    assert!(check_domains_request(&vec![]).is_none());
    let req = check_domains_request(&vec!["a.com".into(), "b.io".into()]).unwrap();
    assert_eq!(req.command, "namecheap.domains.check");
    assert_eq!(pairs(&req.params), vec![("DomainList", "a.com,b.io")]);
    let form = request_form(&config(false), &req);
    assert_eq!(
        pairs(&form),
        vec![
            ("ApiUser", "user"),
            ("ApiKey", "key"),
            ("UserName", "user"),
            ("Command", "namecheap.domains.check"),
            ("ClientIp", "1.2.3.4"),
            ("DomainList", "a.com,b.io"),
        ]
    );
    let req = list_domains_request(2, 50, Some("proj"), None);
    assert_eq!(pairs(&req.params), vec![("Page", "2"), ("PageSize", "50"), ("SearchTerm", "proj")]);
    let req = dns_hosts_request("app.site.co.uk");
    assert_eq!(pairs(&req.params), vec![("SLD", "site"), ("TLD", "co.uk")]);
    let mut mx = record("mail", "MX");
    mx.mx_pref = Some(10);
    let req = set_dns_hosts_request("site.com", &vec![record("@", "A"), mx]);
    assert_eq!(req.command, "namecheap.domains.dns.setHosts");
    assert_eq!(
        pairs(&req.params),
        vec![
            ("SLD", "site"),
            ("TLD", "com"),
            ("HostName1", "@"),
            ("RecordType1", "A"),
            ("Address1", "1.2.3.4"),
            ("TTL1", "1800"),
            ("HostName2", "mail"),
            ("RecordType2", "MX"),
            ("Address2", "1.2.3.4"),
            ("MXPref2", "10"),
            ("TTL2", "1800"),
        ]
    );
    let req = set_nameservers_request("site.com", &vec!["ns1.x.com".into(), "ns2.x.com".into()]);
    assert_eq!(req.command, "namecheap.domains.dns.setCustom");
    assert_eq!(pairs(&req.params)[2], ("Nameservers", "ns1.x.com,ns2.x.com"));
}

#[test]
fn change_answers_are_recognised() {
    assert!(set_hosts_succeeded(r#"<DomainDNSSetHostsResult Domain="a.com" IsSuccess="true"/>"#));
    assert!(!set_hosts_succeeded(r#"<DomainDNSSetHostsResult IsSuccess="false"/>"#));
    assert!(set_custom_succeeded(r#"<DomainDNSSetCustomResult Domain="a.com" Update="true"/>"#));
    assert!(!set_custom_succeeded(r#"<X Updated="true"/>"#));
    assert!(set_default_succeeded(r#"<DomainDNSSetDefaultResult Domain="a.com" Updated="true"/>"#));
    assert!(!set_default_succeeded(r#"<X Update="true"/>"#));
}
