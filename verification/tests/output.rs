use namecheap_cli::config::ConfigFile;
use namecheap_cli::models::{DnsHostRecord, DomainCheckResult, DomainInfo, DomainItem, PagingInfo};
use namecheap_cli::output::{
    config_show_lines, dash_line, dns_hosts_header, dns_hosts_row, dns_hosts_title, domain_check_header,
    domain_check_lines, domain_check_row, domain_info_lines, domain_list_footer, domain_list_header, domain_list_lines,
    domain_list_row, dns_hosts_lines, total_pages,
};

#[test]
fn check_table_matches_format_widths() {
    assert_eq!(domain_check_header(), format!("{:<35} {:<15} {:<10} {:<15}", "DOMAIN", "STATUS", "PREMIUM", "PRICE"));
    assert_eq!(dash_line(75), format!("{:-<75}", ""));
    let r = DomainCheckResult {
        domain: "free.com".into(),
        available: true,
        is_premium: false,
        premium_registration_price: None,
        premium_renewal_price: None,
        icann_fee: None,
    };
    assert_eq!(domain_check_row(&r, None), format!("{:<35} {:<15} {:<10} {:<15}", "free.com", "AVAILABLE", "NO", "Standard"));
    assert_eq!(domain_check_row(&r, Some("$12.50")), format!("{:<35} {:<15} {:<10} {:<15}", "free.com", "AVAILABLE", "NO", "$12.50"));
}

#[test]
fn list_table_and_pages() {
    let d = DomainItem {
        id: 987,
        name: "my-cool-site.com".into(),
        user: "u".into(),
        created: "01/01/2024".into(),
        expires: "01/01/2028".into(),
        is_expired: false,
        is_locked: true,
        auto_renew: true,
        whois_guard: "ENABLED".into(),
    };
    assert_eq!(
        domain_list_header(),
        format!("{:<6} {:<30} {:<12} {:<12} {:<10} {:<10} {:<12}", "ID", "DOMAIN", "EXPIRES", "AUTO-RENEW", "LOCKED", "EXPIRED", "WHOISGUARD")
    );
    assert_eq!(
        domain_list_row(&d),
        format!("{:<6} {:<30} {:<12} {:<12} {:<10} {:<10} {:<12}", 987, "my-cool-site.com", "01/01/2028", "Yes", "Yes", "No", "ENABLED")
    );
    let p = PagingInfo { total_items: 45, current_page: 2, page_size: 20 };
    assert_eq!(total_pages(&p), 3);
    assert_eq!(domain_list_footer(&p), "\nPage 2 of 3 (Total domains: 45)");
    assert_eq!(total_pages(&PagingInfo { total_items: 5, current_page: 1, page_size: 0 }), 4);
    assert_eq!(total_pages(&PagingInfo { total_items: 0, current_page: 1, page_size: 20 }), 0);
}

#[test]
fn hosts_table_and_titles() {
    let h = DnsHostRecord { host_id: None, name: "www".into(), record_type: "CNAME".into(), address: "x.com.".into(), mx_pref: None, ttl: 1800 };
    assert_eq!(dns_hosts_row(&h), format!("{:<8} {:<15} {:<10} {:<35} {:<8} {:<8}", "-", "www", "CNAME", "x.com.", "-", 1800));
    assert_eq!(dns_hosts_header(), format!("{:<8} {:<15} {:<10} {:<35} {:<8} {:<8}", "ID", "HOST", "TYPE", "VALUE / TARGET", "MX PREF", "TTL"));
    assert_eq!(dns_hosts_title("a.com", true), "No DNS host records configured for a.com.");
    assert_eq!(dns_hosts_title("a.com", false), "DNS Records for a.com:");
}

#[test]
fn info_and_config_lines() {
    let info = DomainInfo {
        id: 5,
        name: "a.com".into(),
        status: "Ok".into(),
        created_date: "c".into(),
        expired_date: "e".into(),
        is_locked: false,
        whois_guard_enabled: true,
        is_using_our_dns: true,
        nameservers: vec!["ns1".into()],
    };
    let lines = domain_info_lines(&info);
    assert_eq!(lines.len(), 11);
    assert_eq!(lines[2], "  ID:               5");
    assert_eq!(lines[7], "  WhoisGuard:       Enabled");
    assert_eq!(lines[8], "  Using Our DNS:    Yes (Namecheap BasicDNS)");
    assert_eq!(lines[9], "  Nameservers (1):");
    assert_eq!(lines[10], "    - ns1");
    let c = ConfigFile { api_user: Some("bob".into()), api_key: Some("k".into()), client_ip: None, sandbox: None };
    let lines = config_show_lines(&c);
    assert_eq!(lines[0], "  API User:  bob");
    assert_eq!(lines[1], "  API Key:   ******** (configured)");
    assert_eq!(lines[2], "  Client IP: <not configured>");
    assert_eq!(lines[3], "  Sandbox:   false (production API)");
}

#[test]
fn check_lines_in_order() {
    let free = DomainCheckResult {
        domain: "free.com".into(),
        available: true,
        is_premium: true,
        premium_registration_price: Some("12.5".into()),
        premium_renewal_price: None,
        icann_fee: None,
    };
    let taken = DomainCheckResult {
        domain: "google.com".into(),
        available: false,
        is_premium: false,
        premium_registration_price: None,
        premium_renewal_price: None,
        icann_fee: None,
    };
    let lines = domain_check_lines(&vec![(free, Some("$12.50".to_string())), (taken, None)]);
    assert_eq!(lines.len(), 4);
    assert_eq!(lines[0], format!("{:<35} {:<15} {:<10} {:<15}", "DOMAIN", "STATUS", "PREMIUM", "PRICE"));
    assert_eq!(lines[1], "-".repeat(75));
    assert_eq!(lines[2], format!("{:<35} {:<15} {:<10} {:<15}", "free.com", "AVAILABLE", "YES", "$12.50"));
    assert_eq!(lines[3], format!("{:<35} {:<15} {:<10} {:<15}", "google.com", "TAKEN", "NO", "-"));
    assert_eq!(domain_check_lines(&vec![]).len(), 2);
}

#[test]
fn list_lines_empty_and_full() {
    let p = PagingInfo { total_items: 0, current_page: 1, page_size: 0 };
    assert_eq!(domain_list_lines(&vec![], &p), vec!["No domains found.".to_string()]);
    let d = DomainItem {
        id: 1,
        name: "a.com".into(),
        user: "u".into(),
        created: "c".into(),
        expires: "e".into(),
        is_expired: true,
        is_locked: false,
        auto_renew: false,
        whois_guard: "NOTPRESENT".into(),
    };
    let p = PagingInfo { total_items: 21, current_page: 1, page_size: 20 };
    let lines = domain_list_lines(&vec![d.clone(), d], &p);
    assert_eq!(lines.len(), 5);
    assert_eq!(lines[1], "-".repeat(95));
    assert_eq!(lines[2], format!("{:<6} {:<30} {:<12} {:<12} {:<10} {:<10} {:<12}", 1, "a.com", "e", "No", "No", "Yes", "NOTPRESENT"));
    assert_eq!(lines[4], "\nPage 1 of 2 (Total domains: 21)");
}

#[test]
fn hosts_lines_empty_and_full() {
    assert_eq!(dns_hosts_lines("a.com", &vec![]), vec!["No DNS host records configured for a.com.".to_string()]);
    let h = DnsHostRecord { host_id: Some(7), name: "@".into(), record_type: "MX".into(), address: "mx.a.com".into(), mx_pref: Some(10), ttl: 60 };
    let lines = dns_hosts_lines("a.com", &vec![h]);
    assert_eq!(lines.len(), 4);
    assert_eq!(lines[0], "DNS Records for a.com:");
    assert_eq!(lines[2], "-".repeat(88));
    assert_eq!(lines[3], format!("{:<8} {:<15} {:<10} {:<35} {:<8} {:<8}", 7, "@", "MX", "mx.a.com", 10, 60));
}
