use namecheap_cli::domain::{split_clean_domain, split_domain};
use namecheap_cli::response::{
    check_api_response_errors, parse_dns_get_hosts_response, parse_domain_check_response,
    parse_domain_get_info_response, parse_domain_get_list_response, ResponseError, Stage,
};

#[test]
fn test_split_domain() {
    assert_eq!(split_domain("example.com"), ("example".into(), "com".into()));
    assert_eq!(
        split_domain("sub.example.com"),
        ("example".into(), "com".into())
    );
    assert_eq!(
        split_domain("spacecorps.co.uk"),
        ("spacecorps".into(), "co.uk".into())
    );
    assert_eq!(
        split_domain("app.spacecorps.co.uk"),
        ("spacecorps".into(), "co.uk".into())
    );
    assert_eq!(
        split_domain("domain.com.au"),
        ("domain".into(), "com.au".into())
    );
}

#[test]
fn test_check_api_response_errors() {
    let error_xml = r#"<?xml version="1.0" encoding="utf-8"?>
<ApiResponse Status="ERROR" xmlns="http://api.namecheap.com/xml.response">
  <Errors>
    <Error Number="2011166">Client IP address is not whitelisted</Error>
  </Errors>
</ApiResponse>"#;

    let err = check_api_response_errors(error_xml).unwrap_err();
    assert!(err.message().contains("2011166"));
    assert!(err.message().contains("Client IP address is not whitelisted"));

    let ok_xml = r#"<?xml version="1.0" encoding="utf-8"?>
<ApiResponse Status="OK" xmlns="http://api.namecheap.com/xml.response">
  <Errors />
</ApiResponse>"#;
    assert!(check_api_response_errors(ok_xml).is_ok());
}

#[test]
fn test_parse_domain_check() {
    let xml = r#"<?xml version="1.0" encoding="utf-8"?>
<ApiResponse Status="OK" xmlns="http://api.namecheap.com/xml.response">
  <CommandResponse Type="namecheap.domains.check">
    <DomainCheckResult Domain="available-domain123.com" Available="true" IsPremiumName="false" PremiumRegistrationPrice="0" />
    <DomainCheckResult Domain="google.com" Available="false" IsPremiumName="false" PremiumRegistrationPrice="0" />
  </CommandResponse>
</ApiResponse>"#;

    let res = parse_domain_check_response(xml).unwrap();
    assert_eq!(res.len(), 2);
    assert_eq!(res[0].domain, "available-domain123.com");
    assert!(res[0].available);
    assert_eq!(res[1].domain, "google.com");
    assert!(!res[1].available);
}

#[test]
fn test_parse_domain_get_list() {
    let xml = r#"<?xml version="1.0" encoding="utf-8"?>
<ApiResponse Status="OK" xmlns="http://api.namecheap.com/xml.response">
  <CommandResponse Type="namecheap.domains.getList">
    <DomainGetListResult>
      <Domain ID="987" Name="my-cool-site.com" User="user1" Created="01/01/2024" Expires="01/01/2028" IsExpired="false" IsLocked="true" AutoRenew="true" WhoisGuard="ENABLED" />
    </DomainGetListResult>
    <Paging>
      <TotalItems>1</TotalItems>
      <CurrentPage>1</CurrentPage>
      <PageSize>20</PageSize>
    </Paging>
  </CommandResponse>
</ApiResponse>"#;

    let (items, paging) = parse_domain_get_list_response(xml).unwrap();
    assert_eq!(items.len(), 1);
    assert_eq!(items[0].name, "my-cool-site.com");
    assert_eq!(items[0].id, 987);
    assert_eq!(paging.total_items, 1);
}

#[test]
fn test_parse_dns_hosts() {
    let xml = r#"<?xml version="1.0" encoding="utf-8"?>
<ApiResponse Status="OK" xmlns="http://api.namecheap.com/xml.response">
  <CommandResponse Type="namecheap.domains.dns.getHosts">
    <DomainDNSGetHostsResult Domain="my-cool-site.com" IsUsingOurDNS="true">
      <host HostId="1" Name="@" Type="A" Address="1.2.3.4" MXPref="10" TTL="1800" />
      <host HostId="2" Name="www" Type="CNAME" Address="my-cool-site.com." MXPref="10" TTL="1800" />
    </DomainDNSGetHostsResult>
  </CommandResponse>
</ApiResponse>"#;

    let hosts = parse_dns_get_hosts_response(xml).unwrap();
    assert_eq!(hosts.len(), 2);
    assert_eq!(hosts[0].name, "@");
    assert_eq!(hosts[0].record_type, "A");
    assert_eq!(hosts[0].address, "1.2.3.4");
    assert_eq!(hosts[1].name, "www");
    assert_eq!(hosts[1].record_type, "CNAME");
}

#[test]
fn split_domain_cleans_before_splitting() {
    assert_eq!(split_domain("  WWW.Example.COM.. "), ("example".into(), "com".into()));
    assert_eq!(split_domain("localhost"), ("localhost".into(), String::new()));
    assert_eq!(split_domain("shop.co.nz"), ("shop".into(), "co.nz".into()));
    assert_eq!(split_domain(".com"), (String::new(), "com".into()));
    assert_eq!(split_domain(""), (String::new(), String::new()));
    assert_eq!(split_domain("ÀÉ.Example.FR"), ("example".into(), "fr".into()));
    assert_eq!(split_domain("ÉCOLE.fr"), ("école".into(), "fr".into()));
}

#[test]
fn split_clean_domain_rebuilds_the_end_of_the_name() {
    let clean = "a.b.example.org.uk";
    let (label, tld) = split_clean_domain(clean);
    assert_eq!((label.as_str(), tld.as_str()), ("example", "org.uk"));
    assert!(clean.ends_with(&format!("{}.{}", label, tld)));
    assert!(!label.contains('.'));
}

#[test]
fn api_errors_are_collected_and_joined() {
    let xml = r#"<ApiResponse Status="ERROR"><Errors><Error Number="1">first</Error><Error>  second  </Error><Error></Error></Errors></ApiResponse>"#;
    match check_api_response_errors(xml) {
        Err(ResponseError::Api { errors }) => {
            assert_eq!(errors, vec!["[1] first".to_string(), "second".to_string()]);
        }
        _ => panic!("expected API errors"),
    }
    let err = check_api_response_errors(xml).unwrap_err();
    assert_eq!(err.message(), "Namecheap API error: [1] first; second");
}

#[test]
fn malformed_xml_is_reported_per_stage() {
    let xml = "<ApiResponse><Errors></Wrong></ApiResponse>";
    match check_api_response_errors(xml) {
        Err(ResponseError::Xml { stage: Stage::Envelope, detail }) => assert!(!detail.is_empty()),
        _ => panic!("expected an XML error"),
    }
    assert!(check_api_response_errors(xml)
        .unwrap_err()
        .message()
        .starts_with("Failed to parse XML response: "));
    assert!(parse_dns_get_hosts_response(xml)
        .unwrap_err()
        .message()
        .starts_with("XML error parsing DNS hosts: "));
    assert!(parse_domain_check_response(xml)
        .unwrap_err()
        .message()
        .starts_with("XML error parsing domain check: "));
    assert!(parse_domain_get_list_response(xml)
        .unwrap_err()
        .message()
        .starts_with("XML error parsing domain list: "));
    assert!(parse_domain_get_info_response(xml, "x.com")
        .unwrap_err()
        .message()
        .starts_with("XML error parsing domain info: "));
}

#[test]
fn domain_check_keeps_price_text_and_skips_unnamed_results() {
    let xml = r#"<R><DomainCheckResult Domain="p.io" available="TRUE" IsPremiumName="true" PremiumRegistrationPrice="12.5" PremiumRenewalPrice="x" IcannFee="0.18"/><DomainCheckResult Available="true"/></R>"#;
    let res = parse_domain_check_response(xml).unwrap();
    assert_eq!(res.len(), 1);
    assert_eq!(res[0].domain, "p.io");
    assert!(res[0].available);
    assert!(res[0].is_premium);
    assert_eq!(res[0].premium_registration_price.as_deref(), Some("12.5"));
    assert_eq!(res[0].premium_renewal_price.as_deref(), Some("x"));
    assert_eq!(res[0].icann_fee.as_deref(), Some("0.18"));
}

#[test]
fn hosts_keys_are_lowercased_and_defaults_apply() {
    let xml = r#"<R><Host HOSTID="7" NAME="mail" TYPE="MX" ADDRESS="mx.example.com" MXPREF="5"/><host Name="a" TTL="bad" HostId="-1"/></R>"#;
    let hosts = parse_dns_get_hosts_response(xml).unwrap();
    assert_eq!(hosts.len(), 2);
    assert_eq!(hosts[0].host_id, Some(7));
    assert_eq!(hosts[0].name, "mail");
    assert_eq!(hosts[0].record_type, "MX");
    assert_eq!(hosts[0].mx_pref, Some(5));
    assert_eq!(hosts[0].ttl, 1800);
    assert_eq!(hosts[1].host_id, None);
    assert_eq!(hosts[1].address, "");
    assert_eq!(hosts[1].ttl, 1800);
}

#[test]
fn domain_list_paging_defaults() {
    let xml = r#"<R><Paging><TotalItems> 45 </TotalItems><CurrentPage>abc</CurrentPage><PageSize>+10</PageSize></Paging></R>"#;
    let (items, paging) = parse_domain_get_list_response(xml).unwrap();
    assert!(items.is_empty());
    assert_eq!(paging.total_items, 45);
    assert_eq!(paging.current_page, 1);
    assert_eq!(paging.page_size, 10);
    let (_, empty) = parse_domain_get_list_response("<R/>").unwrap();
    assert_eq!((empty.total_items, empty.current_page, empty.page_size), (0, 1, 20));
}

#[test]
fn domain_info_reads_details() {
    let xml = r#"<ApiResponse><CommandResponse>
<DomainGetInfoResult Status="Ok" ID="42" DomainName="x.com">
  <DomainDetails><CreatedDate>01/02/2020</CreatedDate><ExpiredDate>01/02/2030</ExpiredDate></DomainDetails>
  <LockDetails><IsLocked>True</IsLocked></LockDetails>
  <Whoisguard Enabled="True"></Whoisguard>
  <DnsDetails ProviderType="FREE" IsUsingOurDNS="false">
    <Nameserver>dns1.registrar-servers.com</Nameserver>
    <Nameserver> </Nameserver>
    <Nameserver>dns2.registrar-servers.com</Nameserver>
  </DnsDetails>
</DomainGetInfoResult></CommandResponse></ApiResponse>"#;
    let info = parse_domain_get_info_response(xml, "x.com").unwrap();
    assert_eq!(info.id, 42);
    assert_eq!(info.name, "x.com");
    assert_eq!(info.status, "Ok");
    assert_eq!(info.created_date, "01/02/2020");
    assert_eq!(info.expired_date, "01/02/2030");
    assert!(info.is_locked);
    assert!(info.whois_guard_enabled);
    assert!(!info.is_using_our_dns);
    assert_eq!(
        info.nameservers,
        vec!["dns1.registrar-servers.com".to_string(), "dns2.registrar-servers.com".to_string()]
    );
    let bare = parse_domain_get_info_response("<R/>", "y.net").unwrap();
    assert_eq!(bare.status, "Unknown");
    assert_eq!(bare.id, 0);
}

#[test]
fn split_ignores_ascii_case_and_padding() {
    let plain = split_domain("app.spacecorps.co.uk");
    assert_eq!(split_domain("APP.SpaceCorps.CO.UK"), plain);
    assert_eq!(split_domain(" \tapp.spacecorps.co.uk... \t"), plain);
    assert_eq!(split_domain("x.co.uk"), ("x".into(), "co.uk".into()));
    assert_eq!(split_domain("a.b.co"), ("b".into(), "co".into()));
}
