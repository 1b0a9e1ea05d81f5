//! The parameters of each API call, and how the answers of the calls that
//! change DNS settings are read.

use vstd::prelude::*;
use crate::config::NamecheapConfig;
use crate::domain::{clean_domain, dot_free, is_two_part, lemma_split_domain_parts, split_clean, split_domain};
use crate::models::{DnsHostRecord, DnsHostView, host_views, texts};
use crate::number::{decimal, format_u32, format_u64};
use crate::text::{ascii_lowercase, contains_seq, contains_str, is_ascii, is_ws, join, join_strings};

verus! {

/// One `name=value` form field of a request.
pub type Param = (String, String);

pub open spec fn param_views(ps: Seq<Param>) -> Seq<(Seq<char>, Seq<char>)> {
    ps.map_values(|p: Param| (p.0@, p.1@))
}

/// A call of the API: its command name and its own parameters.
pub struct ApiRequest {
    pub command: String,
    pub params: Vec<Param>,
}

fn param(name: &str, value: String) -> (p: Param)
    ensures
        p.0@ == name@,
        p.1@ == value@,
{
    (String::from_str(name), value)
}

/// The full form of a request (`send_request`): the credentials, the user
/// name (the API user again), the command and the client IP, then the call's
/// own parameters.
pub open spec fn form_fields(
    config: crate::config::NamecheapConfigView,
    command: Seq<char>,
    extra: Seq<(Seq<char>, Seq<char>)>,
) -> Seq<(Seq<char>, Seq<char>)> {
    seq![
        ("ApiUser"@, config.api_user),
        ("ApiKey"@, config.api_key),
        ("UserName"@, config.api_user),
        ("Command"@, command),
        ("ClientIp"@, config.client_ip),
    ] + extra
}

/// The form fields a request is posted with.
pub fn request_form(config: &NamecheapConfig, request: &ApiRequest) -> (form: Vec<Param>)
    ensures
        param_views(form@) == form_fields(config@, request.command@, param_views(request.params@)),
{
    let mut form: Vec<Param> = Vec::new();
    form.push(param("ApiUser", config.api_user.clone()));
    form.push(param("ApiKey", config.api_key.clone()));
    form.push(param("UserName", config.api_user.clone()));
    form.push(param("Command", request.command.clone()));
    form.push(param("ClientIp", config.client_ip.clone()));
    let ghost head = param_views(form@);
    let mut i: usize = 0;
    while i < request.params.len()
        invariant
            i <= request.params.len(),
            head == seq![
                ("ApiUser"@, config@.api_user),
                ("ApiKey"@, config@.api_key),
                ("UserName"@, config@.api_user),
                ("Command"@, request.command@),
                ("ClientIp"@, config@.client_ip),
            ],
            param_views(form@) == head + param_views(request.params@).take(i as int),
        decreases request.params.len() - i,
    {
        let ghost before = param_views(form@);
        let p = &request.params[i];
        form.push((p.0.clone(), p.1.clone()));
        assert(param_views(request.params@).take(i + 1) =~= param_views(request.params@).take(i as int).push(
            (p.0@, p.1@),
        ));
        assert(param_views(form@) =~= before.push((p.0@, p.1@)));
        i = i + 1;
    }
    assert(param_views(request.params@).take(request.params.len() as int) =~= param_views(request.params@));
    form
}

/// `check_domains`: no call for an empty list (the answer is then empty);
/// else `namecheap.domains.check` with the domains joined by commas.
pub fn check_domains_request(domain_list: &Vec<String>) -> (r: Option<ApiRequest>)
    ensures
        domain_list.len() == 0 ==> r is None,
        domain_list.len() > 0 ==> (r matches Some(req) && req.command@ == "namecheap.domains.check"@
            && param_views(req.params@) == seq![("DomainList"@, join(texts(domain_list@), ","@))]),
{
    if domain_list.len() == 0 {
        return None;
    }
    let csv = join_strings(domain_list, ",");
    let mut params: Vec<Param> = Vec::new();
    params.push(param("DomainList", csv));
    assert(param_views(params@) =~= seq![("DomainList"@, join(texts(domain_list@), ","@))]);
    Some(ApiRequest { command: String::from_str("namecheap.domains.check"), params })
}

/// `list_domains`: `namecheap.domains.getList` with the page, the page size,
/// and the search term and sort order when given.
pub fn list_domains_request(page: u32, page_size: u32, search_term: Option<&str>, sort_by: Option<&str>) -> (r:
    ApiRequest)
    ensures
        r.command@ == "namecheap.domains.getList"@,
        param_views(r.params@) == seq![("Page"@, decimal(page as nat)), ("PageSize"@, decimal(page_size as nat))]
            + match search_term {
            Some(t) => seq![("SearchTerm"@, t@)],
            None => Seq::empty(),
        } + match sort_by {
            Some(s) => seq![("SortBy"@, s@)],
            None => Seq::empty(),
        },
{
    let mut params: Vec<Param> = Vec::new();
    params.push(param("Page", format_u32(page)));
    params.push(param("PageSize", format_u32(page_size)));
    let ghost base = param_views(params@);
    match search_term {
        Some(t) => {
            params.push(param("SearchTerm", String::from_str(t)));
        },
        None => {},
    }
    let ghost mid = param_views(params@);
    match sort_by {
        Some(s) => {
            params.push(param("SortBy", String::from_str(s)));
        },
        None => {},
    }
    assert(param_views(params@) =~= seq![("Page"@, decimal(page as nat)), ("PageSize"@, decimal(page_size as nat))]
        + match search_term {
        Some(t) => seq![("SearchTerm"@, t@)],
        None => Seq::<(Seq<char>, Seq<char>)>::empty(),
    } + match sort_by {
        Some(s) => seq![("SortBy"@, s@)],
        None => Seq::<(Seq<char>, Seq<char>)>::empty(),
    });
    ApiRequest { command: String::from_str("namecheap.domains.getList"), params }
}

/// `get_domain_info`: `namecheap.domains.getInfo` for the domain.
pub fn domain_info_request(domain: &str) -> (r: ApiRequest)
    ensures
        r.command@ == "namecheap.domains.getInfo"@,
        param_views(r.params@) == seq![("DomainName"@, domain@)],
{
    let mut params: Vec<Param> = Vec::new();
    params.push(param("DomainName", String::from_str(domain)));
    assert(param_views(params@) =~= seq![("DomainName"@, domain@)]);
    ApiRequest { command: String::from_str("namecheap.domains.getInfo"), params }
}

/// The `SLD` and `TLD` fields of a domain's DNS calls.
pub open spec fn sld_tld(domain: Seq<char>) -> Seq<(Seq<char>, Seq<char>)> {
    seq![("SLD"@, split_clean(clean_domain(domain)).0), ("TLD"@, split_clean(clean_domain(domain)).1)]
}

fn sld_tld_params(domain: &str) -> (ps: Vec<Param>)
    ensures
        param_views(ps@) == sld_tld(domain@),
{
    let (sld, tld) = split_domain(domain);
    let mut ps: Vec<Param> = Vec::new();
    ps.push(param("SLD", sld));
    ps.push(param("TLD", tld));
    assert(param_views(ps@) =~= sld_tld(domain@));
    ps
}

/// `get_dns_hosts`: `namecheap.domains.dns.getHosts` for the domain's SLD and
/// TLD.
pub fn dns_hosts_request(domain: &str) -> (r: ApiRequest)
    ensures
        r.command@ == "namecheap.domains.dns.getHosts"@,
        param_views(r.params@) == sld_tld(domain@),
{
    ApiRequest { command: String::from_str("namecheap.domains.dns.getHosts"), params: sld_tld_params(domain) }
}

/// The fields of the record numbered `n` (from 1): host name, type, address,
/// MX preference when it has one, TTL.
pub open spec fn record_fields(r: DnsHostView, n: nat) -> Seq<(Seq<char>, Seq<char>)> {
    seq![("HostName"@ + decimal(n), r.name), ("RecordType"@ + decimal(n), r.record_type), ("Address"@ + decimal(n), r.address)]
        + match r.mx_pref {
        Some(mx) => seq![("MXPref"@ + decimal(n), decimal(mx as nat))],
        None => Seq::empty(),
    } + seq![("TTL"@ + decimal(n), decimal(r.ttl as nat))]
}

/// The fields of all records, numbered from 1 in order.
pub open spec fn records_fields(rs: Seq<DnsHostView>) -> Seq<(Seq<char>, Seq<char>)>
    decreases rs.len(),
{
    if rs.len() == 0 {
        Seq::empty()
    } else {
        records_fields(rs.drop_last()) + record_fields(rs.last(), rs.len())
    }
}

fn numbered(name: &str, n: &String, value: String) -> (p: Param)
    ensures
        p.0@ == name@ + n@,
        p.1@ == value@,
{
    let mut key = String::from_str(name);
    key.append(n.as_str());
    (key, value)
}

/// `set_dns_hosts`: `namecheap.domains.dns.setHosts` with the domain's SLD and
/// TLD, then the numbered fields of every record; the records replace all the
/// domain's records.
pub fn set_dns_hosts_request(domain: &str, records: &Vec<DnsHostRecord>) -> (r: ApiRequest)
    ensures
        r.command@ == "namecheap.domains.dns.setHosts"@,
        param_views(r.params@) == sld_tld(domain@) + records_fields(host_views(records@)),
{
    let ghost all = host_views(records@);
    let mut params = sld_tld_params(domain);
    let mut idx: usize = 0;
    assert(all.take(0) =~= Seq::<DnsHostView>::empty());
    assert(param_views(params@) =~= sld_tld(domain@) + records_fields(all.take(0)));
    while idx < records.len()
        invariant
            idx <= records.len(),
            all == host_views(records@),
            param_views(params@) == sld_tld(domain@) + records_fields(all.take(idx as int)),
        decreases records.len() - idx,
    {
        let ghost before = param_views(params@);
        let rec = &records[idx];
        let n = format_u64(idx as u64 + 1);
        params.push(numbered("HostName", &n, rec.name.clone()));
        params.push(numbered("RecordType", &n, rec.record_type.clone()));
        params.push(numbered("Address", &n, rec.address.clone()));
        match rec.mx_pref {
            Some(mx) => {
                params.push(numbered("MXPref", &n, format_u32(mx)));
            },
            None => {},
        }
        params.push(numbered("TTL", &n, format_u32(rec.ttl)));
        proof {
            let t = all.take(idx + 1);
            assert(t.drop_last() =~= all.take(idx as int));
            assert(t.last() == rec@);
            assert(param_views(params@) =~= before + record_fields(rec@, (idx + 1) as nat));
        }
        idx = idx + 1;
    }
    assert(all.take(records.len() as int) =~= all);
    ApiRequest { command: String::from_str("namecheap.domains.dns.setHosts"), params }
}

/// `set_nameservers`: `namecheap.domains.dns.setCustom` with the domain's SLD
/// and TLD and the name servers joined by commas.
pub fn set_nameservers_request(domain: &str, nameservers: &Vec<String>) -> (r: ApiRequest)
    ensures
        r.command@ == "namecheap.domains.dns.setCustom"@,
        param_views(r.params@) == sld_tld(domain@) + seq![("Nameservers"@, join(texts(nameservers@), ","@))],
{
    let mut params = sld_tld_params(domain);
    let ghost before = param_views(params@);
    params.push(param("Nameservers", join_strings(nameservers, ",")));
    assert(param_views(params@) =~= before + seq![("Nameservers"@, join(texts(nameservers@), ","@))]);
    ApiRequest { command: String::from_str("namecheap.domains.dns.setCustom"), params }
}

/// `set_default_nameservers`: `namecheap.domains.dns.setDefault` with the
/// domain's SLD and TLD.
pub fn set_default_nameservers_request(domain: &str) -> (r: ApiRequest)
    ensures
        r.command@ == "namecheap.domains.dns.setDefault"@,
        param_views(r.params@) == sld_tld(domain@),
{
    ApiRequest { command: String::from_str("namecheap.domains.dns.setDefault"), params: sld_tld_params(domain) }
}

/// Whether the API accepted a `setHosts` call: its answer says
/// `IsSuccess="true"`.
pub fn set_hosts_succeeded(body: &str) -> (ok: bool)
    ensures
        ok == contains_seq(body@, "IsSuccess=\"true\""@),
{
    contains_str(body, "IsSuccess=\"true\"")
}

/// Whether the API accepted a `setCustom` call: its answer says
/// `Update="true"` or `IsSuccess="true"`.
pub fn set_custom_succeeded(body: &str) -> (ok: bool)
    ensures
        ok == (contains_seq(body@, "Update=\"true\""@) || contains_seq(body@, "IsSuccess=\"true\""@)),
{
    contains_str(body, "Update=\"true\"") || contains_str(body, "IsSuccess=\"true\"")
}

/// Whether the API accepted a `setDefault` call: its answer says
/// `Updated="true"` or `IsSuccess="true"`.
pub fn set_default_succeeded(body: &str) -> (ok: bool)
    ensures
        ok == (contains_seq(body@, "Updated=\"true\""@) || contains_seq(body@, "IsSuccess=\"true\""@)),
{
    contains_str(body, "Updated=\"true\"") || contains_str(body, "IsSuccess=\"true\"")
}

} // verus!

verus! {

proof fn lemma_contains_concat<A>(a: Seq<A>, b: Seq<A>, x: A)
    ensures
        a.contains(x) ==> (a + b).contains(x),
        b.contains(x) ==> (a + b).contains(x),
{
    if a.contains(x) {
        let i = choose|i: int| 0 <= i < a.len() && a[i] == x;
        assert((a + b)[i] == x);
    }
    if b.contains(x) {
        let i = choose|i: int| 0 <= i < b.len() && b[i] == x;
        assert((a + b)[a.len() + i] == x);
    }
}

/// The fields `setHosts` is sent carry every record under its own number,
/// counted from 1 in order: its host name as `HostNameN`, its type as
/// `RecordTypeN`, its address as `AddressN`, its TTL in decimal as `TTLN`, and
/// its MX preference in decimal as `MXPrefN` when it has one.
pub proof fn lemma_records_fields_carry_each_record(rs: Seq<DnsHostView>, j: int)
    requires
        0 <= j < rs.len(),
    ensures
        ({
            let f = records_fields(rs);
            let n = decimal((j + 1) as nat);
            &&& f.contains(("HostName"@ + n, rs[j].name))
            &&& f.contains(("RecordType"@ + n, rs[j].record_type))
            &&& f.contains(("Address"@ + n, rs[j].address))
            &&& f.contains(("TTL"@ + n, decimal(rs[j].ttl as nat)))
            &&& (forall|mx: u32| rs[j].mx_pref == Some(mx) ==> f.contains(("MXPref"@ + n, decimal(mx as nat))))
        }),
    decreases rs.len(),
{
    let p = rs.drop_last();
    let n = decimal((j + 1) as nat);
    let a = records_fields(p);
    let b = record_fields(rs.last(), rs.len());
    assert(records_fields(rs) == a + b);
    let x1 = ("HostName"@ + n, rs[j].name);
    let x2 = ("RecordType"@ + n, rs[j].record_type);
    let x3 = ("Address"@ + n, rs[j].address);
    let x4 = ("TTL"@ + n, decimal(rs[j].ttl as nat));
    if j < rs.len() - 1 {
        lemma_records_fields_carry_each_record(p, j);
        assert(p[j] == rs[j]);
        lemma_contains_concat(a, b, x1);
        lemma_contains_concat(a, b, x2);
        lemma_contains_concat(a, b, x3);
        lemma_contains_concat(a, b, x4);
        assert forall|mx: u32| rs[j].mx_pref == Some(mx) implies records_fields(rs).contains(("MXPref"@ + n, decimal(mx as nat))) by {
            lemma_contains_concat(a, b, ("MXPref"@ + n, decimal(mx as nat)));
        }
    } else {
        assert(b[0] == x1);
        assert(b[1] == x2);
        assert(b[2] == x3);
        assert(b[b.len() - 1] == x4);
        lemma_contains_concat(a, b, x1);
        lemma_contains_concat(a, b, x2);
        lemma_contains_concat(a, b, x3);
        lemma_contains_concat(a, b, x4);
        assert forall|mx: u32| rs[j].mx_pref == Some(mx) implies records_fields(rs).contains(("MXPref"@ + n, decimal(mx as nat))) by {
            assert(b[3] == ("MXPref"@ + n, decimal(mx as nat)));
            lemma_contains_concat(a, b, ("MXPref"@ + n, decimal(mx as nat)));
        }
    }
}

/// The DNS calls name a domain by its parts: for a name written in lowercase
/// ASCII without whitespace as `p` (empty or ending with a dot), a dot-free
/// label `sld`, a dot and a top-level domain `tld` (see
/// `lemma_split_domain_parts`), the `SLD` field is `sld` and the `TLD` field is
/// `tld`.
pub proof fn lemma_dns_fields_name_the_parts(p: Seq<char>, sld: Seq<char>, tld: Seq<char>)
    requires
        sld.len() > 0,
        dot_free(sld),
        (tld.len() > 0 && dot_free(tld)) || is_two_part(tld),
        !is_two_part(sld + "."@ + tld),
        p.len() == 0 || p.last() == '.',
        is_ascii(p + sld + "."@ + tld),
        ascii_lowercase(p + sld + "."@ + tld) == p + sld + "."@ + tld,
        forall|j: int| 0 <= j < (p + sld + "."@ + tld).len() ==> !is_ws(#[trigger] (p + sld + "."@ + tld)[j]),
    ensures
        sld_tld(p + sld + "."@ + tld) == seq![("SLD"@, sld), ("TLD"@, tld)],
{
    lemma_split_domain_parts(p, sld, tld);
}

} // verus!
