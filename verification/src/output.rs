//! The text the command line prints: tables of domains and DNS records, the
//! details of a domain and the stored configuration, line by line.

use vstd::prelude::*;
use crate::config::{ConfigFile, ConfigFileView};
use crate::models::{
    DnsHostRecord, DnsHostView, DomainCheckResult, DomainCheckView, DomainInfo, DomainInfoView, DomainItem,
    DomainItemView, PagingInfo, host_views, item_views, texts,
};
use crate::number::{decimal, format_u32, format_u64};
use crate::records::str_opt_view;
use crate::text::{join, opt_view};

verus! {

pub open spec fn repeat_char(c: char, n: nat) -> Seq<char> {
    Seq::new(n, |i: int| c)
}

/// `format!("{:<w$}", s)`: the text, then spaces up to `w` characters.
pub open spec fn pad(s: Seq<char>, w: nat) -> Seq<char> {
    if s.len() >= w {
        s
    } else {
        s + repeat_char(' ', (w - s.len()) as nat)
    }
}

/// `n` copies of a one-character text.
fn repeat_str(unit: &str, n: usize) -> (r: String)
    requires
        unit@.len() == 1,
    ensures
        r@ == repeat_char(unit@[0], n as nat),
{
    let mut r = String::new();
    let mut k: usize = 0;
    while k < n
        invariant
            k <= n,
            unit@.len() == 1,
            r@ == repeat_char(unit@[0], k as nat),
        decreases n - k,
    {
        r.append(unit);
        k = k + 1;
        assert(r@ =~= repeat_char(unit@[0], k as nat));
    }
    r
}

/// A rule of `n` dashes (`format!("{:-<n$}", "")`).
pub fn dash_line(n: usize) -> (r: String)
    ensures
        r@ == repeat_char('-', n as nat),
{
    proof {
        reveal_strlit("-");
    }
    repeat_str("-", n)
}

/// `format!("{:<w$}", s)`.
pub fn pad_right(s: &str, w: usize) -> (r: String)
    ensures
        r@ == pad(s@, w as nat),
{
    proof {
        reveal_strlit(" ");
    }
    let n = s.unicode_len();
    let mut r = String::from_str(s);
    if n < w {
        let fill = repeat_str(" ", w - n);
        r.append(fill.as_str());
    }
    r
}

/// A table line: each cell padded to its width, separated by single spaces.
pub open spec fn table_line(cells: Seq<(Seq<char>, nat)>) -> Seq<char> {
    join(cells.map_values(|c: (Seq<char>, nat)| pad(c.0, c.1)), " "@)
}

pub open spec fn cell_views(cells: Seq<(String, usize)>) -> Seq<(Seq<char>, nat)> {
    cells.map_values(|c: (String, usize)| (c.0@, c.1 as nat))
}

/// A table line of the given cells and widths.
pub fn format_table_line(cells: &Vec<(String, usize)>) -> (r: String)
    ensures
        r@ == table_line(cell_views(cells@)),
{
    let ghost all = cell_views(cells@).map_values(|c: (Seq<char>, nat)| pad(c.0, c.1));
    let mut r = String::new();
    let mut i: usize = 0;
    while i < cells.len()
        invariant
            i <= cells.len(),
            all == cell_views(cells@).map_values(|c: (Seq<char>, nat)| pad(c.0, c.1)),
            r@ == join(all.take(i as int), " "@),
        decreases cells.len() - i,
    {
        assert(all.take(i + 1).drop_last() =~= all.take(i as int));
        if i > 0 {
            r.append(" ");
        } else {
            assert(all.take(0).len() == 0);
        }
        let cell = pad_right(cells[i].0.as_str(), cells[i].1);
        r.append(cell.as_str());
        i = i + 1;
    }
    assert(all.take(cells.len() as int) =~= all);
    r
}

fn cell(text: String, width: usize) -> (c: (String, usize))
    ensures
        c.0@ == text@,
        c.1 == width,
{
    (text, width)
}

pub open spec fn yes_no(b: bool) -> Seq<char> {
    if b { "Yes"@ } else { "No"@ }
}

fn yes_no_str(b: bool) -> (r: String)
    ensures
        r@ == yes_no(b),
{
    if b { String::from_str("Yes") } else { String::from_str("No") }
}

/// The header of the domain check table.
pub open spec fn check_header() -> Seq<char> {
    table_line(seq![("DOMAIN"@, 35nat), ("STATUS"@, 15nat), ("PREMIUM"@, 10nat), ("PRICE"@, 15nat)])
}

/// The price column of a domain check row: the premium price as the caller
/// printed it, else `Standard` for an available domain, else `-`.
pub open spec fn price_column(r: DomainCheckView, price: Option<Seq<char>>) -> Seq<char> {
    match price {
        Some(p) => p,
        None => if r.available { "Standard"@ } else { "-"@ },
    }
}

/// A row of the domain check table.
pub open spec fn check_row(r: DomainCheckView, price: Option<Seq<char>>) -> Seq<char> {
    table_line(
        seq![
            (r.domain, 35nat),
            (if r.available { "AVAILABLE"@ } else { "TAKEN"@ }, 15nat),
            (if r.is_premium { "YES"@ } else { "NO"@ }, 10nat),
            (price_column(r, price), 15nat),
        ],
    )
}

/// The header line of the domain check table.
pub fn domain_check_header() -> (r: String)
    ensures
        r@ == check_header(),
{
    let mut cells: Vec<(String, usize)> = Vec::new();
    cells.push(cell(String::from_str("DOMAIN"), 35));
    cells.push(cell(String::from_str("STATUS"), 15));
    cells.push(cell(String::from_str("PREMIUM"), 10));
    cells.push(cell(String::from_str("PRICE"), 15));
    assert(cell_views(cells@) =~= seq![("DOMAIN"@, 35nat), ("STATUS"@, 15nat), ("PREMIUM"@, 10nat), ("PRICE"@, 15nat)]);
    format_table_line(&cells)
}

/// A row of the domain check table; `price` is the premium registration price
/// as printed (`$` and two decimals), when there is one.
pub fn domain_check_row(r: &DomainCheckResult, price: Option<&str>) -> (line: String)
    ensures
        line@ == check_row(r@, str_opt_view(price)),
{
    let status = if r.available { String::from_str("AVAILABLE") } else { String::from_str("TAKEN") };
    let premium = if r.is_premium { String::from_str("YES") } else { String::from_str("NO") };
    let price_col = match price {
        Some(p) => String::from_str(p),
        None => if r.available { String::from_str("Standard") } else { String::from_str("-") },
    };
    let mut cells: Vec<(String, usize)> = Vec::new();
    cells.push(cell(r.domain.clone(), 35));
    cells.push(cell(status, 15));
    cells.push(cell(premium, 10));
    cells.push(cell(price_col, 15));
    assert(cell_views(cells@) =~= seq![
        (r.domain@, 35nat),
        (if r.available { "AVAILABLE"@ } else { "TAKEN"@ }, 15nat),
        (if r.is_premium { "YES"@ } else { "NO"@ }, 10nat),
        (price_column(r@, str_opt_view(price)), 15nat),
    ]);
    assert(table_line(cell_views(cells@)) == check_row(r@, str_opt_view(price)));
    format_table_line(&cells)
}

} // verus!

verus! {

/// The header of the domain list table.
pub open spec fn list_header() -> Seq<char> {
    table_line(
        seq![
            ("ID"@, 6nat),
            ("DOMAIN"@, 30nat),
            ("EXPIRES"@, 12nat),
            ("AUTO-RENEW"@, 12nat),
            ("LOCKED"@, 10nat),
            ("EXPIRED"@, 10nat),
            ("WHOISGUARD"@, 12nat),
        ],
    )
}

/// A row of the domain list table.
pub open spec fn list_row(d: DomainItemView) -> Seq<char> {
    table_line(
        seq![
            (decimal(d.id as nat), 6nat),
            (d.name, 30nat),
            (d.expires, 12nat),
            (yes_no(d.auto_renew), 12nat),
            (yes_no(d.is_locked), 10nat),
            (yes_no(d.is_expired), 10nat),
            (d.whois_guard, 12nat),
        ],
    )
}

pub fn domain_list_header() -> (r: String)
    ensures
        r@ == list_header(),
{
    let mut cells: Vec<(String, usize)> = Vec::new();
    cells.push(cell(String::from_str("ID"), 6));
    cells.push(cell(String::from_str("DOMAIN"), 30));
    cells.push(cell(String::from_str("EXPIRES"), 12));
    cells.push(cell(String::from_str("AUTO-RENEW"), 12));
    cells.push(cell(String::from_str("LOCKED"), 10));
    cells.push(cell(String::from_str("EXPIRED"), 10));
    cells.push(cell(String::from_str("WHOISGUARD"), 12));
    assert(cell_views(cells@) =~= seq![
        ("ID"@, 6nat),
        ("DOMAIN"@, 30nat),
        ("EXPIRES"@, 12nat),
        ("AUTO-RENEW"@, 12nat),
        ("LOCKED"@, 10nat),
        ("EXPIRED"@, 10nat),
        ("WHOISGUARD"@, 12nat),
    ]);
    format_table_line(&cells)
}

pub fn domain_list_row(d: &DomainItem) -> (r: String)
    ensures
        r@ == list_row(d@),
{
    let mut cells: Vec<(String, usize)> = Vec::new();
    cells.push(cell(format_u64(d.id), 6));
    cells.push(cell(d.name.clone(), 30));
    cells.push(cell(d.expires.clone(), 12));
    cells.push(cell(yes_no_str(d.auto_renew), 12));
    cells.push(cell(yes_no_str(d.is_locked), 10));
    cells.push(cell(yes_no_str(d.is_expired), 10));
    cells.push(cell(d.whois_guard.clone(), 12));
    assert(cell_views(cells@) =~= seq![
        (decimal(d.id as nat), 6nat),
        (d.name@, 30nat),
        (d.expires@, 12nat),
        (yes_no(d.auto_renew), 12nat),
        (yes_no(d.is_locked), 10nat),
        (yes_no(d.is_expired), 10nat),
        (d.whois_guard@, 12nat),
    ]);
    format_table_line(&cells)
}

/// The number of pages the domain list has: the total over the page size,
/// rounded up (a page size of 0 counts as 1).
pub open spec fn page_count(total: u32, size: u32) -> int {
    (total + size - 1) / if size > 1 { size as int } else { 1 }
}

/// Whether the page count is computed without leaving `u32`: the count
/// adds the total and the page size and takes one away, which overflows past
/// `u32::MAX` and underflows for an empty list with a page size of 0.
pub open spec fn page_count_fits(total: u32, size: u32) -> bool {
    1 <= total + size <= u32::MAX
}

/// The number of pages of the domain list.
pub fn total_pages(paging: &PagingInfo) -> (n: u32)
    requires
        page_count_fits(paging.total_items, paging.page_size),
    ensures
        n == page_count(paging.total_items, paging.page_size),
{
    let divisor = if paging.page_size > 1 { paging.page_size } else { 1 };
    (paging.total_items + paging.page_size - 1) / divisor
}

/// The line under the domain list table.
pub open spec fn list_footer(p: PagingInfo) -> Seq<char> {
    "\nPage "@ + decimal(p.current_page as nat) + " of "@ + decimal(page_count(p.total_items, p.page_size) as nat)
        + " (Total domains: "@ + decimal(p.total_items as nat) + ")"@
}

pub fn domain_list_footer(paging: &PagingInfo) -> (r: String)
    requires
        page_count_fits(paging.total_items, paging.page_size),
    ensures
        r@ == list_footer(*paging),
{
    let mut r = String::from_str("\nPage ");
    r.append(format_u32(paging.current_page).as_str());
    r.append(" of ");
    r.append(format_u32(total_pages(paging)).as_str());
    r.append(" (Total domains: ");
    r.append(format_u32(paging.total_items).as_str());
    r.append(")");
    r
}

/// The header of the DNS record table.
pub open spec fn hosts_header() -> Seq<char> {
    table_line(
        seq![
            ("ID"@, 8nat),
            ("HOST"@, 15nat),
            ("TYPE"@, 10nat),
            ("VALUE / TARGET"@, 35nat),
            ("MX PREF"@, 8nat),
            ("TTL"@, 8nat),
        ],
    )
}

pub open spec fn opt_number(n: Option<nat>) -> Seq<char> {
    match n {
        Some(v) => decimal(v),
        None => "-"@,
    }
}

pub open spec fn nat_of_u64(o: Option<u64>) -> Option<nat> {
    match o {
        Some(v) => Some(v as nat),
        None => None,
    }
}

pub open spec fn nat_of_u32(o: Option<u32>) -> Option<nat> {
    match o {
        Some(v) => Some(v as nat),
        None => None,
    }
}

/// A row of the DNS record table; a missing id or MX preference shows `-`.
pub open spec fn hosts_row(h: DnsHostView) -> Seq<char> {
    table_line(
        seq![
            (opt_number(nat_of_u64(h.host_id)), 8nat),
            (h.name, 15nat),
            (h.record_type, 10nat),
            (h.address, 35nat),
            (opt_number(nat_of_u32(h.mx_pref)), 8nat),
            (decimal(h.ttl as nat), 8nat),
        ],
    )
}

pub fn dns_hosts_header() -> (r: String)
    ensures
        r@ == hosts_header(),
{
    let mut cells: Vec<(String, usize)> = Vec::new();
    cells.push(cell(String::from_str("ID"), 8));
    cells.push(cell(String::from_str("HOST"), 15));
    cells.push(cell(String::from_str("TYPE"), 10));
    cells.push(cell(String::from_str("VALUE / TARGET"), 35));
    cells.push(cell(String::from_str("MX PREF"), 8));
    cells.push(cell(String::from_str("TTL"), 8));
    assert(cell_views(cells@) =~= seq![
        ("ID"@, 8nat),
        ("HOST"@, 15nat),
        ("TYPE"@, 10nat),
        ("VALUE / TARGET"@, 35nat),
        ("MX PREF"@, 8nat),
        ("TTL"@, 8nat),
    ]);
    format_table_line(&cells)
}

pub fn dns_hosts_row(h: &DnsHostRecord) -> (r: String)
    ensures
        r@ == hosts_row(h@),
{
    let id = match h.host_id {
        Some(v) => format_u64(v),
        None => String::from_str("-"),
    };
    let mx = match h.mx_pref {
        Some(v) => format_u32(v),
        None => String::from_str("-"),
    };
    assert(id@ == opt_number(nat_of_u64(h@.host_id)));
    assert(mx@ == opt_number(nat_of_u32(h@.mx_pref)));
    let mut cells: Vec<(String, usize)> = Vec::new();
    cells.push(cell(id, 8));
    cells.push(cell(h.name.clone(), 15));
    cells.push(cell(h.record_type.clone(), 10));
    cells.push(cell(h.address.clone(), 35));
    cells.push(cell(mx, 8));
    cells.push(cell(format_u32(h.ttl), 8));
    assert(cell_views(cells@) =~= seq![
        (opt_number(nat_of_u64(h@.host_id)), 8nat),
        (h.name@, 15nat),
        (h.record_type@, 10nat),
        (h.address@, 35nat),
        (opt_number(nat_of_u32(h@.mx_pref)), 8nat),
        (decimal(h.ttl as nat), 8nat),
    ]);
    assert(table_line(cell_views(cells@)) == hosts_row(h@));
    format_table_line(&cells)
}

/// The line above the DNS record table, or the one printed instead of it.
pub fn dns_hosts_title(domain: &str, empty: bool) -> (r: String)
    ensures
        r@ == if empty {
            "No DNS host records configured for "@ + domain@ + "."@
        } else {
            "DNS Records for "@ + domain@ + ":"@
        },
{
    if empty {
        let mut r = String::from_str("No DNS host records configured for ");
        r.append(domain);
        r.append(".");
        r
    } else {
        let mut r = String::from_str("DNS Records for ");
        r.append(domain);
        r.append(":");
        r
    }
}

/// The lines describing a domain's details.
pub open spec fn info_lines(i: DomainInfoView) -> Seq<Seq<char>> {
    seq![
        "Domain Details:"@,
        "  Name:             "@ + i.name,
        "  ID:               "@ + decimal(i.id as nat),
        "  Status:           "@ + i.status,
        "  Created:          "@ + i.created_date,
        "  Expires:          "@ + i.expired_date,
        "  Locked:           "@ + yes_no(i.is_locked),
        "  WhoisGuard:       "@ + if i.whois_guard_enabled { "Enabled"@ } else { "Disabled"@ },
        "  Using Our DNS:    "@ + if i.is_using_our_dns { "Yes (Namecheap BasicDNS)"@ } else { "No (Custom DNS)"@ },
        "  Nameservers ("@ + decimal(i.nameservers.len()) + "):"@,
    ] + i.nameservers.map_values(|ns: Seq<char>| "    - "@ + ns)
}

fn labeled(label: &str, value: &str) -> (r: String)
    ensures
        r@ == label@ + value@,
{
    let mut r = String::from_str(label);
    r.append(value);
    r
}

pub fn domain_info_lines(info: &DomainInfo) -> (lines: Vec<String>)
    ensures
        texts(lines@) == info_lines(info@),
{
    let mut lines: Vec<String> = Vec::new();
    lines.push(String::from_str("Domain Details:"));
    lines.push(labeled("  Name:             ", info.name.as_str()));
    lines.push(labeled("  ID:               ", format_u64(info.id).as_str()));
    lines.push(labeled("  Status:           ", info.status.as_str()));
    lines.push(labeled("  Created:          ", info.created_date.as_str()));
    lines.push(labeled("  Expires:          ", info.expired_date.as_str()));
    lines.push(labeled("  Locked:           ", yes_no_str(info.is_locked).as_str()));
    lines.push(labeled("  WhoisGuard:       ", if info.whois_guard_enabled { "Enabled" } else { "Disabled" }));
    lines.push(labeled(
        "  Using Our DNS:    ",
        if info.is_using_our_dns { "Yes (Namecheap BasicDNS)" } else { "No (Custom DNS)" },
    ));
    let mut count = labeled("  Nameservers (", format_u64(info.nameservers.len() as u64).as_str());
    count.append("):");
    lines.push(count);
    let ghost head = texts(lines@);
    let ghost ns = texts(info.nameservers@);
    let mut i: usize = 0;
    while i < info.nameservers.len()
        invariant
            i <= info.nameservers.len(),
            ns == texts(info.nameservers@),
            texts(lines@) == head + ns.map_values(|n: Seq<char>| "    - "@ + n).take(i as int),
        decreases info.nameservers.len() - i,
    {
        let ghost before = texts(lines@);
        lines.push(labeled("    - ", info.nameservers[i].as_str()));
        assert(ns.map_values(|n: Seq<char>| "    - "@ + n).take(i + 1) =~= ns.map_values(
            |n: Seq<char>| "    - "@ + n,
        ).take(i as int).push("    - "@ + ns[i as int]));
        assert(texts(lines@) =~= before.push("    - "@ + ns[i as int]));
        i = i + 1;
    }
    assert(ns.map_values(|n: Seq<char>| "    - "@ + n).take(info.nameservers.len() as int) =~= ns.map_values(
        |n: Seq<char>| "    - "@ + n,
    ));
    assert(texts(lines@) =~= info_lines(info@));
    lines
}

/// The lines `config show` prints after the file's path: the user and client
/// IP, whether a key is stored (never the key), and the default endpoint.
pub open spec fn config_lines(c: ConfigFileView) -> Seq<Seq<char>> {
    seq![
        "  API User:  "@ + match c.api_user { Some(u) => u, None => "<not configured>"@ },
        "  API Key:   "@ + match c.api_key { Some(_) => "******** (configured)"@, None => "<not configured>"@ },
        "  Client IP: "@ + match c.client_ip { Some(u) => u, None => "<not configured>"@ },
        "  Sandbox:   "@ + if c.sandbox == Some(true) { "true (sandbox API)"@ } else { "false (production API)"@ },
    ]
}

pub fn config_show_lines(c: &ConfigFile) -> (lines: Vec<String>)
    ensures
        texts(lines@) == config_lines(c@),
{
    let mut lines: Vec<String> = Vec::new();
    lines.push(labeled("  API User:  ", match &c.api_user {
        Some(u) => u.as_str(),
        None => "<not configured>",
    }));
    lines.push(labeled("  API Key:   ", match &c.api_key {
        Some(_) => "******** (configured)",
        None => "<not configured>",
    }));
    lines.push(labeled("  Client IP: ", match &c.client_ip {
        Some(u) => u.as_str(),
        None => "<not configured>",
    }));
    let on = match c.sandbox {
        Some(b) => b,
        None => false,
    };
    lines.push(labeled("  Sandbox:   ", if on { "true (sandbox API)" } else { "false (production API)" }));
    assert(texts(lines@) =~= config_lines(c@));
    lines
}

/// The views of the rows of a domain check table, each with its price as
/// printed.
pub open spec fn priced_views(rows: Seq<(DomainCheckResult, Option<String>)>) -> Seq<(DomainCheckView, Option<Seq<char>>)> {
    rows.map_values(|r: (DomainCheckResult, Option<String>)| (r.0@, opt_view(r.1)))
}

/// Every line of the domain check table: the header, a rule of 75 dashes,
/// then one row per result, in order.
pub open spec fn check_lines(rows: Seq<(DomainCheckView, Option<Seq<char>>)>) -> Seq<Seq<char>> {
    seq![check_header(), repeat_char('-', 75)] + rows.map_values(
        |r: (DomainCheckView, Option<Seq<char>>)| check_row(r.0, r.1),
    )
}

/// The lines of the domain check table; each result comes with its premium
/// registration price as printed, when it has one.
pub fn domain_check_lines(rows: &Vec<(DomainCheckResult, Option<String>)>) -> (lines: Vec<String>)
    ensures
        texts(lines@) == check_lines(priced_views(rows@)),
{
    let ghost v = priced_views(rows@);
    let ghost body = v.map_values(|r: (DomainCheckView, Option<Seq<char>>)| check_row(r.0, r.1));
    let mut lines: Vec<String> = Vec::new();
    lines.push(domain_check_header());
    lines.push(dash_line(75));
    let ghost head = texts(lines@);
    assert(head =~= seq![check_header(), repeat_char('-', 75)]);
    let mut i: usize = 0;
    while i < rows.len()
        invariant
            i <= rows.len(),
            v == priced_views(rows@),
            body == v.map_values(|r: (DomainCheckView, Option<Seq<char>>)| check_row(r.0, r.1)),
            head == seq![check_header(), repeat_char('-', 75)],
            texts(lines@) == head + body.take(i as int),
        decreases rows.len() - i,
    {
        let ghost before = texts(lines@);
        let price: Option<&str> = match &rows[i].1 {
            Some(p) => Some(p.as_str()),
            None => None,
        };
        assert(str_opt_view(price) == opt_view(rows@[i as int].1));
        let line = domain_check_row(&rows[i].0, price);
        lines.push(line);
        assert(body.take(i + 1) =~= body.take(i as int).push(body[i as int]));
        assert(texts(lines@) =~= before.push(line@));
        i = i + 1;
    }
    assert(body.take(rows.len() as int) =~= body);
    lines
}

/// Every line of the domain list: `No domains found.` alone for an empty
/// list; else the header, a rule of 95 dashes, one row per domain in order,
/// and the page line.
pub open spec fn list_lines(items: Seq<DomainItemView>, paging: PagingInfo) -> Seq<Seq<char>> {
    if items.len() == 0 {
        seq!["No domains found."@]
    } else {
        seq![list_header(), repeat_char('-', 95)] + items.map_values(|d: DomainItemView| list_row(d)) + seq![
            list_footer(paging),
        ]
    }
}

/// The lines of the domain list. The page count is computed only for a list
/// that is not empty, and only then must it stay within `u32`.
pub fn domain_list_lines(items: &Vec<DomainItem>, paging: &PagingInfo) -> (lines: Vec<String>)
    requires
        items@.len() > 0 ==> page_count_fits(paging.total_items, paging.page_size),
    ensures
        texts(lines@) == list_lines(item_views(items@), *paging),
{
    let mut lines: Vec<String> = Vec::new();
    if items.len() == 0 {
        lines.push(String::from_str("No domains found."));
        assert(texts(lines@) =~= seq!["No domains found."@]);
        return lines;
    }
    let ghost body = item_views(items@).map_values(|d: DomainItemView| list_row(d));
    lines.push(domain_list_header());
    lines.push(dash_line(95));
    let ghost head = texts(lines@);
    assert(head =~= seq![list_header(), repeat_char('-', 95)]);
    let mut i: usize = 0;
    while i < items.len()
        invariant
            i <= items.len(),
            body == item_views(items@).map_values(|d: DomainItemView| list_row(d)),
            head == seq![list_header(), repeat_char('-', 95)],
            texts(lines@) == head + body.take(i as int),
        decreases items.len() - i,
    {
        let ghost before = texts(lines@);
        let line = domain_list_row(&items[i]);
        lines.push(line);
        assert(body.take(i + 1) =~= body.take(i as int).push(body[i as int]));
        assert(texts(lines@) =~= before.push(line@));
        i = i + 1;
    }
    assert(body.take(items.len() as int) =~= body);
    let ghost before = texts(lines@);
    let footer = domain_list_footer(paging);
    lines.push(footer);
    assert(texts(lines@) =~= before.push(footer@));
    assert(texts(lines@) =~= list_lines(item_views(items@), *paging));
    lines
}

/// Every line of the DNS record listing: the line saying there are none for
/// an empty list; else the title, the header, a rule of 88 dashes and one row
/// per record, in order.
pub open spec fn hosts_lines(domain: Seq<char>, hosts: Seq<DnsHostView>) -> Seq<Seq<char>> {
    if hosts.len() == 0 {
        seq!["No DNS host records configured for "@ + domain + "."@]
    } else {
        seq!["DNS Records for "@ + domain + ":"@, hosts_header(), repeat_char('-', 88)] + hosts.map_values(
            |h: DnsHostView| hosts_row(h),
        )
    }
}

/// The lines of the DNS record listing of `domain`.
pub fn dns_hosts_lines(domain: &str, hosts: &Vec<DnsHostRecord>) -> (lines: Vec<String>)
    ensures
        texts(lines@) == hosts_lines(domain@, host_views(hosts@)),
{
    let mut lines: Vec<String> = Vec::new();
    if hosts.len() == 0 {
        lines.push(dns_hosts_title(domain, true));
        assert(texts(lines@) =~= hosts_lines(domain@, host_views(hosts@)));
        return lines;
    }
    let ghost body = host_views(hosts@).map_values(|h: DnsHostView| hosts_row(h));
    lines.push(dns_hosts_title(domain, false));
    lines.push(dns_hosts_header());
    lines.push(dash_line(88));
    let ghost head = texts(lines@);
    assert(head =~= seq!["DNS Records for "@ + domain@ + ":"@, hosts_header(), repeat_char('-', 88)]);
    let mut i: usize = 0;
    while i < hosts.len()
        invariant
            i <= hosts.len(),
            body == host_views(hosts@).map_values(|h: DnsHostView| hosts_row(h)),
            head == seq!["DNS Records for "@ + domain@ + ":"@, hosts_header(), repeat_char('-', 88)],
            texts(lines@) == head + body.take(i as int),
        decreases hosts.len() - i,
    {
        let ghost before = texts(lines@);
        let line = dns_hosts_row(&hosts[i]);
        lines.push(line);
        assert(body.take(i + 1) =~= body.take(i as int).push(body[i as int]));
        assert(texts(lines@) =~= before.push(line@));
        i = i + 1;
    }
    assert(body.take(hosts.len() as int) =~= body);
    lines
}

} // verus!
