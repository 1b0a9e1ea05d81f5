//! The records the API's responses describe.

use vstd::prelude::*;

verus! {

/// The availability of one domain. The premium prices and the ICANN fee are
/// kept as the API wrote them; reading them as numbers is left to the caller.
#[derive(Debug, Clone, PartialEq)]
pub struct DomainCheckResult {
    pub domain: String,
    pub available: bool,
    pub is_premium: bool,
    pub premium_registration_price: Option<String>,
    pub premium_renewal_price: Option<String>,
    pub icann_fee: Option<String>,
}

/// One domain of the account's domain list.
#[derive(Debug, Clone, PartialEq)]
pub struct DomainItem {
    pub id: u64,
    pub name: String,
    pub user: String,
    pub created: String,
    pub expires: String,
    pub is_expired: bool,
    pub is_locked: bool,
    pub auto_renew: bool,
    pub whois_guard: String,
}

/// The details of one registered domain.
#[derive(Debug, Clone, PartialEq)]
pub struct DomainInfo {
    pub id: u64,
    pub name: String,
    pub status: String,
    pub created_date: String,
    pub expired_date: String,
    pub is_locked: bool,
    pub whois_guard_enabled: bool,
    pub is_using_our_dns: bool,
    pub nameservers: Vec<String>,
}

/// One DNS host record.
#[derive(Debug, Clone, PartialEq)]
pub struct DnsHostRecord {
    pub host_id: Option<u64>,
    pub name: String,
    pub record_type: String,
    pub address: String,
    pub mx_pref: Option<u32>,
    pub ttl: u32,
}

/// Where a page of the domain list stands.
#[derive(Debug, Clone)]
pub struct PagingInfo {
    pub total_items: u32,
    pub current_page: u32,
    pub page_size: u32,
}

pub struct DomainCheckView {
    pub domain: Seq<char>,
    pub available: bool,
    pub is_premium: bool,
    pub premium_registration_price: Option<Seq<char>>,
    pub premium_renewal_price: Option<Seq<char>>,
    pub icann_fee: Option<Seq<char>>,
}

pub struct DomainItemView {
    pub id: u64,
    pub name: Seq<char>,
    pub user: Seq<char>,
    pub created: Seq<char>,
    pub expires: Seq<char>,
    pub is_expired: bool,
    pub is_locked: bool,
    pub auto_renew: bool,
    pub whois_guard: Seq<char>,
}

pub struct DomainInfoView {
    pub id: u64,
    pub name: Seq<char>,
    pub status: Seq<char>,
    pub created_date: Seq<char>,
    pub expired_date: Seq<char>,
    pub is_locked: bool,
    pub whois_guard_enabled: bool,
    pub is_using_our_dns: bool,
    pub nameservers: Seq<Seq<char>>,
}

pub struct DnsHostView {
    pub host_id: Option<u64>,
    pub name: Seq<char>,
    pub record_type: Seq<char>,
    pub address: Seq<char>,
    pub mx_pref: Option<u32>,
    pub ttl: u32,
}

pub open spec fn text_opt(o: Option<String>) -> Option<Seq<char>> {
    match o {
        Some(s) => Some(s@),
        None => None,
    }
}

pub open spec fn texts(v: Seq<String>) -> Seq<Seq<char>> {
    v.map_values(|s: String| s@)
}

pub open spec fn check_views(v: Seq<DomainCheckResult>) -> Seq<DomainCheckView> {
    v.map_values(|r: DomainCheckResult| r@)
}

pub open spec fn host_views(v: Seq<DnsHostRecord>) -> Seq<DnsHostView> {
    v.map_values(|r: DnsHostRecord| r@)
}

pub open spec fn item_views(v: Seq<DomainItem>) -> Seq<DomainItemView> {
    v.map_values(|r: DomainItem| r@)
}

impl View for DomainCheckResult {
    type V = DomainCheckView;

    open spec fn view(&self) -> DomainCheckView {
        DomainCheckView {
            domain: self.domain@,
            available: self.available,
            is_premium: self.is_premium,
            premium_registration_price: text_opt(self.premium_registration_price),
            premium_renewal_price: text_opt(self.premium_renewal_price),
            icann_fee: text_opt(self.icann_fee),
        }
    }
}

impl View for DomainItem {
    type V = DomainItemView;

    open spec fn view(&self) -> DomainItemView {
        DomainItemView {
            id: self.id,
            name: self.name@,
            user: self.user@,
            created: self.created@,
            expires: self.expires@,
            is_expired: self.is_expired,
            is_locked: self.is_locked,
            auto_renew: self.auto_renew,
            whois_guard: self.whois_guard@,
        }
    }
}

impl View for DomainInfo {
    type V = DomainInfoView;

    open spec fn view(&self) -> DomainInfoView {
        DomainInfoView {
            id: self.id,
            name: self.name@,
            status: self.status@,
            created_date: self.created_date@,
            expired_date: self.expired_date@,
            is_locked: self.is_locked,
            whois_guard_enabled: self.whois_guard_enabled,
            is_using_our_dns: self.is_using_our_dns,
            nameservers: texts(self.nameservers@),
        }
    }
}

impl View for DnsHostRecord {
    type V = DnsHostView;

    open spec fn view(&self) -> DnsHostView {
        DnsHostView {
            host_id: self.host_id,
            name: self.name@,
            record_type: self.record_type@,
            address: self.address@,
            mx_pref: self.mx_pref,
            ttl: self.ttl,
        }
    }
}

impl DnsHostRecord {
    /// A copy of the record.
    pub fn copy(&self) -> (r: DnsHostRecord)
        ensures
            r@ == self@,
    {
        DnsHostRecord {
            host_id: self.host_id,
            name: self.name.clone(),
            record_type: self.record_type.clone(),
            address: self.address.clone(),
            mx_pref: self.mx_pref,
            ttl: self.ttl,
        }
    }
}

} // verus!
