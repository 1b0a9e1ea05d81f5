//! Reading the XML bodies of Namecheap API responses: the error envelope that
//! every response carries, and the result of each command.

use vstd::prelude::*;
use crate::models::{
    DnsHostRecord, DnsHostView, DomainCheckResult, DomainCheckView, DomainInfo, DomainInfoView, DomainItem,
    DomainItemView, PagingInfo, check_views, host_views, item_views, texts,
};
use crate::number::{decimal, lemma_parse_format_roundtrip, parse_u32, parse_u64, parse_unsigned};
use crate::text::{ascii_lower, eq_ic, eq_ignore_ascii_case, join, join_strings, opt_view, trim, trim_str};
use crate::xml::{
    attr_value_ic, attr_value_lower, attributes_of, element_attributes, lemma_run_at, lemma_run_end, lookup_ic, lookup_lower, read_tokens, run, token_views, xml_tokens,
    ElementView, TokenView, XmlElement, XmlToken,
};

verus! {

/// Which reading of a response failed on malformed XML.
#[derive(Debug)]
pub enum Stage {
    /// The error envelope every response is checked for.
    Envelope,
    DomainCheck,
    DomainList,
    DomainInfo,
    DnsHosts,
}

/// Why a response could not be used.
#[derive(Debug)]
pub enum ResponseError {
    /// The body is not well-formed XML: where, and quick-xml's description.
    Xml { stage: Stage, detail: String },
    /// The API reported errors; their messages, in order.
    Api { errors: Vec<String> },
}

pub open spec fn stage_prefix(stage: Stage) -> Seq<char> {
    match stage {
        Stage::Envelope => "Failed to parse XML response: "@,
        Stage::DomainCheck => "XML error parsing domain check: "@,
        Stage::DomainList => "XML error parsing domain list: "@,
        Stage::DomainInfo => "XML error parsing domain info: "@,
        Stage::DnsHosts => "XML error parsing DNS hosts: "@,
    }
}

impl ResponseError {
    /// The message the command line prints for this error.
    pub open spec fn spec_message(&self) -> Seq<char> {
        match self {
            ResponseError::Xml { stage, detail } => stage_prefix(*stage) + detail@,
            ResponseError::Api { errors } => "Namecheap API error: "@ + join(
                errors@.map_values(|p: String| p@),
                "; "@,
            ),
        }
    }

    /// The message the command line prints for this error.
    pub fn message(&self) -> (m: String)
        ensures
            m@ == self.spec_message(),
    {
        match self {
            ResponseError::Xml { stage, detail } => {
                let mut m = match stage {
                    Stage::Envelope => String::from_str("Failed to parse XML response: "),
                    Stage::DomainCheck => String::from_str("XML error parsing domain check: "),
                    Stage::DomainList => String::from_str("XML error parsing domain list: "),
                    Stage::DomainInfo => String::from_str("XML error parsing domain info: "),
                    Stage::DnsHosts => String::from_str("XML error parsing DNS hosts: "),
                };
                m.append(detail.as_str());
                m
            },
            ResponseError::Api { errors } => {
                let mut m = String::from_str("Namecheap API error: ");
                let joined = join_strings(errors, "; ");
                m.append(joined.as_str());
                m
            },
        }
    }
}

/// Where the reading of the error envelope stands.
pub struct EnvelopeState {
    pub in_errors: bool,
    pub errors: Seq<Seq<char>>,
    pub number: Seq<char>,
    pub text: Seq<char>,
}

/// The message of one `<Error>`: its text, trimmed, after `[number] ` when it
/// has a number.
pub open spec fn error_message(number: Seq<char>, text: Seq<char>) -> Seq<char> {
    if number.len() == 0 {
        trim(text)
    } else {
        "["@ + number + "] "@ + trim(text)
    }
}

/// How one event moves the reading of the error envelope: `<Errors>` opens
/// the list, `<Error Number=..>` starts a message, text inside the list is
/// collected, `</Error>` ends a message (kept when not empty), `</Errors>`
/// closes the list.
pub open spec fn envelope_step(s: EnvelopeState, t: TokenView) -> EnvelopeState {
    match t {
        TokenView::Start(e) => if eq_ic(e.name, "errors"@) {
            EnvelopeState { in_errors: true, ..s }
        } else if s.in_errors && eq_ic(e.name, "error"@) {
            EnvelopeState {
                number: match lookup_ic(attributes_of(e), "number"@) {
                    Some(v) => v,
                    None => Seq::empty(),
                },
                text: Seq::empty(),
                ..s
            }
        } else {
            s
        },
        TokenView::Text(x) => if s.in_errors {
            EnvelopeState { text: s.text + x, ..s }
        } else {
            s
        },
        TokenView::End(n) => if eq_ic(n, "errors"@) {
            EnvelopeState { in_errors: false, ..s }
        } else if s.in_errors && eq_ic(n, "error"@) {
            let m = error_message(s.number, s.text);
            if m.len() > 0 {
                EnvelopeState { errors: s.errors.push(m), ..s }
            } else {
                s
            }
        } else {
            s
        },
        _ => s,
    }
}

pub open spec fn envelope_start() -> EnvelopeState {
    EnvelopeState { in_errors: false, errors: Seq::empty(), number: Seq::empty(), text: Seq::empty() }
}

/// The error messages a response body reports, or the XML reader's message.
pub open spec fn envelope_outcome(toks: Seq<TokenView>) -> Result<Seq<Seq<char>>, Seq<char>> {
    match run(toks, envelope_start(), |s: EnvelopeState, t: TokenView| envelope_step(s, t)) {
        Ok(s) => Ok(s.errors),
        Err(m) => Err(m),
    }
}

/// What checking a response's events gives: `Ok` when the body is well-formed
/// and reports no error; the reported messages; or the reader's message.
pub open spec fn envelope_result(toks: Seq<TokenView>, r: Result<(), ResponseError>) -> bool {
    match envelope_outcome(toks) {
        Err(m) => r matches Err(ResponseError::Xml { stage, detail }) && stage is Envelope && detail@ == m,
        Ok(errs) => if errs.len() == 0 {
            r is Ok
        } else {
            r matches Err(ResponseError::Api { errors }) && errors@.map_values(|p: String| p@) == errs
        },
    }
}

fn error_message_of(number: &String, text: &String) -> (m: String)
    ensures
        m@ == error_message(number@, text@),
{
    let t = trim_str(text.as_str());
    if number.as_str().unicode_len() == 0 {
        t
    } else {
        let mut m = String::from_str("[");
        m.append(number.as_str());
        m.append("] ");
        m.append(t.as_str());
        m
    }
}

/// The errors a response's events report (see [`envelope_result`]).
pub fn api_errors_from_tokens(toks: &Vec<XmlToken>) -> (r: Result<(), ResponseError>)
    ensures
        envelope_result(token_views(toks@), r),
{
    let ghost v = token_views(toks@);
    let ghost step = |s: EnvelopeState, t: TokenView| envelope_step(s, t);
    let mut in_errors = false;
    let mut errors: Vec<String> = Vec::new();
    let mut number = String::new();
    let mut text = String::new();
    let mut i: usize = 0;
    assert(v.skip(0) =~= v);
    assert(errors@.map_values(|p: String| p@) =~= Seq::<Seq<char>>::empty());
    while i < toks.len()
        invariant
            i <= toks.len(),
            v == token_views(toks@),
            step == (|s: EnvelopeState, t: TokenView| envelope_step(s, t)),
            run(v, envelope_start(), step) == run(
                v.skip(i as int),
                EnvelopeState {
                    in_errors,
                    errors: errors@.map_values(|p: String| p@),
                    number: number@,
                    text: text@,
                },
                step,
            ),
        decreases toks.len() - i,
    {
        let ghost s = EnvelopeState {
            in_errors,
            errors: errors@.map_values(|p: String| p@),
            number: number@,
            text: text@,
        };
        proof {
            lemma_run_at(v, i as int, s, step);
        }
        match &toks[i] {
            XmlToken::Start(e) => {
                if eq_ignore_ascii_case(e.name.as_str(), "errors") {
                    in_errors = true;
                } else if in_errors && eq_ignore_ascii_case(e.name.as_str(), "error") {
                    let attrs = element_attributes(e);
                    number = match attr_value_ic(&attrs, "number") {
                        Some(n) => n,
                        None => String::new(),
                    };
                    text = String::new();
                }
            },
            XmlToken::Text(x) => {
                if in_errors {
                    text.append(x.as_str());
                }
            },
            XmlToken::End(n) => {
                if eq_ignore_ascii_case(n.as_str(), "errors") {
                    in_errors = false;
                } else if in_errors && eq_ignore_ascii_case(n.as_str(), "error") {
                    let m = error_message_of(&number, &text);
                    if m.as_str().unicode_len() > 0 {
                        errors.push(m);
                        assert(errors@.map_values(|p: String| p@) =~= s.errors.push(
                            error_message(s.number, s.text),
                        ));
                    }
                }
            },
            XmlToken::Eof => {
                return finish_envelope(errors, Ghost(v), Ghost(s));
            },
            XmlToken::Failed(m) => {
                return Err(ResponseError::Xml { stage: Stage::Envelope, detail: m.clone() });
            },
            XmlToken::Empty(_) | XmlToken::Other => {},
        }
        i = i + 1;
    }
    proof {
        lemma_run_end(v, EnvelopeState {
            in_errors,
            errors: errors@.map_values(|p: String| p@),
            number: number@,
            text: text@,
        }, step);
    }
    let ghost s = EnvelopeState {
        in_errors,
        errors: errors@.map_values(|p: String| p@),
        number: number@,
        text: text@,
    };
    finish_envelope(errors, Ghost(v), Ghost(s))
}

fn finish_envelope(errors: Vec<String>, Ghost(v): Ghost<Seq<TokenView>>, Ghost(s): Ghost<EnvelopeState>) -> (r: Result<(), ResponseError>)
    requires
        run(v, envelope_start(), |s: EnvelopeState, t: TokenView| envelope_step(s, t)) == Ok::<EnvelopeState, Seq<char>>(s),
        s.errors == errors@.map_values(|p: String| p@),
    ensures
        envelope_result(v, r),
{
    if errors.len() == 0 {
        Ok(())
    } else {
        Err(ResponseError::Api { errors })
    }
}

/// Checks a response body for the errors the API reports
/// (`check_api_response_errors`): `Ok` when the body is well-formed XML and
/// lists no error, else the reported messages or the reader's message.
pub fn check_api_response_errors(xml: &str) -> (r: Result<(), ResponseError>)
    ensures
        envelope_result(xml_tokens(xml@, true), r),
{
    let toks = read_tokens(xml);
    api_errors_from_tokens(&toks)
}

} // verus!

verus! {

pub open spec fn or_empty(o: Option<Seq<char>>) -> Seq<char> {
    match o {
        Some(v) => v,
        None => Seq::empty(),
    }
}

/// An attribute that reads `true` (in any ASCII case); absent is false.
pub open spec fn is_true(o: Option<Seq<char>>) -> bool {
    match o {
        Some(v) => eq_ic(v, "true"@),
        None => false,
    }
}

pub open spec fn parse_u64_opt(o: Option<Seq<char>>) -> Option<u64> {
    match o {
        Some(v) => match parse_unsigned(v, u64::MAX as nat) {
            Some(n) => Some(n as u64),
            None => None,
        },
        None => None,
    }
}

pub open spec fn parse_u32_opt(o: Option<Seq<char>>) -> Option<u32> {
    match o {
        Some(v) => match parse_unsigned(v, u32::MAX as nat) {
            Some(n) => Some(n as u32),
            None => None,
        },
        None => None,
    }
}

fn text_or_empty(o: Option<String>) -> (r: String)
    ensures
        r@ == or_empty(opt_view(o)),
{
    match o {
        Some(v) => v,
        None => String::new(),
    }
}

fn reads_true(o: &Option<String>) -> (r: bool)
    ensures
        r == is_true(opt_view(*o)),
{
    match o {
        Some(v) => eq_ignore_ascii_case(v.as_str(), "true"),
        None => false,
    }
}

fn u64_of(o: &Option<String>) -> (r: Option<u64>)
    ensures
        r == parse_u64_opt(opt_view(*o)),
{
    match o {
        Some(v) => parse_u64(v.as_str()),
        None => None,
    }
}

fn u32_of(o: &Option<String>) -> (r: Option<u32>)
    ensures
        r == parse_u32_opt(opt_view(*o)),
{
    match o {
        Some(v) => parse_u32(v.as_str()),
        None => None,
    }
}

/// The availability a `<DomainCheckResult>` element reports.
pub open spec fn check_result_of(e: ElementView) -> DomainCheckView {
    DomainCheckView {
        domain: or_empty(lookup_ic(attributes_of(e), "domain"@)),
        available: is_true(lookup_ic(attributes_of(e), "available"@)),
        is_premium: is_true(lookup_ic(attributes_of(e), "ispremiumname"@)),
        premium_registration_price: lookup_ic(attributes_of(e), "premiumregistrationprice"@),
        premium_renewal_price: lookup_ic(attributes_of(e), "premiumrenewalprice"@),
        icann_fee: lookup_ic(attributes_of(e), "icannfee"@),
    }
}

/// Each `<DomainCheckResult>` start or empty element that names a domain adds
/// its result.
pub open spec fn check_step(s: Seq<DomainCheckView>, t: TokenView) -> Seq<DomainCheckView> {
    match t {
        TokenView::Start(e) => if eq_ic(e.name, "domaincheckresult"@) && check_result_of(e).domain.len() > 0 {
            s.push(check_result_of(e))
        } else {
            s
        },
        TokenView::Empty(e) => if eq_ic(e.name, "domaincheckresult"@) && check_result_of(e).domain.len() > 0 {
            s.push(check_result_of(e))
        } else {
            s
        },
        _ => s,
    }
}

pub open spec fn check_outcome(toks: Seq<TokenView>) -> Result<Seq<DomainCheckView>, Seq<char>> {
    run(toks, Seq::empty(), |s: Seq<DomainCheckView>, t: TokenView| check_step(s, t))
}

/// What reading a domain check gives for these events: the results, or the
/// reader's message.
pub open spec fn check_result(toks: Seq<TokenView>, r: Result<Vec<DomainCheckResult>, ResponseError>) -> bool {
    match check_outcome(toks) {
        Ok(v) => r matches Ok(res) && check_views(res@) == v,
        Err(m) => r matches Err(ResponseError::Xml { stage, detail }) && stage is DomainCheck && detail@ == m,
    }
}

fn check_result_from(e: &XmlElement) -> (r: DomainCheckResult)
    ensures
        r@ == check_result_of(e@),
{
    let attrs = element_attributes(e);
    let domain = text_or_empty(attr_value_ic(&attrs, "domain"));
    let available = reads_true(&attr_value_ic(&attrs, "available"));
    let is_premium = reads_true(&attr_value_ic(&attrs, "ispremiumname"));
    DomainCheckResult {
        domain,
        available,
        is_premium,
        premium_registration_price: attr_value_ic(&attrs, "premiumregistrationprice"),
        premium_renewal_price: attr_value_ic(&attrs, "premiumrenewalprice"),
        icann_fee: attr_value_ic(&attrs, "icannfee"),
    }
}

/// The domain check results among a response's events (see [`check_result`]).
pub fn domain_check_from_tokens(toks: &Vec<XmlToken>) -> (r: Result<Vec<DomainCheckResult>, ResponseError>)
    ensures
        check_result(token_views(toks@), r),
{
    let ghost v = token_views(toks@);
    let ghost step = |s: Seq<DomainCheckView>, t: TokenView| check_step(s, t);
    let mut results: Vec<DomainCheckResult> = Vec::new();
    let mut i: usize = 0;
    assert(v.skip(0) =~= v);
    assert(check_views(results@) =~= Seq::<DomainCheckView>::empty());
    while i < toks.len()
        invariant
            i <= toks.len(),
            v == token_views(toks@),
            step == (|s: Seq<DomainCheckView>, t: TokenView| check_step(s, t)),
            run(v, Seq::empty(), step) == run(v.skip(i as int), check_views(results@), step),
        decreases toks.len() - i,
    {
        proof {
            lemma_run_at(v, i as int, check_views(results@), step);
        }
        let ghost before = check_views(results@);
        match &toks[i] {
            XmlToken::Start(e) | XmlToken::Empty(e) => {
                if eq_ignore_ascii_case(e.name.as_str(), "domaincheckresult") {
                    let res = check_result_from(e);
                    if res.domain.as_str().unicode_len() > 0 {
                        results.push(res);
                        assert(check_views(results@) =~= before.push(check_result_of(e@)));
                    }
                }
            },
            XmlToken::Eof => {
                return Ok(results);
            },
            XmlToken::Failed(m) => {
                return Err(ResponseError::Xml { stage: Stage::DomainCheck, detail: m.clone() });
            },
            _ => {},
        }
        i = i + 1;
    }
    proof {
        lemma_run_end(v, check_views(results@), step);
    }
    Ok(results)
}

/// Reads the results of `namecheap.domains.check` from a response body
/// (`parse_domain_check_response`).
pub fn parse_domain_check_response(xml: &str) -> (r: Result<Vec<DomainCheckResult>, ResponseError>)
    ensures
        check_result(xml_tokens(xml@, true), r),
{
    let toks = read_tokens(xml);
    domain_check_from_tokens(&toks)
}

} // verus!

verus! {

/// The record a `<host>` element describes; keys are matched after
/// lowercasing, a missing TTL is 1800.
pub open spec fn host_of(e: ElementView) -> DnsHostView {
    DnsHostView {
        host_id: parse_u64_opt(lookup_lower(attributes_of(e), "hostid"@)),
        name: or_empty(lookup_lower(attributes_of(e), "name"@)),
        record_type: or_empty(lookup_lower(attributes_of(e), "type"@)),
        address: or_empty(lookup_lower(attributes_of(e), "address"@)),
        mx_pref: parse_u32_opt(lookup_lower(attributes_of(e), "mxpref"@)),
        ttl: match parse_u32_opt(lookup_lower(attributes_of(e), "ttl"@)) {
            Some(t) => t,
            None => 1800,
        },
    }
}

/// Each `<host>` start or empty element adds a record.
pub open spec fn hosts_step(s: Seq<DnsHostView>, t: TokenView) -> Seq<DnsHostView> {
    match t {
        TokenView::Start(e) => if eq_ic(e.name, "host"@) { s.push(host_of(e)) } else { s },
        TokenView::Empty(e) => if eq_ic(e.name, "host"@) { s.push(host_of(e)) } else { s },
        _ => s,
    }
}

pub open spec fn hosts_outcome(toks: Seq<TokenView>) -> Result<Seq<DnsHostView>, Seq<char>> {
    run(toks, Seq::empty(), |s: Seq<DnsHostView>, t: TokenView| hosts_step(s, t))
}

/// What reading the DNS host records gives for these events: the records, or
/// the reader's message.
pub open spec fn hosts_result(toks: Seq<TokenView>, r: Result<Vec<DnsHostRecord>, ResponseError>) -> bool {
    match hosts_outcome(toks) {
        Ok(v) => r matches Ok(res) && host_views(res@) == v,
        Err(m) => r matches Err(ResponseError::Xml { stage, detail }) && stage is DnsHosts && detail@ == m,
    }
}

fn host_from(e: &XmlElement) -> (r: DnsHostRecord)
    ensures
        r@ == host_of(e@),
{
    let attrs = element_attributes(e);
    let host_id = u64_of(&attr_value_lower(&attrs, "hostid"));
    let name = text_or_empty(attr_value_lower(&attrs, "name"));
    let record_type = text_or_empty(attr_value_lower(&attrs, "type"));
    let address = text_or_empty(attr_value_lower(&attrs, "address"));
    let mx_pref = u32_of(&attr_value_lower(&attrs, "mxpref"));
    let ttl = match u32_of(&attr_value_lower(&attrs, "ttl")) {
        Some(t) => t,
        None => 1800,
    };
    DnsHostRecord { host_id, name, record_type, address, mx_pref, ttl }
}

/// The DNS host records among a response's events (see [`hosts_result`]).
pub fn dns_hosts_from_tokens(toks: &Vec<XmlToken>) -> (r: Result<Vec<DnsHostRecord>, ResponseError>)
    ensures
        hosts_result(token_views(toks@), r),
{
    let ghost v = token_views(toks@);
    let ghost step = |s: Seq<DnsHostView>, t: TokenView| hosts_step(s, t);
    let mut records: Vec<DnsHostRecord> = Vec::new();
    let mut i: usize = 0;
    assert(v.skip(0) =~= v);
    assert(host_views(records@) =~= Seq::<DnsHostView>::empty());
    while i < toks.len()
        invariant
            i <= toks.len(),
            v == token_views(toks@),
            step == (|s: Seq<DnsHostView>, t: TokenView| hosts_step(s, t)),
            run(v, Seq::empty(), step) == run(v.skip(i as int), host_views(records@), step),
        decreases toks.len() - i,
    {
        proof {
            lemma_run_at(v, i as int, host_views(records@), step);
        }
        let ghost before = host_views(records@);
        match &toks[i] {
            XmlToken::Start(e) | XmlToken::Empty(e) => {
                if eq_ignore_ascii_case(e.name.as_str(), "host") {
                    records.push(host_from(e));
                    assert(host_views(records@) =~= before.push(host_of(e@)));
                }
            },
            XmlToken::Eof => {
                return Ok(records);
            },
            XmlToken::Failed(m) => {
                return Err(ResponseError::Xml { stage: Stage::DnsHosts, detail: m.clone() });
            },
            _ => {},
        }
        i = i + 1;
    }
    proof {
        lemma_run_end(v, host_views(records@), step);
    }
    Ok(records)
}

/// Reads the records of `namecheap.domains.dns.getHosts` from a response body
/// (`parse_dns_get_hosts_response`).
pub fn parse_dns_get_hosts_response(xml: &str) -> (r: Result<Vec<DnsHostRecord>, ResponseError>)
    ensures
        hosts_result(xml_tokens(xml@, true), r),
{
    let toks = read_tokens(xml);
    dns_hosts_from_tokens(&toks)
}

} // verus!

verus! {

/// The domain a `<Domain>` element of the list describes; keys are matched
/// after lowercasing.
pub open spec fn item_of(e: ElementView) -> DomainItemView {
    DomainItemView {
        id: match parse_u64_opt(lookup_lower(attributes_of(e), "id"@)) {
            Some(n) => n,
            None => 0,
        },
        name: or_empty(lookup_lower(attributes_of(e), "name"@)),
        user: or_empty(lookup_lower(attributes_of(e), "user"@)),
        created: or_empty(lookup_lower(attributes_of(e), "created"@)),
        expires: or_empty(lookup_lower(attributes_of(e), "expires"@)),
        is_expired: is_true(lookup_lower(attributes_of(e), "isexpired"@)),
        is_locked: is_true(lookup_lower(attributes_of(e), "islocked"@)),
        auto_renew: is_true(lookup_lower(attributes_of(e), "autorenew"@)),
        whois_guard: or_empty(lookup_lower(attributes_of(e), "whoisguard"@)),
    }
}

/// Where the reading of a domain list stands: the domains so far, the paging
/// so far, and the name of the element whose text comes next.
pub struct ListState {
    pub items: Seq<DomainItemView>,
    pub total_items: u32,
    pub current_page: u32,
    pub page_size: u32,
    pub tag: Seq<char>,
}

/// A number in an element's text (trimmed), or the default when it reads as
/// none.
pub open spec fn u32_text_or(text: Seq<char>, default: u32) -> u32 {
    match parse_u32_opt(Some(trim(text))) {
        Some(n) => n,
        None => default,
    }
}

/// A start or empty element becomes the current element (and a `<Domain>` adds
/// a domain); text sets the paging count of the current element; an end tag
/// clears the current element.
pub open spec fn list_step(s: ListState, t: TokenView) -> ListState {
    match t {
        TokenView::Start(e) => list_element(s, e),
        TokenView::Empty(e) => list_element(s, e),
        TokenView::Text(x) => if eq_ic(s.tag, "totalitems"@) {
            ListState { total_items: u32_text_or(x, 0), ..s }
        } else if eq_ic(s.tag, "currentpage"@) {
            ListState { current_page: u32_text_or(x, 1), ..s }
        } else if eq_ic(s.tag, "pagesize"@) {
            ListState { page_size: u32_text_or(x, 20), ..s }
        } else {
            s
        },
        TokenView::End(_) => ListState { tag: Seq::empty(), ..s },
        _ => s,
    }
}

pub open spec fn list_element(s: ListState, e: ElementView) -> ListState {
    if eq_ic(e.name, "domain"@) {
        ListState { items: s.items.push(item_of(e)), tag: e.name, ..s }
    } else {
        ListState { tag: e.name, ..s }
    }
}

pub open spec fn list_start() -> ListState {
    ListState { items: Seq::empty(), total_items: 0, current_page: 1, page_size: 20, tag: Seq::empty() }
}

pub open spec fn list_outcome(toks: Seq<TokenView>) -> Result<ListState, Seq<char>> {
    run(toks, list_start(), |s: ListState, t: TokenView| list_step(s, t))
}

/// What reading a domain list gives for these events: the domains and the
/// paging, or the reader's message.
pub open spec fn list_result(toks: Seq<TokenView>, r: Result<(Vec<DomainItem>, PagingInfo), ResponseError>) -> bool {
    match list_outcome(toks) {
        Ok(s) => r matches Ok((items, paging)) && item_views(items@) == s.items && paging.total_items
            == s.total_items && paging.current_page == s.current_page && paging.page_size == s.page_size,
        Err(m) => r matches Err(ResponseError::Xml { stage, detail }) && stage is DomainList && detail@ == m,
    }
}

fn item_from(e: &XmlElement) -> (r: DomainItem)
    ensures
        r@ == item_of(e@),
{
    let attrs = element_attributes(e);
    let id = match u64_of(&attr_value_lower(&attrs, "id")) {
        Some(n) => n,
        None => 0,
    };
    DomainItem {
        id,
        name: text_or_empty(attr_value_lower(&attrs, "name")),
        user: text_or_empty(attr_value_lower(&attrs, "user")),
        created: text_or_empty(attr_value_lower(&attrs, "created")),
        expires: text_or_empty(attr_value_lower(&attrs, "expires")),
        is_expired: reads_true(&attr_value_lower(&attrs, "isexpired")),
        is_locked: reads_true(&attr_value_lower(&attrs, "islocked")),
        auto_renew: reads_true(&attr_value_lower(&attrs, "autorenew")),
        whois_guard: text_or_empty(attr_value_lower(&attrs, "whoisguard")),
    }
}

fn u32_text(x: &String, default: u32) -> (r: u32)
    ensures
        r == u32_text_or(x@, default),
{
    let t = trim_str(x.as_str());
    match parse_u32(t.as_str()) {
        Some(n) => n,
        None => default,
    }
}

/// The domains and paging among a response's events (see [`list_result`]).
pub fn domain_list_from_tokens(toks: &Vec<XmlToken>) -> (r: Result<(Vec<DomainItem>, PagingInfo), ResponseError>)
    ensures
        list_result(token_views(toks@), r),
{
    let ghost v = token_views(toks@);
    let ghost step = |s: ListState, t: TokenView| list_step(s, t);
    let mut items: Vec<DomainItem> = Vec::new();
    let mut paging = PagingInfo { total_items: 0, current_page: 1, page_size: 20 };
    let mut tag = String::new();
    let mut i: usize = 0;
    assert(v.skip(0) =~= v);
    assert(item_views(items@) =~= Seq::<DomainItemView>::empty());
    while i < toks.len()
        invariant
            i <= toks.len(),
            v == token_views(toks@),
            step == (|s: ListState, t: TokenView| list_step(s, t)),
            run(v, list_start(), step) == run(
                v.skip(i as int),
                ListState {
                    items: item_views(items@),
                    total_items: paging.total_items,
                    current_page: paging.current_page,
                    page_size: paging.page_size,
                    tag: tag@,
                },
                step,
            ),
        decreases toks.len() - i,
    {
        let ghost s = ListState {
            items: item_views(items@),
            total_items: paging.total_items,
            current_page: paging.current_page,
            page_size: paging.page_size,
            tag: tag@,
        };
        proof {
            lemma_run_at(v, i as int, s, step);
        }
        match &toks[i] {
            XmlToken::Start(e) | XmlToken::Empty(e) => {
                tag = e.name.clone();
                if eq_ignore_ascii_case(e.name.as_str(), "domain") {
                    items.push(item_from(e));
                    assert(item_views(items@) =~= s.items.push(item_of(e@)));
                }
            },
            XmlToken::Text(x) => {
                if eq_ignore_ascii_case(tag.as_str(), "totalitems") {
                    paging.total_items = u32_text(x, 0);
                } else if eq_ignore_ascii_case(tag.as_str(), "currentpage") {
                    paging.current_page = u32_text(x, 1);
                } else if eq_ignore_ascii_case(tag.as_str(), "pagesize") {
                    paging.page_size = u32_text(x, 20);
                }
            },
            XmlToken::End(_) => {
                tag = String::new();
            },
            XmlToken::Eof => {
                return Ok((items, paging));
            },
            XmlToken::Failed(m) => {
                return Err(ResponseError::Xml { stage: Stage::DomainList, detail: m.clone() });
            },
            XmlToken::Other => {},
        }
        i = i + 1;
    }
    proof {
        lemma_run_end(v, ListState {
            items: item_views(items@),
            total_items: paging.total_items,
            current_page: paging.current_page,
            page_size: paging.page_size,
            tag: tag@,
        }, step);
    }
    Ok((items, paging))
}

/// Reads the domains and paging of `namecheap.domains.getList` from a response
/// body (`parse_domain_get_list_response`).
pub fn parse_domain_get_list_response(xml: &str) -> (r: Result<(Vec<DomainItem>, PagingInfo), ResponseError>)
    ensures
        list_result(xml_tokens(xml@, true), r),
{
    let toks = read_tokens(xml);
    domain_list_from_tokens(&toks)
}

} // verus!

verus! {

/// Where the reading of a domain's details stands.
pub struct InfoState {
    pub id: u64,
    pub status: Seq<char>,
    pub created_date: Seq<char>,
    pub expired_date: Seq<char>,
    pub is_locked: bool,
    pub whois_guard_enabled: bool,
    pub is_using_our_dns: bool,
    pub nameservers: Seq<Seq<char>>,
    pub tag: Seq<char>,
}

/// A start or empty element becomes the current element; the
/// `<DomainGetInfoResult>`, `<WhoisGuard>` and `<DnsDetails>` elements set the
/// fields their attributes carry.
pub open spec fn info_element(s: InfoState, e: ElementView) -> InfoState {
    if eq_ic(e.name, "domaingetinforesult"@) {
        InfoState {
            id: match lookup_lower(attributes_of(e), "id"@) {
                Some(v) => match parse_u64_opt(Some(v)) {
                    Some(n) => n,
                    None => 0,
                },
                None => s.id,
            },
            status: match lookup_lower(attributes_of(e), "status"@) {
                Some(v) => v,
                None => s.status,
            },
            tag: e.name,
            ..s
        }
    } else if eq_ic(e.name, "whoisguard"@) {
        InfoState {
            whois_guard_enabled: match lookup_lower(attributes_of(e), "enabled"@) {
                Some(v) => eq_ic(v, "true"@),
                None => s.whois_guard_enabled,
            },
            tag: e.name,
            ..s
        }
    } else if eq_ic(e.name, "dnsdetails"@) {
        InfoState {
            is_using_our_dns: match lookup_lower(attributes_of(e), "isusingourdns"@) {
                Some(v) => eq_ic(v, "true"@),
                None => s.is_using_our_dns,
            },
            tag: e.name,
            ..s
        }
    } else {
        InfoState { tag: e.name, ..s }
    }
}

/// Text (trimmed) sets the dates and the lock of the current element, and a
/// non-empty `<Nameserver>` text adds a name server; an end tag clears the
/// current element.
pub open spec fn info_step(s: InfoState, t: TokenView) -> InfoState {
    match t {
        TokenView::Start(e) => info_element(s, e),
        TokenView::Empty(e) => info_element(s, e),
        TokenView::Text(x) => {
            let x = trim(x);
            if eq_ic(s.tag, "createddate"@) {
                InfoState { created_date: x, ..s }
            } else if eq_ic(s.tag, "expireddate"@) {
                InfoState { expired_date: x, ..s }
            } else if eq_ic(s.tag, "islocked"@) {
                InfoState { is_locked: eq_ic(x, "true"@), ..s }
            } else if eq_ic(s.tag, "nameserver"@) && x.len() > 0 {
                InfoState { nameservers: s.nameservers.push(x), ..s }
            } else {
                s
            }
        },
        TokenView::End(_) => InfoState { tag: Seq::empty(), ..s },
        _ => s,
    }
}

pub open spec fn info_start() -> InfoState {
    InfoState {
        id: 0,
        status: "Unknown"@,
        created_date: Seq::empty(),
        expired_date: Seq::empty(),
        is_locked: false,
        whois_guard_enabled: false,
        is_using_our_dns: false,
        nameservers: Seq::empty(),
        tag: Seq::empty(),
    }
}

pub open spec fn info_outcome(toks: Seq<TokenView>) -> Result<InfoState, Seq<char>> {
    run(toks, info_start(), |s: InfoState, t: TokenView| info_step(s, t))
}

/// The details a reading ends with, for the domain named `name`.
pub open spec fn info_of(s: InfoState, name: Seq<char>) -> DomainInfoView {
    DomainInfoView {
        id: s.id,
        name,
        status: s.status,
        created_date: s.created_date,
        expired_date: s.expired_date,
        is_locked: s.is_locked,
        whois_guard_enabled: s.whois_guard_enabled,
        is_using_our_dns: s.is_using_our_dns,
        nameservers: s.nameservers,
    }
}

/// What reading a domain's details gives for these events: the details, or
/// the reader's message.
pub open spec fn info_result(toks: Seq<TokenView>, name: Seq<char>, r: Result<DomainInfo, ResponseError>) -> bool {
    match info_outcome(toks) {
        Ok(s) => r matches Ok(info) && info@ == info_of(s, name),
        Err(m) => r matches Err(ResponseError::Xml { stage, detail }) && stage is DomainInfo && detail@ == m,
    }
}

fn bool_attr_or(e: &XmlElement, key: &str, current: bool) -> (r: bool)
    ensures
        r == match lookup_lower(attributes_of(e@), key@) {
            Some(v) => eq_ic(v, "true"@),
            None => current,
        },
{
    let attrs = element_attributes(e);
    match attr_value_lower(&attrs, key) {
        Some(v) => eq_ignore_ascii_case(v.as_str(), "true"),
        None => current,
    }
}

/// The details of the domain named `domain_name` among a response's events
/// (see [`info_result`]).
pub fn domain_info_from_tokens(toks: &Vec<XmlToken>, domain_name: &str) -> (r: Result<DomainInfo, ResponseError>)
    ensures
        info_result(token_views(toks@), domain_name@, r),
{
    let ghost v = token_views(toks@);
    let ghost step = |s: InfoState, t: TokenView| info_step(s, t);
    let mut id: u64 = 0;
    let mut status = String::from_str("Unknown");
    let mut created_date = String::new();
    let mut expired_date = String::new();
    let mut is_locked = false;
    let mut whois_guard_enabled = false;
    let mut is_using_our_dns = false;
    let mut nameservers: Vec<String> = Vec::new();
    let mut tag = String::new();
    let mut i: usize = 0;
    assert(v.skip(0) =~= v);
    assert(texts(nameservers@) =~= Seq::<Seq<char>>::empty());
    while i < toks.len()
        invariant
            i <= toks.len(),
            v == token_views(toks@),
            step == (|s: InfoState, t: TokenView| info_step(s, t)),
            run(v, info_start(), step) == run(
                v.skip(i as int),
                InfoState {
                    id,
                    status: status@,
                    created_date: created_date@,
                    expired_date: expired_date@,
                    is_locked,
                    whois_guard_enabled,
                    is_using_our_dns,
                    nameservers: texts(nameservers@),
                    tag: tag@,
                },
                step,
            ),
        decreases toks.len() - i,
    {
        let ghost s = InfoState {
            id,
            status: status@,
            created_date: created_date@,
            expired_date: expired_date@,
            is_locked,
            whois_guard_enabled,
            is_using_our_dns,
            nameservers: texts(nameservers@),
            tag: tag@,
        };
        proof {
            lemma_run_at(v, i as int, s, step);
        }
        match &toks[i] {
            XmlToken::Start(e) | XmlToken::Empty(e) => {
                tag = e.name.clone();
                if eq_ignore_ascii_case(e.name.as_str(), "domaingetinforesult") {
                    let attrs = element_attributes(e);
                    match attr_value_lower(&attrs, "id") {
                        Some(x) => {
                            id = match parse_u64(x.as_str()) {
                                Some(n) => n,
                                None => 0,
                            };
                        },
                        None => {},
                    }
                    match attr_value_lower(&attrs, "status") {
                        Some(x) => {
                            status = x;
                        },
                        None => {},
                    }
                } else if eq_ignore_ascii_case(e.name.as_str(), "whoisguard") {
                    whois_guard_enabled = bool_attr_or(e, "enabled", whois_guard_enabled);
                } else if eq_ignore_ascii_case(e.name.as_str(), "dnsdetails") {
                    is_using_our_dns = bool_attr_or(e, "isusingourdns", is_using_our_dns);
                }
            },
            XmlToken::Text(x) => {
                let x = trim_str(x.as_str());
                if eq_ignore_ascii_case(tag.as_str(), "createddate") {
                    created_date = x;
                } else if eq_ignore_ascii_case(tag.as_str(), "expireddate") {
                    expired_date = x;
                } else if eq_ignore_ascii_case(tag.as_str(), "islocked") {
                    is_locked = eq_ignore_ascii_case(x.as_str(), "true");
                } else if eq_ignore_ascii_case(tag.as_str(), "nameserver") && x.as_str().unicode_len() > 0 {
                    nameservers.push(x);
                    assert(texts(nameservers@) =~= s.nameservers.push(trim(toks@[i as int]@->Text_0)));
                }
            },
            XmlToken::End(_) => {
                tag = String::new();
            },
            XmlToken::Eof => {
                return Ok(DomainInfo {
                    id,
                    name: String::from_str(domain_name),
                    status,
                    created_date,
                    expired_date,
                    is_locked,
                    whois_guard_enabled,
                    is_using_our_dns,
                    nameservers,
                });
            },
            XmlToken::Failed(m) => {
                return Err(ResponseError::Xml { stage: Stage::DomainInfo, detail: m.clone() });
            },
            XmlToken::Other => {},
        }
        i = i + 1;
    }
    proof {
        lemma_run_end(v, InfoState {
            id,
            status: status@,
            created_date: created_date@,
            expired_date: expired_date@,
            is_locked,
            whois_guard_enabled,
            is_using_our_dns,
            nameservers: texts(nameservers@),
            tag: tag@,
        }, step);
    }
    Ok(DomainInfo {
        id,
        name: String::from_str(domain_name),
        status,
        created_date,
        expired_date,
        is_locked,
        whois_guard_enabled,
        is_using_our_dns,
        nameservers,
    })
}

/// Reads the details of `namecheap.domains.getInfo` for the domain named
/// `domain_name` from a response body (`parse_domain_get_info_response`).
pub fn parse_domain_get_info_response(xml: &str, domain_name: &str) -> (r: Result<DomainInfo, ResponseError>)
    ensures
        info_result(xml_tokens(xml@, true), domain_name@, r),
{
    let toks = read_tokens(xml);
    domain_info_from_tokens(&toks, domain_name)
}

} // verus!

verus! {

/// Whether `t` opens the element `e` (a start tag or an empty-element tag).
pub open spec fn opens(t: TokenView, e: ElementView) -> bool {
    t == TokenView::Start(e) || t == TokenView::Empty(e)
}

/// The text of the attribute whose lowercased key is `key`.
pub open spec fn attr_lower(e: ElementView, key: Seq<char>) -> Option<Seq<char>> {
    lookup_lower(attributes_of(e), key)
}

/// The text of the attribute whose key is `key` up to ASCII case.
pub open spec fn attr_ic(e: ElementView, key: Seq<char>) -> Option<Seq<char>> {
    lookup_ic(attributes_of(e), key)
}

/// Reading the first event `t` and then the rest.
proof fn lemma_run_first<S>(t: TokenView, rest: Seq<TokenView>, s: S, step: spec_fn(S, TokenView) -> S)
    requires
        !(t is Eof),
        !(t is Failed),
    ensures
        run(seq![t] + rest, s, step) == run(rest, step(s, t), step),
{
    let toks = seq![t] + rest;
    assert(toks[0] == t);
    assert(toks.drop_first() =~= rest);
}

/// Reading DNS records only ever adds records after those read so far.
proof fn lemma_hosts_keep_prefix(toks: Seq<TokenView>, s: Seq<DnsHostView>)
    ensures
        run(toks, s, |s: Seq<DnsHostView>, t: TokenView| hosts_step(s, t)) matches Ok(r) ==> s.len() <= r.len()
            && r.take(s.len() as int) == s,
    decreases toks.len(),
{
    let step = |s: Seq<DnsHostView>, t: TokenView| hosts_step(s, t);
    if toks.len() > 0 && !(toks[0] is Eof) && !(toks[0] is Failed) {
        let s2 = step(s, toks[0]);
        lemma_hosts_keep_prefix(toks.drop_first(), s2);
        match run(toks, s, step) {
            Ok(r) => {
                assert(s2.take(s.len() as int) =~= s);
                assert(r.take(s.len() as int) =~= r.take(s2.len() as int).take(s.len() as int));
            },
            Err(_) => {},
        }
    } else if toks.len() > 0 {
    } else {
        assert(s.take(s.len() as int) =~= s);
    }
    if toks.len() > 0 && toks[0] is Eof {
        assert(s.take(s.len() as int) =~= s);
    }
}

/// A `<host>` element read first gives the first DNS record, made of its
/// attributes (keys compared lowercased): host name, type and address are
/// their texts (empty when missing); a TTL written as a decimal number `n`
/// that fits in `u32` gives a TTL of `n`, and a missing TTL gives 1800; an
/// id or MX preference written as a decimal number is that number, and is
/// none when missing.
pub proof fn lemma_host_record_from_attributes(t: TokenView, e: ElementView, rest: Seq<TokenView>)
    requires
        opens(t, e),
        eq_ic(e.name, "host"@),
    ensures
        hosts_outcome(seq![t] + rest) matches Ok(rs) ==> {
            &&& rs.len() >= 1
            &&& (forall|n: nat| n <= u32::MAX && attr_lower(e, "ttl"@) == Some(decimal(n)) ==> rs[0].ttl == n)
            &&& (attr_lower(e, "ttl"@) is None ==> rs[0].ttl == 1800)
            &&& (forall|n: nat| n <= u32::MAX && attr_lower(e, "mxpref"@) == Some(decimal(n)) ==> rs[0].mx_pref
                == Some(n as u32))
            &&& (attr_lower(e, "mxpref"@) is None ==> rs[0].mx_pref is None)
            &&& (forall|n: nat| n <= u64::MAX && attr_lower(e, "hostid"@) == Some(decimal(n)) ==> rs[0].host_id
                == Some(n as u64))
            &&& (attr_lower(e, "hostid"@) is None ==> rs[0].host_id is None)
            &&& (forall|v: Seq<char>| attr_lower(e, "name"@) == Some(v) ==> rs[0].name == v)
            &&& (forall|v: Seq<char>| attr_lower(e, "type"@) == Some(v) ==> rs[0].record_type == v)
            &&& (forall|v: Seq<char>| attr_lower(e, "address"@) == Some(v) ==> rs[0].address == v)
            &&& (attr_lower(e, "name"@) is None ==> rs[0].name.len() == 0)
            &&& (attr_lower(e, "type"@) is None ==> rs[0].record_type.len() == 0)
            &&& (attr_lower(e, "address"@) is None ==> rs[0].address.len() == 0)
        },
{
    let step = |s: Seq<DnsHostView>, t: TokenView| hosts_step(s, t);
    lemma_run_first(t, rest, Seq::<DnsHostView>::empty(), step);
    let first = seq![host_of(e)];
    assert(step(Seq::empty(), t) =~= first);
    lemma_hosts_keep_prefix(rest, first);
    match hosts_outcome(seq![t] + rest) {
        Err(_) => {},
        Ok(rs) => {
        assert(rs[0] == rs.take(1)[0]);
        assert(rs[0] == host_of(e));
        assert forall|n: nat| n <= u32::MAX && attr_lower(e, "ttl"@) == Some(decimal(n)) implies rs[0].ttl == n by {
            lemma_parse_format_roundtrip(n, u32::MAX as nat);
        }
        assert forall|n: nat| n <= u32::MAX && attr_lower(e, "mxpref"@) == Some(decimal(n)) implies rs[0].mx_pref
            == Some(n as u32) by {
            lemma_parse_format_roundtrip(n, u32::MAX as nat);
        }
        assert forall|n: nat| n <= u64::MAX && attr_lower(e, "hostid"@) == Some(decimal(n)) implies rs[0].host_id
            == Some(n as u64) by {
            lemma_parse_format_roundtrip(n, u64::MAX as nat);
        }
        },
    }
}

/// Reading domain check results only ever adds results after those read so
/// far.
proof fn lemma_check_keep_prefix(toks: Seq<TokenView>, s: Seq<DomainCheckView>)
    ensures
        run(toks, s, |s: Seq<DomainCheckView>, t: TokenView| check_step(s, t)) matches Ok(r) ==> s.len() <= r.len()
            && r.take(s.len() as int) == s,
    decreases toks.len(),
{
    let step = |s: Seq<DomainCheckView>, t: TokenView| check_step(s, t);
    assert(s.take(s.len() as int) =~= s);
    if toks.len() > 0 && !(toks[0] is Eof) && !(toks[0] is Failed) {
        let s2 = step(s, toks[0]);
        lemma_check_keep_prefix(toks.drop_first(), s2);
        match run(toks, s, step) {
            Ok(r) => {
                assert(s2.take(s.len() as int) =~= s);
                assert(r.take(s.len() as int) =~= r.take(s2.len() as int).take(s.len() as int));
            },
            Err(_) => {},
        }
    }
}

/// A `<DomainCheckResult>` element that names a domain, read first, gives the
/// first result, made of its attributes (keys compared up to ASCII case): the
/// domain is the `Domain` text; the domain is premium exactly when its
/// `IsPremiumName` attribute reads `true` in any ASCII case, and available
/// exactly when its `Available` attribute does; the prices are the texts of
/// their attributes.
pub proof fn lemma_check_result_from_attributes(t: TokenView, e: ElementView, rest: Seq<TokenView>, d: Seq<char>)
    requires
        opens(t, e),
        eq_ic(e.name, "domaincheckresult"@),
        attr_ic(e, "domain"@) == Some(d),
        d.len() > 0,
    ensures
        check_outcome(seq![t] + rest) matches Ok(rs) ==> {
            &&& rs.len() >= 1
            &&& rs[0].domain == d
            &&& rs[0].is_premium == (exists|v: Seq<char>| attr_ic(e, "ispremiumname"@) == Some(v) && eq_ic(v, "true"@))
            &&& rs[0].available == (exists|v: Seq<char>| attr_ic(e, "available"@) == Some(v) && eq_ic(v, "true"@))
            &&& rs[0].premium_registration_price == attr_ic(e, "premiumregistrationprice"@)
            &&& rs[0].premium_renewal_price == attr_ic(e, "premiumrenewalprice"@)
            &&& rs[0].icann_fee == attr_ic(e, "icannfee"@)
        },
{
    let step = |s: Seq<DomainCheckView>, t: TokenView| check_step(s, t);
    lemma_run_first(t, rest, Seq::<DomainCheckView>::empty(), step);
    let first = seq![check_result_of(e)];
    assert(step(Seq::empty(), t) =~= first);
    lemma_check_keep_prefix(rest, first);
    match check_outcome(seq![t] + rest) {
        Err(_) => {},
        Ok(rs) => {
            assert(rs[0] == rs.take(1)[0]);
            assert(rs[0] == check_result_of(e));
            match attr_ic(e, "ispremiumname"@) {
                Some(v) => assert(attr_ic(e, "ispremiumname"@) == Some(v)),
                None => {},
            }
            match attr_ic(e, "available"@) {
                Some(v) => assert(attr_ic(e, "available"@) == Some(v)),
                None => {},
            }
        },
    }
}

/// Reading a domain list only ever adds domains after those read so far.
proof fn lemma_list_keep_prefix(toks: Seq<TokenView>, s: ListState)
    ensures
        run(toks, s, |s: ListState, t: TokenView| list_step(s, t)) matches Ok(r) ==> s.items.len() <= r.items.len()
            && r.items.take(s.items.len() as int) == s.items,
    decreases toks.len(),
{
    let step = |s: ListState, t: TokenView| list_step(s, t);
    assert(s.items.take(s.items.len() as int) =~= s.items);
    if toks.len() > 0 && !(toks[0] is Eof) && !(toks[0] is Failed) {
        let s2 = step(s, toks[0]);
        lemma_list_keep_prefix(toks.drop_first(), s2);
        match run(toks, s, step) {
            Ok(r) => {
                assert(s2.items.take(s.items.len() as int) =~= s.items);
                assert(r.items.take(s.items.len() as int) =~= r.items.take(s2.items.len() as int).take(
                    s.items.len() as int,
                ));
            },
            Err(_) => {},
        }
    }
}

/// A `<Domain>` element read first gives the first listed domain, made of its
/// attributes (keys compared lowercased): name, user, creation and expiry
/// dates and WhoisGuard are the texts of `Name`, `User`, `Created`, `Expires`
/// and `WhoisGuard` (empty when missing), each from its own attribute; the
/// flags are true exactly when `IsExpired`, `IsLocked` and `AutoRenew` read
/// `true` in any ASCII case; an `ID` written as a decimal number is the id,
/// and a missing one gives 0.
pub proof fn lemma_list_item_from_attributes(t: TokenView, e: ElementView, rest: Seq<TokenView>)
    requires
        opens(t, e),
        eq_ic(e.name, "domain"@),
    ensures
        list_outcome(seq![t] + rest) matches Ok(s) ==> {
            &&& s.items.len() >= 1
            &&& (forall|v: Seq<char>| attr_lower(e, "expires"@) == Some(v) ==> s.items[0].expires == v)
            &&& (attr_lower(e, "expires"@) is None ==> s.items[0].expires.len() == 0)
            &&& (forall|v: Seq<char>| attr_lower(e, "created"@) == Some(v) ==> s.items[0].created == v)
            &&& (attr_lower(e, "created"@) is None ==> s.items[0].created.len() == 0)
            &&& (forall|v: Seq<char>| attr_lower(e, "name"@) == Some(v) ==> s.items[0].name == v)
            &&& (forall|v: Seq<char>| attr_lower(e, "user"@) == Some(v) ==> s.items[0].user == v)
            &&& (forall|v: Seq<char>| attr_lower(e, "whoisguard"@) == Some(v) ==> s.items[0].whois_guard == v)
            &&& s.items[0].is_expired == (exists|v: Seq<char>| attr_lower(e, "isexpired"@) == Some(v) && eq_ic(v, "true"@))
            &&& s.items[0].is_locked == (exists|v: Seq<char>| attr_lower(e, "islocked"@) == Some(v) && eq_ic(v, "true"@))
            &&& s.items[0].auto_renew == (exists|v: Seq<char>| attr_lower(e, "autorenew"@) == Some(v) && eq_ic(v, "true"@))
            &&& (forall|n: nat| n <= u64::MAX && attr_lower(e, "id"@) == Some(decimal(n)) ==> s.items[0].id == n)
            &&& (attr_lower(e, "id"@) is None ==> s.items[0].id == 0)
        },
{
    let step = |s: ListState, t: TokenView| list_step(s, t);
    lemma_run_first(t, rest, list_start(), step);
    let s1 = step(list_start(), t);
    assert(s1.items =~= seq![item_of(e)]);
    lemma_list_keep_prefix(rest, s1);
    match list_outcome(seq![t] + rest) {
        Err(_) => {},
        Ok(s) => {
            assert(s.items[0] == s.items.take(1)[0]);
            assert(s.items[0] == item_of(e));
            assert forall|n: nat| n <= u64::MAX && attr_lower(e, "id"@) == Some(decimal(n)) implies s.items[0].id == n by {
                lemma_parse_format_roundtrip(n, u64::MAX as nat);
            }
            match attr_lower(e, "isexpired"@) {
                Some(v) => assert(attr_lower(e, "isexpired"@) == Some(v)),
                None => {},
            }
            match attr_lower(e, "islocked"@) {
                Some(v) => assert(attr_lower(e, "islocked"@) == Some(v)),
                None => {},
            }
            match attr_lower(e, "autorenew"@) {
                Some(v) => assert(attr_lower(e, "autorenew"@) == Some(v)),
                None => {},
            }
        },
    }
}

proof fn lemma_run_eof<S>(s: S, step: spec_fn(S, TokenView) -> S)
    ensures
        run(seq![TokenView::Eof], s, step) == Ok::<S, Seq<char>>(s),
{
    assert(seq![TokenView::Eof][0] == TokenView::Eof);
}

/// A domain's details read from its `<DomainGetInfoResult>` element: the
/// status is the text of its `Status` attribute, `Unknown` when there is none;
/// an `ID` written as a decimal number is the id, and a missing one gives 0.
pub proof fn lemma_info_from_result_element(t: TokenView, e: ElementView)
    requires
        opens(t, e),
        eq_ic(e.name, "domaingetinforesult"@),
    ensures
        info_outcome(seq![t] + seq![TokenView::Eof]) matches Ok(s) && {
            &&& (forall|v: Seq<char>| attr_lower(e, "status"@) == Some(v) ==> s.status == v)
            &&& (attr_lower(e, "status"@) is None ==> s.status == "Unknown"@)
            &&& (forall|n: nat| n <= u64::MAX && attr_lower(e, "id"@) == Some(decimal(n)) ==> s.id == n)
            &&& (attr_lower(e, "id"@) is None ==> s.id == 0)
        },
{
    let step = |s: InfoState, t: TokenView| info_step(s, t);
    lemma_run_first(t, seq![TokenView::Eof], info_start(), step);
    lemma_run_eof(step(info_start(), t), step);
    assert forall|n: nat| n <= u64::MAX && attr_lower(e, "id"@) == Some(decimal(n)) implies step(info_start(), t).id == n by {
        lemma_parse_format_roundtrip(n, u64::MAX as nat);
    }
}

/// The WhoisGuard and DNS flags of a domain's details are read from the
/// `Enabled` attribute of `<WhoisGuard>` and the `IsUsingOurDNS` attribute of
/// `<DnsDetails>`: true exactly when it reads `true` in any ASCII case.
pub proof fn lemma_info_flags_from_elements(t: TokenView, e: ElementView)
    requires
        opens(t, e),
    ensures
        eq_ic(e.name, "whoisguard"@) ==> (info_outcome(seq![t] + seq![TokenView::Eof]) matches Ok(s)
            && s.whois_guard_enabled == (exists|v: Seq<char>| attr_lower(e, "enabled"@) == Some(v) && eq_ic(v, "true"@))),
        eq_ic(e.name, "dnsdetails"@) ==> (info_outcome(seq![t] + seq![TokenView::Eof]) matches Ok(s)
            && s.is_using_our_dns == (exists|v: Seq<char>| attr_lower(e, "isusingourdns"@) == Some(v) && eq_ic(
            v,
            "true"@,
        ))),
{
    reveal_strlit("whoisguard");
    reveal_strlit("dnsdetails");
    reveal_strlit("domaingetinforesult");
    let step = |s: InfoState, t: TokenView| info_step(s, t);
    lemma_run_first(t, seq![TokenView::Eof], info_start(), step);
    lemma_run_eof(step(info_start(), t), step);
    if e.name.len() > 0 {
        assert(eq_ic(e.name, "dnsdetails"@) ==> ascii_lower(e.name[0]) == ascii_lower("dnsdetails"@[0]));
        assert(eq_ic(e.name, "whoisguard"@) ==> ascii_lower(e.name[0]) == ascii_lower("whoisguard"@[0]));
    }
    match attr_lower(e, "enabled"@) {
        Some(v) => assert(attr_lower(e, "enabled"@) == Some(v)),
        None => {},
    }
    match attr_lower(e, "isusingourdns"@) {
        Some(v) => assert(attr_lower(e, "isusingourdns"@) == Some(v)),
        None => {},
    }
}

/// The text of a `<CreatedDate>`, `<ExpiredDate>`, `<IsLocked>` or
/// `<Nameserver>` element is what the details hold for it, trimmed: the dates
/// are that text, the domain is locked exactly when it reads `true` in any
/// ASCII case, and a name server that is not blank is listed.
pub proof fn lemma_info_from_text(e: ElementView, x: Seq<char>)
    ensures
        ({
            let toks = seq![TokenView::Start(e)] + (seq![TokenView::Text(x)] + seq![TokenView::Eof]);
            &&& eq_ic(e.name, "createddate"@) ==> (info_outcome(toks) matches Ok(s) && s.created_date == trim(x))
            &&& eq_ic(e.name, "expireddate"@) ==> (info_outcome(toks) matches Ok(s) && s.expired_date == trim(x))
            &&& eq_ic(e.name, "islocked"@) ==> (info_outcome(toks) matches Ok(s) && s.is_locked == eq_ic(trim(x), "true"@))
            &&& (eq_ic(e.name, "nameserver"@) && trim(x).len() > 0) ==> (info_outcome(toks) matches Ok(s)
                && s.nameservers == seq![trim(x)])
        }),
{
    reveal_strlit("whoisguard");
    reveal_strlit("dnsdetails");
    reveal_strlit("domaingetinforesult");
    reveal_strlit("createddate");
    reveal_strlit("expireddate");
    reveal_strlit("islocked");
    reveal_strlit("nameserver");
    let step = |s: InfoState, t: TokenView| info_step(s, t);
    if e.name.len() > 0 {
        assert(eq_ic(e.name, "dnsdetails"@) ==> ascii_lower(e.name[0]) == ascii_lower("dnsdetails"@[0]));
        assert(eq_ic(e.name, "whoisguard"@) ==> ascii_lower(e.name[0]) == ascii_lower("whoisguard"@[0]));
        assert(eq_ic(e.name, "nameserver"@) ==> ascii_lower(e.name[0]) == ascii_lower("nameserver"@[0]));
        assert(eq_ic(e.name, "createddate"@) ==> ascii_lower(e.name[0]) == ascii_lower("createddate"@[0]));
        assert(eq_ic(e.name, "expireddate"@) ==> ascii_lower(e.name[0]) == ascii_lower("expireddate"@[0]));
    }
    let s1 = step(info_start(), TokenView::Start(e));
    lemma_run_first(TokenView::Start(e), seq![TokenView::Text(x)] + seq![TokenView::Eof], info_start(), step);
    lemma_run_first(TokenView::Text(x), seq![TokenView::Eof], s1, step);
    lemma_run_eof(step(s1, TokenView::Text(x)), step);
    assert(s1.tag == e.name);
    assert(s1.nameservers.len() == 0);
    assert(s1.nameservers.push(trim(x)) =~= seq![trim(x)]);
}

proof fn lemma_envelope_quiet(toks: Seq<TokenView>, s: EnvelopeState)
    requires
        !s.in_errors,
        s.errors.len() == 0,
        forall|i: int| 0 <= i < toks.len() ==> !(#[trigger] toks[i] matches TokenView::Start(e) && eq_ic(e.name, "errors"@)),
    ensures
        run(toks, s, |s: EnvelopeState, t: TokenView| envelope_step(s, t)) matches Ok(r) ==> r.errors.len() == 0,
    decreases toks.len(),
{
    let step = |s: EnvelopeState, t: TokenView| envelope_step(s, t);
    if toks.len() > 0 && !(toks[0] is Eof) && !(toks[0] is Failed) {
        let rest = toks.drop_first();
        assert forall|i: int| 0 <= i < rest.len() implies !(#[trigger] rest[i] matches TokenView::Start(e) && eq_ic(
            e.name,
            "errors"@,
        )) by {
            assert(rest[i] == toks[i + 1]);
        }
        assert(!(toks[0] matches TokenView::Start(e) && eq_ic(e.name, "errors"@)));
        lemma_envelope_quiet(rest, step(s, toks[0]));
    }
}

/// A response without an `<Errors>` element reports no error: checking it
/// gives `Ok` unless the XML itself is malformed.
pub proof fn lemma_no_errors_element_no_error(toks: Seq<TokenView>)
    requires
        forall|i: int| 0 <= i < toks.len() ==> !(#[trigger] toks[i] matches TokenView::Start(e) && eq_ic(e.name, "errors"@)),
    ensures
        envelope_outcome(toks) matches Ok(errs) ==> errs.len() == 0,
{
    lemma_envelope_quiet(toks, envelope_start());
}

/// One `<Error>` inside `<Errors>` is reported with its text, trimmed, after
/// `[number] ` when it has a `Number` attribute; an error with neither number
/// nor text is not reported.
pub proof fn lemma_one_error_reported(errs: ElementView, err: ElementView, x: Seq<char>, end_err: Seq<char>, end_errs: Seq<char>)
    requires
        eq_ic(errs.name, "errors"@),
        eq_ic(err.name, "error"@),
        eq_ic(end_err, "error"@),
        eq_ic(end_errs, "errors"@),
    ensures
        ({
            let toks = seq![TokenView::Start(errs)] + (seq![TokenView::Start(err)] + (seq![TokenView::Text(x)] + (seq![
                TokenView::End(end_err)] + (seq![TokenView::End(end_errs)] + seq![TokenView::Eof]))));
            &&& (forall|n: Seq<char>| attr_ic(err, "number"@) == Some(n) && n.len() > 0 ==> envelope_outcome(toks)
                == Ok::<Seq<Seq<char>>, Seq<char>>(seq!["["@ + n + "] "@ + trim(x)]))
            &&& ((attr_ic(err, "number"@) is None && trim(x).len() > 0) ==> envelope_outcome(toks) == Ok::<
                Seq<Seq<char>>,
                Seq<char>,
            >(seq![trim(x)]))
            &&& ((attr_ic(err, "number"@) is None && trim(x).len() == 0) ==> envelope_outcome(toks) == Ok::<
                Seq<Seq<char>>,
                Seq<char>,
            >(Seq::empty()))
        }),
{
    reveal_strlit("errors");
    reveal_strlit("error");
    reveal_strlit("[");
    reveal_strlit("] ");
    let step = |s: EnvelopeState, t: TokenView| envelope_step(s, t);
    let t5 = seq![TokenView::End(end_errs)] + seq![TokenView::Eof];
    let t4 = seq![TokenView::End(end_err)] + t5;
    let t3 = seq![TokenView::Text(x)] + t4;
    let t2 = seq![TokenView::Start(err)] + t3;
    let s0 = envelope_start();
    let s1 = step(s0, TokenView::Start(errs));
    let s2 = step(s1, TokenView::Start(err));
    let s3 = step(s2, TokenView::Text(x));
    let s4 = step(s3, TokenView::End(end_err));
    let s5 = step(s4, TokenView::End(end_errs));
    lemma_run_first(TokenView::Start(errs), t2, s0, step);
    lemma_run_first(TokenView::Start(err), t3, s1, step);
    lemma_run_first(TokenView::Text(x), t4, s2, step);
    lemma_run_first(TokenView::End(end_err), t5, s3, step);
    lemma_run_first(TokenView::End(end_errs), seq![TokenView::Eof], s4, step);
    lemma_run_eof(s5, step);
    assert(s1.in_errors);
    assert(!eq_ic(err.name, "errors"@));
    assert(s2.text.len() == 0);
    assert(s3.text =~= x);
    assert(!eq_ic(end_err, "errors"@));
    assert(s4.errors == s3.errors.push(error_message(s3.number, s3.text)) || error_message(s3.number, s3.text).len() == 0);
    assert forall|n: Seq<char>| attr_ic(err, "number"@) == Some(n) && n.len() > 0 implies envelope_outcome(
        seq![TokenView::Start(errs)] + t2,
    ) == Ok::<Seq<Seq<char>>, Seq<char>>(seq!["["@ + n + "] "@ + trim(x)]) by {
        assert(s2.number == n);
        assert(error_message(s3.number, s3.text).len() > 0);
        assert(s5.errors =~= seq!["["@ + n + "] "@ + trim(x)]);
    }
    if attr_ic(err, "number"@) is None && trim(x).len() > 0 {
        assert(s5.errors =~= seq![trim(x)]);
    }
    if attr_ic(err, "number"@) is None && trim(x).len() == 0 {
        assert(s5.errors =~= Seq::<Seq<char>>::empty());
    }
}

} // verus!
