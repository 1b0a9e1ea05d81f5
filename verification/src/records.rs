//! The record bookkeeping behind `dns add` and `dns delete`: the API replaces
//! all host records at once, so both commands compute the full new list.

use vstd::prelude::*;
use crate::models::{DnsHostRecord, DnsHostView, host_views};
use crate::text::{eq_ic, eq_ignore_ascii_case};

verus! {

/// The record `dns add` creates: no id yet.
pub open spec fn new_record(
    name: Seq<char>,
    record_type: Seq<char>,
    address: Seq<char>,
    mx_pref: Option<u32>,
    ttl: u32,
) -> DnsHostView {
    DnsHostView { host_id: None, name, record_type, address, mx_pref, ttl }
}

/// `dns add`: the existing records, then the new one.
pub fn add_host_record(
    existing: Vec<DnsHostRecord>,
    name: String,
    record_type: String,
    address: String,
    mx_pref: Option<u32>,
    ttl: u32,
) -> (r: Vec<DnsHostRecord>)
    ensures
        host_views(r@) == host_views(existing@).push(new_record(name@, record_type@, address@, mx_pref, ttl)),
        r@.len() == existing@.len() + 1,
        forall|j: int| 0 <= j < existing@.len() ==> #[trigger] r@[j]@ == existing@[j]@,
        r@.last().host_id is None,
        r@.last().name@ == name@,
        r@.last().record_type@ == record_type@,
        r@.last().address@ == address@,
        r@.last().mx_pref == mx_pref,
        r@.last().ttl == ttl,
{
    let ghost before = host_views(existing@);
    let mut r = existing;
    r.push(DnsHostRecord { host_id: None, name, record_type, address, mx_pref, ttl });
    assert(host_views(r@) =~= before.push(new_record(r@.last().name@, r@.last().record_type@, r@.last().address@, mx_pref, ttl)));
    r
}

/// Whether `dns delete` removes a record: its host name equals `name` up to
/// ASCII case and, when a type is given, so does its type.
pub open spec fn deletes(r: DnsHostView, name: Seq<char>, record_type: Option<Seq<char>>) -> bool {
    eq_ic(r.name, name) && match record_type {
        Some(t) => eq_ic(r.record_type, t),
        None => true,
    }
}

/// The records `dns delete` keeps, in their order.
pub open spec fn kept(rs: Seq<DnsHostView>, name: Seq<char>, record_type: Option<Seq<char>>) -> Seq<DnsHostView>
    decreases rs.len(),
{
    if rs.len() == 0 {
        Seq::empty()
    } else if deletes(rs.last(), name, record_type) {
        kept(rs.drop_last(), name, record_type)
    } else {
        kept(rs.drop_last(), name, record_type).push(rs.last())
    }
}

pub open spec fn str_opt_view(o: Option<&str>) -> Option<Seq<char>> {
    match o {
        Some(s) => Some(s@),
        None => None,
    }
}

fn deletes_record(r: &DnsHostRecord, name: &str, record_type: Option<&str>) -> (b: bool)
    ensures
        b == deletes(r@, name@, str_opt_view(record_type)),
{
    eq_ignore_ascii_case(r.name.as_str(), name) && match record_type {
        Some(t) => eq_ignore_ascii_case(r.record_type.as_str(), t),
        None => true,
    }
}

/// `dns delete`: the records that do not match `name` (and `record_type`, when
/// given), in their order.
pub fn remove_matching_records(existing: &Vec<DnsHostRecord>, name: &str, record_type: Option<&str>) -> (r: Vec<
    DnsHostRecord,
>)
    ensures
        host_views(r@) == kept(host_views(existing@), name@, str_opt_view(record_type)),
{
    let ghost all = host_views(existing@);
    let mut r: Vec<DnsHostRecord> = Vec::new();
    let mut i: usize = 0;
    assert(host_views(r@) =~= kept(all.take(0), name@, str_opt_view(record_type)));
    while i < existing.len()
        invariant
            i <= existing.len(),
            all == host_views(existing@),
            host_views(r@) == kept(all.take(i as int), name@, str_opt_view(record_type)),
        decreases existing.len() - i,
    {
        assert(all.take(i + 1).drop_last() =~= all.take(i as int));
        assert(all.take(i + 1).last() == existing@[i as int]@);
        let ghost before = host_views(r@);
        if !deletes_record(&existing[i], name, record_type) {
            r.push(existing[i].copy());
            assert(host_views(r@) =~= before.push(existing@[i as int]@));
        }
        i = i + 1;
    }
    assert(all.take(existing.len() as int) =~= all);
    r
}

/// `dns delete` keeps exactly the records that do not match, in order: none
/// it keeps matches, each one that does not match is kept, and it keeps every
/// record exactly when none matches.
pub proof fn lemma_delete_keeps_the_rest(rs: Seq<DnsHostView>, name: Seq<char>, record_type: Option<Seq<char>>)
    ensures
        forall|j: int| 0 <= j < kept(rs, name, record_type).len() ==> !deletes(
            #[trigger] kept(rs, name, record_type)[j],
            name,
            record_type,
        ),
        kept(rs, name, record_type).len() <= rs.len(),
        (kept(rs, name, record_type).len() == rs.len()) <==> (forall|j: int|
            0 <= j < rs.len() ==> !deletes(#[trigger] rs[j], name, record_type)),
        (forall|j: int| 0 <= j < rs.len() ==> !deletes(#[trigger] rs[j], name, record_type)) ==> kept(
            rs,
            name,
            record_type,
        ) == rs,
    decreases rs.len(),
{
    if rs.len() > 0 {
        let p = rs.drop_last();
        lemma_delete_keeps_the_rest(p, name, record_type);
        assert forall|j: int| 0 <= j < p.len() implies p[j] == rs[j] by {}
        if (forall|j: int| 0 <= j < rs.len() ==> !deletes(#[trigger] rs[j], name, record_type)) {
            assert(forall|j: int| 0 <= j < p.len() ==> !deletes(#[trigger] p[j], name, record_type)) by {
                assert forall|j: int| 0 <= j < p.len() implies !deletes(#[trigger] p[j], name, record_type) by {
                    assert(p[j] == rs[j]);
                }
            }
            assert(!deletes(rs[rs.len() - 1], name, record_type));
            assert(kept(rs, name, record_type) =~= rs);
        }
        if kept(rs, name, record_type).len() == rs.len() {
            assert(!deletes(rs.last(), name, record_type));
            assert forall|j: int| 0 <= j < rs.len() implies !deletes(#[trigger] rs[j], name, record_type) by {
                if j < rs.len() - 1 {
                    assert(rs[j] == p[j]);
                }
            }
        }
    }
}

} // verus!

verus! {

/// Deleting what was just added: after `dns add` of a record, `dns delete`
/// with its host name and type leaves what deleting them from the records
/// before the addition leaves.
pub proof fn lemma_delete_undoes_add(
    rs: Seq<DnsHostView>,
    name: Seq<char>,
    record_type: Seq<char>,
    address: Seq<char>,
    mx_pref: Option<u32>,
    ttl: u32,
)
    ensures
        kept(rs.push(new_record(name, record_type, address, mx_pref, ttl)), name, Some(record_type)) == kept(
            rs,
            name,
            Some(record_type),
        ),
{
    let x = new_record(name, record_type, address, mx_pref, ttl);
    assert(eq_ic(x.name, name));
    assert(eq_ic(x.record_type, record_type));
    assert(rs.push(x).drop_last() =~= rs);
}

} // verus!

verus! {

/// What a record appended by `dns add` holds: no id, and the host name, type,
/// address, MX preference and TTL it was given, each in its own field.
pub proof fn lemma_added_record_fields(
    rs: Seq<DnsHostView>,
    name: Seq<char>,
    record_type: Seq<char>,
    address: Seq<char>,
    mx_pref: Option<u32>,
    ttl: u32,
)
    ensures
        ({
            let added = rs.push(new_record(name, record_type, address, mx_pref, ttl));
            &&& added.len() == rs.len() + 1
            &&& added.last().host_id is None
            &&& added.last().name == name
            &&& added.last().record_type == record_type
            &&& added.last().address == address
            &&& added.last().mx_pref == mx_pref
            &&& added.last().ttl == ttl
        }),
{
}

proof fn lemma_kept_members(rs: Seq<DnsHostView>, name: Seq<char>, record_type: Option<Seq<char>>)
    ensures
        forall|j: int| 0 <= j < rs.len() && !deletes(rs[j], name, record_type) ==> kept(rs, name, record_type).contains(
            #[trigger] rs[j],
        ),
        forall|x: DnsHostView| #[trigger] kept(rs, name, record_type).contains(x) ==> rs.contains(x) && !deletes(
            x,
            name,
            record_type,
        ),
    decreases rs.len(),
{
    if rs.len() > 0 {
        let p = rs.drop_last();
        lemma_kept_members(p, name, record_type);
        let k = kept(rs, name, record_type);
        let kp = kept(p, name, record_type);
        assert forall|j: int| 0 <= j < rs.len() && !deletes(rs[j], name, record_type) implies k.contains(
            #[trigger] rs[j],
        ) by {
            if j < rs.len() - 1 {
                assert(rs[j] == p[j]);
                assert(kp.contains(p[j]));
                let i = choose|i: int| 0 <= i < kp.len() && kp[i] == p[j];
                if !deletes(rs.last(), name, record_type) {
                    assert(k[i] == kp[i]);
                }
            } else {
                assert(k.last() == rs.last());
            }
        }
        assert forall|x: DnsHostView| #[trigger] k.contains(x) implies rs.contains(x) && !deletes(x, name, record_type) by {
            let i = choose|i: int| 0 <= i < k.len() && k[i] == x;
            if i < kp.len() {
                assert(k[i] == kp[i]);
                assert(kp.contains(x));
                let m = choose|m: int| 0 <= m < p.len() && p[m] == x;
                assert(rs[m] == x);
            } else {
                assert(x == rs.last());
                assert(rs[rs.len() - 1] == x);
            }
        }
    }
}

/// `dns delete` removes exactly the records it was asked to: a record whose
/// host name differs from `name` up to ASCII case is kept; with a type given,
/// a record whose type differs from it up to ASCII case (a different length
/// included) is kept; no record left has both a matching name and, when a
/// type is given, a matching type; and every record left was there before.
pub proof fn lemma_delete_removes_only_matches(rs: Seq<DnsHostView>, name: Seq<char>, t: Seq<char>)
    ensures
        forall|j: int| 0 <= j < rs.len() && !eq_ic(rs[j].name, name) ==> #[trigger] kept(rs, name, Some(t)).contains(
            rs[j],
        ),
        forall|j: int| 0 <= j < rs.len() && !eq_ic(rs[j].name, name) ==> #[trigger] kept(rs, name, None).contains(
            rs[j],
        ),
        forall|j: int| 0 <= j < rs.len() && !eq_ic(rs[j].record_type, t) ==> #[trigger] kept(rs, name, Some(t)).contains(
            rs[j],
        ),
        forall|j: int| 0 <= j < rs.len() && rs[j].record_type.len() != t.len() ==> #[trigger] kept(rs, name, Some(t)).contains(
            rs[j],
        ),
        forall|x: DnsHostView| #[trigger] kept(rs, name, Some(t)).contains(x) ==> rs.contains(x) && !(eq_ic(x.name, name)
            && eq_ic(x.record_type, t)),
        forall|x: DnsHostView| #[trigger] kept(rs, name, None).contains(x) ==> rs.contains(x) && !eq_ic(x.name, name),
{
    lemma_kept_members(rs, name, Some(t));
    lemma_kept_members(rs, name, None);
}

} // verus!
