//! Splitting a domain name into its second-level label and its top-level
//! domain, as the DNS commands of the API take them.

use vstd::prelude::*;
use crate::text::{
    ascii_lower, ascii_lowercase, ends_with, ends_with_str, eq_ic, is_ascii, is_ws, last_index_of, lemma_ascii_lower_char,
    lemma_last_index_of, lemma_trim_end_at, lemma_trim_start_at, lowercase, rfind_char, to_lowercase, trim, trim_end,
    trim_end_char, trim_end_matches_char, trim_start, trim_str,
};

verus! {

/// The number of two-label top-level domains the splitting knows.
pub open spec fn two_part_count() -> int {
    17
}

/// The two-label top-level domains, in the order they are tried.
pub open spec fn two_part_tld(i: int) -> Seq<char> {
    if i == 0 { "co.uk"@ }
    else if i == 1 { "org.uk"@ }
    else if i == 2 { "me.uk"@ }
    else if i == 3 { "com.au"@ }
    else if i == 4 { "net.au"@ }
    else if i == 5 { "org.au"@ }
    else if i == 6 { "co.nz"@ }
    else if i == 7 { "net.nz"@ }
    else if i == 8 { "org.nz"@ }
    else if i == 9 { "co.za"@ }
    else if i == 10 { "com.br"@ }
    else if i == 11 { "co.jp"@ }
    else if i == 12 { "com.sg"@ }
    else if i == 13 { "com.mx"@ }
    else if i == 14 { "co.in"@ }
    else if i == 15 { "net.in"@ }
    else { "org.in"@ }
}

fn two_part_tld_str(i: usize) -> (r: &'static str)
    requires
        i < 17,
    ensures
        r@ == two_part_tld(i as int),
{
    if i == 0 { "co.uk" }
    else if i == 1 { "org.uk" }
    else if i == 2 { "me.uk" }
    else if i == 3 { "com.au" }
    else if i == 4 { "net.au" }
    else if i == 5 { "org.au" }
    else if i == 6 { "co.nz" }
    else if i == 7 { "net.nz" }
    else if i == 8 { "org.nz" }
    else if i == 9 { "co.za" }
    else if i == 10 { "com.br" }
    else if i == 11 { "co.jp" }
    else if i == 12 { "com.sg" }
    else if i == 13 { "com.mx" }
    else if i == 14 { "co.in" }
    else if i == 15 { "net.in" }
    else { "org.in" }
}

/// The first two-label top-level domain, from position `i` of the list on,
/// that `clean` ends with (after a dot).
pub open spec fn find_two_part(clean: Seq<char>, i: int) -> Option<int>
    decreases two_part_count() - i,
{
    if i >= two_part_count() || i < 0 {
        None
    } else if ends_with(clean, "."@ + two_part_tld(i)) {
        Some(i)
    } else {
        find_two_part(clean, i + 1)
    }
}

/// The part of `s` after its last dot (all of `s` when it has none).
pub open spec fn last_label(s: Seq<char>) -> Seq<char> {
    s.subrange(last_index_of(s, '.') + 1, s.len() as int)
}

/// The split of a cleaned domain name: a known two-label top-level domain
/// that it ends with, else what follows its last dot, is the top-level domain,
/// and the label just before it is the second-level label; a name without a
/// dot is all label and no top-level domain.
pub open spec fn split_clean(clean: Seq<char>) -> (Seq<char>, Seq<char>) {
    match find_two_part(clean, 0) {
        Some(i) => {
            let tld = two_part_tld(i);
            (last_label(clean.subrange(0, clean.len() - tld.len() - 1)), tld)
        },
        None => {
            let pos = last_index_of(clean, '.');
            if pos >= 0 {
                (last_label(clean.subrange(0, pos)), clean.subrange(pos + 1, clean.len() as int))
            } else {
                (clean, Seq::empty())
            }
        },
    }
}

/// A domain name as `split_domain` compares it: trimmed, without trailing
/// dots, lowercased.
pub open spec fn clean_domain(domain: Seq<char>) -> Seq<char> {
    lowercase(trim_end_char(trim(domain), '.'))
}

fn last_label_of(s: &str) -> (r: String)
    ensures
        r@ == last_label(s@),
{
    proof {
        lemma_last_index_of(s@, '.');
    }
    let n = s.unicode_len();
    match rfind_char(s, '.') {
        Some(p) => String::from_str(s.substring_char(p + 1, n)),
        None => String::from_str(s.substring_char(0, n)),
    }
}

/// Splits a cleaned domain name into (second-level label, top-level domain);
/// see [`split_clean`].
pub fn split_clean_domain(clean: &str) -> (r: (String, String))
    ensures
        (r.0@, r.1@) == split_clean(clean@),
{
    let n = clean.unicode_len();
    let mut i: usize = 0;
    while i < 17
        invariant
            i <= 17,
            n == clean@.len(),
            find_two_part(clean@, 0) == find_two_part(clean@, i as int),
        decreases 17 - i,
    {
        let tld = two_part_tld_str(i);
        proof {
            reveal_strlit(".");
        }
        let mut suffix = String::from_str(".");
        suffix.append(tld);
        if ends_with_str(clean, suffix.as_str()) {
            let m = tld.unicode_len();
            let sld = clean.substring_char(0, n - m - 1);
            return (last_label_of(sld), String::from_str(tld));
        }
        i = i + 1;
    }
    proof {
        lemma_last_index_of(clean@, '.');
    }
    match rfind_char(clean, '.') {
        Some(pos) => {
            let pre = clean.substring_char(0, pos);
            (last_label_of(pre), String::from_str(clean.substring_char(pos + 1, n)))
        },
        None => (String::from_str(clean), String::new()),
    }
}

/// Splits a domain name into (second-level label, top-level domain)
/// (`split_domain`): `example.com` gives (`example`, `com`), `mysite.co.uk`
/// gives (`mysite`, `co.uk`).
pub fn split_domain(domain: &str) -> (r: (String, String))
    ensures
        (r.0@, r.1@) == split_clean(clean_domain(domain@)),
{
    let trimmed = trim_str(domain);
    let undotted = trim_end_matches_char(trimmed.as_str(), '.');
    let clean = to_lowercase(undotted.as_str());
    split_clean_domain(clean.as_str())
}

} // verus!

verus! {

proof fn lemma_last_label(s: Seq<char>)
    ensures
        !last_label(s).contains('.'),
        ends_with(s, last_label(s)),
{
    lemma_last_index_of(s, '.');
    let l = last_label(s);
    let p = last_index_of(s, '.');
    assert forall|j: int| 0 <= j < l.len() implies l[j] != '.' by {
        assert(l[j] == s[p + 1 + j]);
    }
    assert(s.subrange(s.len() - l.len(), s.len() as int) =~= l);
}

proof fn lemma_find_two_part(clean: Seq<char>, i: int)
    requires
        0 <= i,
    ensures
        find_two_part(clean, i) matches Some(k) ==> i <= k < two_part_count() && ends_with(
            clean,
            "."@ + two_part_tld(k),
        ),
    decreases two_part_count() - i,
{
    if i < two_part_count() && !ends_with(clean, "."@ + two_part_tld(i)) {
        lemma_find_two_part(clean, i + 1);
    }
}

/// What a split keeps of the name: the second-level label holds no dot; the
/// top-level domain is one of the known two-label ones or holds no dot; a name
/// with a dot ends with `label.tld`, and a name without one is all label, with
/// no top-level domain.
pub proof fn lemma_split_clean_is_suffix(clean: Seq<char>)
    ensures
        ({
            let (label, tld) = split_clean(clean);
            &&& !label.contains('.')
            &&& (exists|i: int| 0 <= i < two_part_count() && tld == two_part_tld(i)) || !tld.contains('.')
            &&& clean.contains('.') ==> ends_with(clean, label + "."@ + tld)
            &&& !clean.contains('.') ==> label == clean && tld.len() == 0
        }),
{
    reveal_strlit(".");
    lemma_find_two_part(clean, 0);
    lemma_last_index_of(clean, '.');
    let (label, tld) = split_clean(clean);
    match find_two_part(clean, 0) {
        Some(k) => {
            let pre = clean.subrange(0, clean.len() - tld.len() - 1);
            lemma_last_label(pre);
            let suf = "."@ + tld;
            assert(suf[0] == '.');
            assert(clean.subrange(clean.len() - suf.len(), clean.len() as int)[0] == clean[clean.len() - suf.len()]);
            assert(clean[clean.len() - tld.len() - 1] == '.');
            let whole = label + "."@ + tld;
            let n = clean.len();
            assert forall|j: int| 0 <= j < whole.len() implies clean.subrange(n - whole.len(), n as int)[j]
                == whole[j] by {
                if j < label.len() {
                    assert(whole[j] == label[j]);
                    assert(label[j] == pre[pre.len() - label.len() + j]);
                } else {
                    assert(whole[j] == ("."@ + tld)[j - label.len()]);
                    assert(("."@ + tld) == clean.subrange(n - tld.len() - 1, n as int));
                }
            }
            assert(clean.subrange(n - whole.len(), n as int) =~= whole);
        },
        None => {
            let pos = last_index_of(clean, '.');
            if pos >= 0 {
                let pre = clean.subrange(0, pos);
                lemma_last_label(pre);
                assert forall|j: int| 0 <= j < tld.len() implies tld[j] != '.' by {
                    assert(tld[j] == clean[pos + 1 + j]);
                }
                let whole = label + "."@ + tld;
                let n = clean.len();
                assert forall|j: int| 0 <= j < whole.len() implies clean.subrange(n - whole.len(), n as int)[j]
                    == whole[j] by {
                    if j < label.len() {
                        assert(whole[j] == label[j]);
                        assert(label[j] == pre[pre.len() - label.len() + j]);
                    } else if j == label.len() {
                        assert(whole[j] == '.');
                    } else {
                        assert(whole[j] == tld[j - label.len() - 1]);
                    }
                }
                assert(clean.subrange(n - whole.len(), n as int) =~= whole);
                assert(clean[pos] == '.');
            } else {
                assert forall|j: int| 0 <= j < clean.len() implies clean[j] != '.' by {}
            }
        },
    }
}

} // verus!

verus! {

/// The text holds no dot.
pub open spec fn dot_free(s: Seq<char>) -> bool {
    forall|j: int| 0 <= j < s.len() ==> s[j] != '.'
}

/// The text is one of the two-label top-level domains the splitting knows.
pub open spec fn is_two_part(t: Seq<char>) -> bool {
    exists|i: int| 0 <= i < two_part_count() && t == #[trigger] two_part_tld(i)
}

/// The first label of each known two-label top-level domain.
pub open spec fn two_part_first(i: int) -> Seq<char> {
    if i == 0 || i == 6 || i == 9 || i == 11 || i == 14 { "co"@ }
    else if i == 1 || i == 5 || i == 8 || i == 16 { "org"@ }
    else if i == 2 { "me"@ }
    else if i == 3 || i == 10 || i == 12 || i == 13 { "com"@ }
    else { "net"@ }
}

/// The second label of each known two-label top-level domain.
pub open spec fn two_part_second(i: int) -> Seq<char> {
    if i <= 2 { "uk"@ }
    else if i <= 5 { "au"@ }
    else if i <= 8 { "nz"@ }
    else if i == 9 { "za"@ }
    else if i == 10 { "br"@ }
    else if i == 11 { "jp"@ }
    else if i == 12 { "sg"@ }
    else if i == 13 { "mx"@ }
    else { "in"@ }
}

proof fn lemma_labels_dot_free()
    ensures
        dot_free("co"@), dot_free("org"@), dot_free("me"@), dot_free("com"@), dot_free("net"@),
        dot_free("uk"@), dot_free("au"@), dot_free("nz"@), dot_free("za"@), dot_free("br"@),
        dot_free("jp"@), dot_free("sg"@), dot_free("mx"@), dot_free("in"@),
{
    reveal_strlit("co"); reveal_strlit("org"); reveal_strlit("me"); reveal_strlit("com");
    reveal_strlit("net"); reveal_strlit("uk"); reveal_strlit("au"); reveal_strlit("nz");
    reveal_strlit("za"); reveal_strlit("br"); reveal_strlit("jp"); reveal_strlit("sg");
    reveal_strlit("mx"); reveal_strlit("in");
}

/// Each known two-label top-level domain is two dot-free labels around one dot.
proof fn lemma_two_part_shape(i: int)
    requires
        0 <= i < two_part_count(),
    ensures
        two_part_tld(i) == two_part_first(i) + "."@ + two_part_second(i),
        dot_free(two_part_first(i)),
        dot_free(two_part_second(i)),
        two_part_second(i).len() > 0,
{
    lemma_labels_dot_free();
    reveal_strlit("."); reveal_strlit("co"); reveal_strlit("org"); reveal_strlit("me");
    reveal_strlit("com"); reveal_strlit("net"); reveal_strlit("uk"); reveal_strlit("au");
    reveal_strlit("nz"); reveal_strlit("za"); reveal_strlit("br"); reveal_strlit("jp");
    reveal_strlit("sg"); reveal_strlit("mx"); reveal_strlit("in");
    if i == 0 { reveal_strlit("co.uk"); }
    else if i == 1 { reveal_strlit("org.uk"); }
    else if i == 2 { reveal_strlit("me.uk"); }
    else if i == 3 { reveal_strlit("com.au"); }
    else if i == 4 { reveal_strlit("net.au"); }
    else if i == 5 { reveal_strlit("org.au"); }
    else if i == 6 { reveal_strlit("co.nz"); }
    else if i == 7 { reveal_strlit("net.nz"); }
    else if i == 8 { reveal_strlit("org.nz"); }
    else if i == 9 { reveal_strlit("co.za"); }
    else if i == 10 { reveal_strlit("com.br"); }
    else if i == 11 { reveal_strlit("co.jp"); }
    else if i == 12 { reveal_strlit("com.sg"); }
    else if i == 13 { reveal_strlit("com.mx"); }
    else if i == 14 { reveal_strlit("co.in"); }
    else if i == 15 { reveal_strlit("net.in"); }
    else { reveal_strlit("org.in"); }
    assert(two_part_tld(i) =~= two_part_first(i) + "."@ + two_part_second(i));
}

/// In `q.x` with `x` dot-free, the last dot is the one after `q`, and the
/// last label is `x`.
proof fn lemma_last_dot(q: Seq<char>, x: Seq<char>)
    requires
        dot_free(x),
    ensures
        last_index_of(q + "."@ + x, '.') == q.len(),
        last_label(q + "."@ + x) == x,
        (q + "."@ + x).subrange(0, q.len() as int) == q,
{
    reveal_strlit(".");
    let s = q + "."@ + x;
    lemma_last_index_of(s, '.');
    assert(s[q.len() as int] == '.');
    let r = last_index_of(s, '.');
    if r > q.len() {
        assert(s[r] == x[r - q.len() - 1]);
    }
    assert(s.subrange(q.len() as int + 1, s.len() as int) =~= x);
    assert(s.subrange(0, q.len() as int) =~= q);
}

/// A dot-free text has no dot to split at: it is its own last label.
proof fn lemma_no_dot(q: Seq<char>)
    requires
        dot_free(q),
    ensures
        last_index_of(q, '.') == -1,
        last_label(q) == q,
{
    lemma_last_index_of(q, '.');
    assert(q.subrange(0, q.len() as int) =~= q);
}

/// The last label of `p` then `sld` is `sld`, when `p` is empty or ends
/// with a dot.
proof fn lemma_label_after_prefix(p: Seq<char>, sld: Seq<char>)
    requires
        dot_free(sld),
        p.len() == 0 || p.last() == '.',
    ensures
        last_label(p + sld) == sld,
{
    reveal_strlit(".");
    if p.len() == 0 {
        assert(p + sld =~= sld);
        lemma_no_dot(sld);
    } else {
        let q = p.drop_last();
        assert(p + sld =~= q + "."@ + sld);
        lemma_last_dot(q, sld);
    }
}

/// A text `y.b` with `b` dot-free ends with `.b2` for a dot-free `b2` only
/// when `b2` is `b`; then what stands before is `y`.
proof fn lemma_dot_suffix(y: Seq<char>, b: Seq<char>, b2: Seq<char>)
    requires
        dot_free(b),
        dot_free(b2),
        ends_with(y + "."@ + b, "."@ + b2),
    ensures
        b2 == b,
{
    reveal_strlit(".");
    let s = y + "."@ + b;
    let q = s.subrange(0, s.len() - b2.len() - 1);
    let t = "."@ + b2;
    assert(s.subrange(s.len() - t.len(), s.len() as int) == t);
    assert(s =~= q + "."@ + b2) by {
        assert forall|j: int| 0 <= j < s.len() implies s[j] == (q + "."@ + b2)[j] by {
            if j >= q.len() {
                assert(s[j] == s.subrange(s.len() - t.len(), s.len() as int)[j - q.len()]);
            }
        }
    }
    lemma_last_dot(y, b);
    lemma_last_dot(q, b2);
}

/// A text `y.b` with `b` dot-free ends with `.a2.b2`, both dot-free, only when
/// `b2` is `b` and `y` ends with `.a2`.
proof fn lemma_two_label_suffix(y: Seq<char>, b: Seq<char>, a2: Seq<char>, b2: Seq<char>)
    requires
        dot_free(b),
        dot_free(a2),
        dot_free(b2),
        ends_with(y + "."@ + b, "."@ + (a2 + "."@ + b2)),
    ensures
        b2 == b,
        ends_with(y, "."@ + a2),
{
    reveal_strlit(".");
    let s = y + "."@ + b;
    let t = "."@ + (a2 + "."@ + b2);
    let n = s.len();
    assert(s.subrange(n - t.len(), n as int) == t);
    assert(ends_with(s, "."@ + b2)) by {
        assert(s.subrange(n - b2.len() - 1, n as int) =~= "."@ + b2) by {
            assert forall|j: int| 0 <= j < b2.len() + 1 implies s.subrange(n - b2.len() - 1, n as int)[j]
                == ("."@ + b2)[j] by {
                assert(s[n - b2.len() - 1 + j] == t[t.len() - b2.len() - 1 + j]);
            }
        }
    }
    lemma_dot_suffix(y, b, b2);
    lemma_last_dot(y, b);
    assert(s.subrange(0, y.len() as int) == y);
    assert(y.subrange(y.len() - a2.len() - 1, y.len() as int) =~= "."@ + a2) by {
        assert forall|j: int| 0 <= j < a2.len() + 1 implies y.subrange(y.len() - a2.len() - 1, y.len() as int)[j]
            == ("."@ + a2)[j] by {
            assert(y[y.len() - a2.len() - 1 + j] == s[y.len() - a2.len() - 1 + j]);
            assert(s[n - t.len() + j] == t[j]);
        }
    }
}

/// `p` then `sld` ends with `.a2`, `a2` dot-free, only when `p` is not empty
/// and `a2` is `sld`.
proof fn lemma_prefix_label_suffix(p: Seq<char>, sld: Seq<char>, a2: Seq<char>)
    requires
        dot_free(sld),
        dot_free(a2),
        p.len() == 0 || p.last() == '.',
        ends_with(p + sld, "."@ + a2),
    ensures
        p.len() > 0,
        a2 == sld,
{
    reveal_strlit(".");
    let y = p + sld;
    let t = "."@ + a2;
    assert(y.subrange(y.len() - t.len(), y.len() as int) == t);
    if p.len() == 0 {
        assert(y =~= sld);
        assert(y[y.len() - t.len()] == t[0]);
    } else {
        let q = p.drop_last();
        assert(y =~= q + "."@ + sld);
        lemma_dot_suffix(q, sld, a2);
    }
}

/// No entry from `i` on matches: the search from `i` finds nothing.
proof fn lemma_find_none(clean: Seq<char>, i: int)
    requires
        0 <= i,
        forall|j: int| i <= j < two_part_count() ==> !ends_with(clean, "."@ + #[trigger] two_part_tld(j)),
    ensures
        find_two_part(clean, i) is None,
    decreases two_part_count() - i,
{
    if i < two_part_count() {
        lemma_find_none(clean, i + 1);
    }
}

/// An entry from `i` on matches: the search from `i` finds one.
proof fn lemma_find_some(clean: Seq<char>, i: int, k: int)
    requires
        0 <= i <= k < two_part_count(),
        ends_with(clean, "."@ + two_part_tld(k)),
    ensures
        find_two_part(clean, i) is Some,
    decreases k - i,
{
    if i < k && !ends_with(clean, "."@ + two_part_tld(i)) {
        lemma_find_some(clean, i + 1, k);
    }
}

/// The split of a name built from its parts gives the parts back: a
/// non-empty dot-free second-level label `sld`, after nothing or after labels
/// ending with a dot (`p`), then a dot and a top-level domain `tld` that is a
/// non-empty dot-free label or one of the known two-label ones, splits into
/// (`sld`, `tld`), as long as `sld.tld` is not itself a known two-label
/// top-level domain.
pub proof fn lemma_split_clean_parts(p: Seq<char>, sld: Seq<char>, tld: Seq<char>)
    requires
        sld.len() > 0,
        dot_free(sld),
        (tld.len() > 0 && dot_free(tld)) || is_two_part(tld),
        !is_two_part(sld + "."@ + tld),
        p.len() == 0 || p.last() == '.',
    ensures
        split_clean(p + sld + "."@ + tld) == (sld, tld),
{
    reveal_strlit(".");
    let x = p + sld + "."@ + tld;
    let y = p + sld;
    if is_two_part(tld) {
        let i = choose|i: int| 0 <= i < two_part_count() && tld == #[trigger] two_part_tld(i);
        lemma_two_part_shape(i);
        let a = two_part_first(i);
        let b = two_part_second(i);
        let ya = y + "."@ + a;
        assert(x =~= ya + "."@ + b);
        assert(ends_with(x, "."@ + tld)) by {
            assert(x.subrange(y.len() as int, x.len() as int) =~= "."@ + tld);
        }
        lemma_find_some(x, 0, i);
        lemma_find_two_part(x, 0);
        let k = find_two_part(x, 0)->0;
        lemma_two_part_shape(k);
        let a2 = two_part_first(k);
        let b2 = two_part_second(k);
        lemma_two_label_suffix(ya, b, a2, b2);
        lemma_dot_suffix(y, a, a2);
        assert(two_part_tld(k) == tld);
        assert(x.subrange(0, x.len() - tld.len() - 1) =~= y);
        lemma_label_after_prefix(p, sld);
    } else {
        assert forall|j: int| 0 <= j < two_part_count() implies !ends_with(x, "."@ + #[trigger] two_part_tld(j)) by {
            lemma_two_part_shape(j);
            let a2 = two_part_first(j);
            let b2 = two_part_second(j);
            if ends_with(x, "."@ + two_part_tld(j)) {
                lemma_two_label_suffix(y, tld, a2, b2);
                lemma_prefix_label_suffix(p, sld, a2);
                assert(two_part_tld(j) == sld + "."@ + tld);
            }
        }
        lemma_find_none(x, 0);
        lemma_last_dot(y, tld);
        lemma_label_after_prefix(p, sld);
    }
}

/// `k` dots.
pub open spec fn dots(k: nat) -> Seq<char> {
    Seq::new(k, |i: int| '.')
}

/// Every character is whitespace.
pub open spec fn all_ws(s: Seq<char>) -> bool {
    forall|j: int| 0 <= j < s.len() ==> is_ws(#[trigger] s[j])
}

proof fn lemma_trim_len(s: Seq<char>)
    ensures
        trim_start(s).len() <= s.len(),
        trim_end(s).len() <= s.len(),
    decreases s.len(),
{
    if s.len() > 0 {
        lemma_trim_len(s.drop_first());
        lemma_trim_len(s.drop_last());
    }
}

/// A text that trimming leaves alone neither starts nor ends with whitespace.
proof fn lemma_trimmed_edges(d: Seq<char>)
    requires
        trim(d) == d,
        d.len() > 0,
    ensures
        !is_ws(d[0]),
        !is_ws(d.last()),
{
    lemma_trim_len(d);
    lemma_trim_len(d.drop_first());
    lemma_trim_len(trim_start(d));
    lemma_trim_len(d.drop_last());
    if !is_ws(d[0]) {
        assert(trim_start(d) == d);
    }
}

proof fn lemma_trim_end_dots(d: Seq<char>, k: nat)
    ensures
        trim_end_char(d + dots(k), '.') == trim_end_char(d, '.'),
    decreases k,
{
    if k > 0 {
        let s = d + dots(k);
        assert(s.last() == '.');
        assert(s.drop_last() =~= d + dots((k - 1) as nat));
        lemma_trim_end_dots(d, (k - 1) as nat);
    } else {
        assert(d + dots(0) =~= d);
    }
}

/// Whitespace around a domain name and dots after it do not change how it
/// splits: `split_domain` of the name padded so gives what it gives of the name.
pub proof fn lemma_split_ignores_padding(domain: Seq<char>, w1: Seq<char>, w2: Seq<char>, k: nat)
    requires
        trim(domain) == domain,
        all_ws(w1),
        all_ws(w2),
    ensures
        clean_domain(w1 + domain + dots(k) + w2) == clean_domain(domain),
        split_clean(clean_domain(w1 + domain + dots(k) + w2)) == split_clean(clean_domain(domain)),
{
    let m = domain + dots(k);
    let s = w1 + domain + dots(k) + w2;
    assert(s =~= w1 + (m + w2));
    if m.len() == 0 {
        assert(all_ws(s));
        lemma_trim_start_at(s, s.len() as int);
        assert(trim_start(s).len() == 0);
        assert(trim(s) == trim_end(Seq::<char>::empty()));
        assert(domain =~= Seq::<char>::empty());
        assert(trim(s) =~= m);
    } else {
        if domain.len() > 0 {
            lemma_trimmed_edges(domain);
        }
        assert(!is_ws(s[w1.len() as int])) by {
            assert(s[w1.len() as int] == m[0]);
            if domain.len() == 0 {
                assert(m[0] == dots(k)[0]);
            }
        }
        lemma_trim_start_at(s, w1.len() as int);
        let mw = m + w2;
        assert(s.subrange(w1.len() as int, s.len() as int) =~= mw);
        assert(!is_ws(mw[m.len() - 1])) by {
            assert(mw[m.len() - 1] == m.last());
            if k > 0 {
                assert(m.last() == dots(k)[k - 1]);
            } else {
                assert(m.last() == domain.last());
            }
        }
        assert forall|i: int| m.len() <= i < mw.len() implies is_ws(#[trigger] mw[i]) by {
            assert(mw[i] == w2[i - m.len()]);
        }
        lemma_trim_end_at(mw, m.len() as int);
        assert(mw.subrange(0, m.len() as int) =~= m);
    }
    lemma_trim_end_dots(domain, k);
}

proof fn lemma_ic_shift(a: Seq<char>, b: Seq<char>)
    requires
        eq_ic(a, b),
        a.len() > 0,
    ensures
        eq_ic(a.drop_first(), b.drop_first()),
        eq_ic(a.drop_last(), b.drop_last()),
        ascii_lower(a[0]) == ascii_lower(b[0]),
        ascii_lower(a.last()) == ascii_lower(b.last()),
{
    assert forall|i: int| 0 <= i < a.len() - 1 implies ascii_lower(#[trigger] a.drop_first()[i]) == ascii_lower(
        b.drop_first()[i],
    ) by {
        assert(ascii_lower(a[i + 1]) == ascii_lower(b[i + 1]));
    }
    assert forall|i: int| 0 <= i < a.len() - 1 implies ascii_lower(#[trigger] a.drop_last()[i]) == ascii_lower(
        b.drop_last()[i],
    ) by {
        assert(ascii_lower(a[i]) == ascii_lower(b[i]));
    }
    assert(ascii_lower(a[a.len() - 1]) == ascii_lower(b[a.len() - 1]));
}

proof fn lemma_ascii_shift(a: Seq<char>)
    requires
        is_ascii(a),
        a.len() > 0,
    ensures
        is_ascii(a.drop_first()),
        is_ascii(a.drop_last()),
{
    assert forall|i: int| 0 <= i < a.len() - 1 implies (#[trigger] a.drop_first()[i] as u32) < 128 by {
        assert((a[i + 1] as u32) < 128);
    }
    assert forall|i: int| 0 <= i < a.len() - 1 implies (#[trigger] a.drop_last()[i] as u32) < 128 by {
        assert((a[i] as u32) < 128);
    }
}

/// Texts equal up to ASCII case stay so after each step of cleaning, and
/// ASCII text stays ASCII.
proof fn lemma_ic_clean_steps(a: Seq<char>, b: Seq<char>)
    requires
        eq_ic(a, b),
        is_ascii(a),
    ensures
        eq_ic(trim_start(a), trim_start(b)),
        eq_ic(trim_end(a), trim_end(b)),
        eq_ic(trim_end_char(a, '.'), trim_end_char(b, '.')),
        is_ascii(trim_start(a)),
        is_ascii(trim_end(a)),
        is_ascii(trim_end_char(a, '.')),
    decreases a.len(),
{
    if a.len() > 0 {
        lemma_ic_shift(a, b);
        lemma_ascii_shift(a);
        lemma_ascii_lower_char(a[0], b[0]);
        lemma_ascii_lower_char(a.last(), b.last());
        lemma_ic_clean_steps(a.drop_first(), b.drop_first());
        lemma_ic_clean_steps(a.drop_last(), b.drop_last());
    }
}

proof fn lemma_ic_ascii(a: Seq<char>, b: Seq<char>)
    requires
        eq_ic(a, b),
        is_ascii(a),
    ensures
        is_ascii(b),
        ascii_lowercase(a) == ascii_lowercase(b),
{
    assert forall|i: int| 0 <= i < b.len() implies (#[trigger] b[i] as u32) < 128 by {
        assert((a[i] as u32) < 128);
        lemma_ascii_lower_char(a[i], b[i]);
    }
    assert forall|i: int| 0 <= i < a.len() implies #[trigger] ascii_lowercase(a)[i] == ascii_lowercase(b)[i] by {
        lemma_ascii_lower_char(a[i], b[i]);
    }
    assert(ascii_lowercase(a) =~= ascii_lowercase(b));
}

/// ASCII case does not matter: two ASCII domain names equal up to ASCII case
/// (such as a name and its uppercase) split the same way.
pub proof fn lemma_split_ignores_ascii_case(a: Seq<char>, b: Seq<char>)
    requires
        is_ascii(a),
        eq_ic(a, b),
    ensures
        clean_domain(a) == clean_domain(b),
        split_clean(clean_domain(a)) == split_clean(clean_domain(b)),
{
    lemma_ic_clean_steps(a, b);
    lemma_ic_ascii(a, b);
    let ta = trim_start(a);
    let tb = trim_start(b);
    lemma_ic_clean_steps(ta, tb);
    let ea = trim(a);
    let eb = trim(b);
    lemma_ic_clean_steps(ea, eb);
    let ca = trim_end_char(ea, '.');
    let cb = trim_end_char(eb, '.');
    lemma_ic_ascii(ca, cb);
}

/// The split of a name written out in lowercase ASCII, without whitespace,
/// gives its parts back (see [`lemma_split_clean_parts`]): `split_domain` of
/// `app.spacecorps.co.uk` is (`spacecorps`, `co.uk`), of `sub.example.com` is
/// (`example`, `com`).
pub proof fn lemma_split_domain_parts(p: Seq<char>, sld: Seq<char>, tld: Seq<char>)
    requires
        sld.len() > 0,
        dot_free(sld),
        (tld.len() > 0 && dot_free(tld)) || is_two_part(tld),
        !is_two_part(sld + "."@ + tld),
        p.len() == 0 || p.last() == '.',
        is_ascii(p + sld + "."@ + tld),
        ascii_lowercase(p + sld + "."@ + tld) == p + sld + "."@ + tld,
        forall|j: int| 0 <= j < (p + sld + "."@ + tld).len() ==> !is_ws(#[trigger] (p + sld + "."@ + tld)[j]),
    ensures
        split_clean(clean_domain(p + sld + "."@ + tld)) == (sld, tld),
{
    reveal_strlit(".");
    let x = p + sld + "."@ + tld;
    lemma_trim_start_at(x, 0);
    assert(x.subrange(0, x.len() as int) =~= x);
    lemma_trim_end_at(x, x.len() as int);
    assert(trim(x) == x);
    if is_two_part(tld) {
        let i = choose|i: int| 0 <= i < two_part_count() && tld == #[trigger] two_part_tld(i);
        lemma_two_part_shape(i);
        assert(tld.last() == two_part_second(i).last());
    }
    assert(x.last() == tld.last());
    assert(trim_end_char(x, '.') == x);
    lemma_split_clean_parts(p, sld, tld);
}

} // verus!
