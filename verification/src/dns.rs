//! The DNS consensus check.
//!
//! The engine queries at least two independent DNS-over-HTTPS providers, each
//! for both address record types, and independently the platform resolver;
//! consensus holds exactly when both sides returned addresses and they share
//! one. The HTTP transfers and the platform resolution are the caller's:
//! this module builds the query URLs, extracts candidate addresses from a
//! provider's JSON answer, and decides consensus over the address texts
//! handed back.

use vstd::prelude::*;
use crate::text::str_eq;

verus! {

/// The DNS-over-HTTPS query URL for one provider endpoint and one record
/// type: the endpoint text, the hostname, and the record-type suffix.
pub open spec fn doh_url_spec(prefix: Seq<char>, host: Seq<char>, suffix: Seq<char>) -> Seq<char> {
    prefix + host + suffix
}

fn build_query(prefix: &str, host: &str, suffix: &str) -> (r: String)
    ensures
        r@ == doh_url_spec(prefix@, host@, suffix@),
{
    let mut out = String::new();
    out.append(prefix);
    out.append(host);
    out.append(suffix);
    out
}

/// The four provider queries for a hostname: two independent providers, each
/// asked for IPv4 (A) and IPv6 (AAAA) records.
pub fn doh_query_urls(host: &str) -> (r: Vec<String>)
    ensures
        r@.len() == 4,
        r@[0]@ == doh_url_spec("https://cloudflare-dns.com/dns-query?name="@, host@, "&type=A"@),
        r@[1]@ == doh_url_spec("https://cloudflare-dns.com/dns-query?name="@, host@, "&type=AAAA"@),
        r@[2]@ == doh_url_spec("https://dns.google/resolve?name="@, host@, "&type=A"@),
        r@[3]@ == doh_url_spec("https://dns.google/resolve?name="@, host@, "&type=AAAA"@),
{
    let mut out: Vec<String> = Vec::new();
    out.push(build_query("https://cloudflare-dns.com/dns-query?name=", host, "&type=A"));
    out.push(build_query("https://cloudflare-dns.com/dns-query?name=", host, "&type=AAAA"));
    out.push(build_query("https://dns.google/resolve?name=", host, "&type=A"));
    out.push(build_query("https://dns.google/resolve?name=", host, "&type=AAAA"));
    out
}

/// The `(type, data)` pairs of the `Answer` entries of a DNS-over-HTTPS JSON
/// response, in answer order: entries whose `data` is no string contribute
/// nothing, a missing or non-numeric `type` reads as 0, and a body that is
/// not valid JSON or has no `Answer` array yields the empty sequence. A
/// function of the body text alone, defined by the outside parser; contracts
/// speak of it only through this name.
pub uninterp spec fn doh_entries_of(body: Seq<char>) -> Seq<(u64, Seq<char>)>;

/// Relies on `serde_json::from_str::<Value>`, `Value::get`,
/// `Value::as_array`, `Value::as_u64` and `Value::as_str`: each is a pure
/// function of the body text, so the answer entries are too.
#[verifier::external_body]
fn doh_answer_entries(body: &str) -> (r: Vec<(u64, String)>)
    ensures
        r@.len() == doh_entries_of(body@).len(),
        forall|i: int|
            0 <= i < r@.len() ==> (#[trigger] r@[i]).0 == doh_entries_of(body@)[i].0 && r@[i].1@
                == doh_entries_of(body@)[i].1,
{
    let mut out: Vec<(u64, String)> = Vec::new();
    if let Ok(v) = serde_json::from_str::<serde_json::Value>(body) {
        if let Some(arr) = v.get("Answer").and_then(|a| a.as_array()) {
            for entry in arr {
                let ty = entry.get("type").and_then(|t| t.as_u64()).unwrap_or(0);
                if let Some(data) = entry.get("data").and_then(|d| d.as_str()) {
                    out.push((ty, data.to_string()));
                }
            }
        }
    }
    out
}

/// Whether a DNS answer entry's record type carries an address: A is 1,
/// AAAA is 28.
pub open spec fn is_address_record_type(ty: u64) -> bool {
    ty == 1 || ty == 28
}

/// The `data` texts of the answer entries whose record type carries an
/// address, in answer order.
pub open spec fn address_answers(entries: Seq<(u64, Seq<char>)>) -> Seq<Seq<char>>
    decreases entries.len(),
{
    if entries.len() == 0 {
        Seq::empty()
    } else if is_address_record_type(entries[0].0) {
        seq![entries[0].1] + address_answers(entries.drop_first())
    } else {
        address_answers(entries.drop_first())
    }
}

proof fn lemma_address_answers_push(entries: Seq<(u64, Seq<char>)>, e: (u64, Seq<char>))
    ensures
        address_answers(entries.push(e)) == address_answers(entries) + (if is_address_record_type(
            e.0,
        ) {
            seq![e.1]
        } else {
            Seq::<Seq<char>>::empty()
        }),
    decreases entries.len(),
{
    let tail = if is_address_record_type(e.0) { seq![e.1] } else { Seq::<Seq<char>>::empty() };
    if entries.len() == 0 {
        assert(address_answers(Seq::<(u64, Seq<char>)>::empty()) == Seq::<Seq<char>>::empty());
        assert(entries.push(e).drop_first() =~= Seq::<(u64, Seq<char>)>::empty());
        assert(entries.push(e)[0] == e);
        if is_address_record_type(e.0) {
            assert(address_answers(entries.push(e)) == seq![e.1] + address_answers(
                entries.push(e).drop_first(),
            ));
            assert(seq![e.1] + Seq::<Seq<char>>::empty() =~= seq![e.1]);
            assert(address_answers(entries) + tail =~= seq![e.1]);
        } else {
            assert(address_answers(entries.push(e)) == address_answers(
                entries.push(e).drop_first(),
            ));
            assert(address_answers(entries) + tail =~= Seq::<Seq<char>>::empty());
        }
    } else {
        assert(entries.push(e).drop_first() =~= entries.drop_first().push(e));
        lemma_address_answers_push(entries.drop_first(), e);
        assert(entries.push(e)[0] == entries[0]);
        if is_address_record_type(entries[0].0) {
            assert(address_answers(entries.push(e)) =~= seq![entries[0].1] + address_answers(
                entries.drop_first().push(e),
            ));
            assert(seq![entries[0].1] + (address_answers(entries.drop_first()) + tail) =~= (
            seq![entries[0].1] + address_answers(entries.drop_first())) + tail);
        } else {
            assert(address_answers(entries.push(e)) == address_answers(
                entries.drop_first().push(e),
            ));
        }
    }
}

/// The candidate addresses of one provider response: exactly the `data`
/// texts of the `Answer` entries of record type A or AAAA, in answer order.
/// Entries of other types contribute nothing, and a body that is not shaped
/// like a DNS answer yields none, degrading the consensus signal rather than
/// failing the call. The caller still validates each text as an IP address
/// before it enters the consensus check.
pub fn doh_answer_addresses(body: &str) -> (r: Vec<String>)
    ensures
        r@.map_values(|s: String| s@) == address_answers(doh_entries_of(body@)),
{
    let entries = doh_answer_entries(body);
    let mut out: Vec<String> = Vec::new();
    let mut i: usize = 0;
    while i < entries.len()
        invariant
            0 <= i <= entries@.len(),
            entries@.len() == doh_entries_of(body@).len(),
            forall|k: int|
                0 <= k < entries@.len() ==> (#[trigger] entries@[k]).0 == doh_entries_of(
                    body@,
                )[k].0 && entries@[k].1@ == doh_entries_of(body@)[k].1,
            out@.map_values(|s: String| s@) =~= address_answers(
                doh_entries_of(body@).take(i as int),
            ),
        decreases entries@.len() - i,
    {
        let ty = entries[i].0;
        proof {
            assert(doh_entries_of(body@).take(i + 1 as int) =~= doh_entries_of(body@).take(
                i as int,
            ).push(doh_entries_of(body@)[i as int]));
            lemma_address_answers_push(
                doh_entries_of(body@).take(i as int),
                doh_entries_of(body@)[i as int],
            );
        }
        if ty == 1 || ty == 28 {
            let data = entries[i].1.clone();
            out.push(data);
            proof {
                assert(out@.map_values(|s: String| s@) =~= address_answers(
                    doh_entries_of(body@).take(i as int),
                ).push(doh_entries_of(body@)[i as int].1));
            }
        }
        i = i + 1;
    }
    proof {
        assert(doh_entries_of(body@).take(entries@.len() as int) =~= doh_entries_of(body@));
    }
    out
}

/// Whether the two resolution sets corroborate each other: both non-empty
/// and sharing at least one address text.
pub open spec fn consensus_spec(doh: Seq<String>, system: Seq<String>) -> bool {
    doh.len() > 0 && system.len() > 0 && exists|i: int, j: int|
        0 <= i < doh.len() && 0 <= j < system.len() && doh[i]@ == system[j]@
}

/// Decide DNS consensus over the addresses the DoH providers returned and
/// the addresses the platform resolver returned, verified against
/// `consensus_spec`. Duplicates and order are irrelevant.
pub fn dns_consensus_ok(doh: &Vec<String>, system: &Vec<String>) -> (r: bool)
    ensures
        r == consensus_spec(doh@, system@),
{
    if doh.len() == 0 || system.len() == 0 {
        return false;
    }
    let mut i: usize = 0;
    while i < doh.len()
        invariant
            0 <= i <= doh@.len(),
            forall|a: int, b: int|
                0 <= a < i && 0 <= b < system@.len() ==> doh@[a]@ != system@[b]@,
        decreases doh@.len() - i,
    {
        let mut j: usize = 0;
        while j < system.len()
            invariant
                0 <= i < doh@.len(),
                0 <= j <= system@.len(),
                forall|b: int| 0 <= b < j ==> doh@[i as int]@ != system@[b]@,
            decreases system@.len() - j,
        {
            if str_eq(doh[i].as_str(), system[j].as_str()) {
                return true;
            }
            j = j + 1;
        }
        i = i + 1;
    }
    false
}

} // verus!
