use vstd::prelude::*;

verus! {

/// One header as the contracts see it: its name in lower case, and its value's bytes.
pub type HeaderEntry = (Seq<char>, Seq<u8>);

#[verifier::external_type_specification]
#[verifier::external_body]
#[verifier::reject_recursive_types(T)]
pub struct ExHeaderMap<T>(http::HeaderMap<T>);

#[verifier::external_type_specification]
#[verifier::external_body]
pub struct ExHeaderName(http::header::HeaderName);

#[verifier::external_type_specification]
#[verifier::external_body]
pub struct ExHeaderValue(http::header::HeaderValue);

/// The entries of a header map in the order in which `HeaderMap::iter` yields them:
/// one per value, each with its name.
pub uninterp spec fn header_entries(m: http::HeaderMap) -> Seq<HeaderEntry>;

/// The text of a header name, as `HeaderName::as_str` gives it (always lower case).
pub uninterp spec fn name_text(n: http::header::HeaderName) -> Seq<char>;

/// The bytes of a header value, as `HeaderValue::as_bytes` gives them.
pub uninterp spec fn value_bytes(v: http::header::HeaderValue) -> Seq<u8>;

/// A header map with fewer distinct names than this can take one more name without
/// reaching the size at which `HeaderMap::insert` panics.
pub const INSERT_LIMIT: usize = 4096;

/// Whether some entry has the given name.
pub open spec fn has_name(entries: Seq<HeaderEntry>, name: Seq<char>) -> bool {
    exists|i: int| 0 <= i < entries.len() && #[trigger] entries[i].0 == name
}

/// The distinct names among the entries.
pub open spec fn names_of(entries: Seq<HeaderEntry>) -> Set<Seq<char>> {
    entries.map_values(|e: HeaderEntry| e.0).to_set()
}

/// The names of a list of entries form a finite set, and are the names that it has.
pub proof fn lemma_names_of(entries: Seq<HeaderEntry>)
    ensures
        names_of(entries).finite(),
        forall|n: Seq<char>| #[trigger] names_of(entries).contains(n) == has_name(entries, n),
{
    broadcast use vstd::seq_lib::seq_to_set_is_finite;

    let names = entries.map_values(|e: HeaderEntry| e.0);
    assert forall|n: Seq<char>| #[trigger] names_of(entries).contains(n) == has_name(entries, n) by {
        if has_name(entries, n) {
            let i = choose|i: int| 0 <= i < entries.len() && #[trigger] entries[i].0 == n;
            assert(names[i] == n);
        }
        if names.contains(n) {
            let i = choose|i: int| 0 <= i < names.len() && names[i] == n;
            assert(entries[i].0 == n);
        }
    }
}

/// Appending an entry adds its name to the names.
pub proof fn lemma_names_push(entries: Seq<HeaderEntry>, e: HeaderEntry)
    ensures
        names_of(entries.push(e)) == names_of(entries).insert(e.0),
{
    let f = |x: HeaderEntry| x.0;
    assert(entries.push(e).map_values(f) =~= entries.map_values(f).push(e.0));
    entries.map_values(f).lemma_push_to_set_commute(e.0);
}

/// Relies on `HeaderMap::keys_len`: the number of distinct names stored.
#[verifier::external_body]
pub(crate) fn name_count(m: &http::HeaderMap) -> (r: usize)
    ensures
        r == names_of(header_entries(*m)).len(),
{
    m.keys_len()
}

/// Relies on `HeaderMap::iter`: every name and value, in iteration order, each cloned.
#[verifier::external_body]
pub(crate) fn entry_list(m: &http::HeaderMap) -> (r: Vec<(http::header::HeaderName, http::header::HeaderValue)>)
    ensures
        r@.len() == header_entries(*m).len(),
        forall|i: int|
            0 <= i < r@.len() ==> (name_text(#[trigger] r@[i].0), value_bytes(r@[i].1))
                == header_entries(*m)[i],
{
    m.iter().map(|(n, v)| (n.clone(), v.clone())).collect()
}

/// Relies on `HeaderMap::contains_key`: whether some value is stored under that name.
#[verifier::external_body]
pub(crate) fn contains_name(m: &http::HeaderMap, name: &http::header::HeaderName) -> (r: bool)
    ensures
        r == has_name(header_entries(*m), name_text(*name)),
{
    m.contains_key(name)
}

/// Relies on `HeaderMap::insert` for a name that the map does not hold yet: the pair
/// becomes the last entry. The bound on the number of names keeps `insert` from panicking.
#[verifier::external_body]
pub(crate) fn insert_new(m: &mut http::HeaderMap, name: &http::header::HeaderName, value: &http::header::HeaderValue)
    requires
        names_of(header_entries(*old(m))).len() < INSERT_LIMIT,
        !has_name(header_entries(*old(m)), name_text(*name)),
    ensures
        header_entries(*final(m)) == header_entries(*old(m)).push((name_text(*name), value_bytes(*value))),
{
    m.insert(name, value.clone());
}

/// Relies on `HeaderMap`'s `Clone`: the copy holds the same entries in the same order.
#[verifier::external_body]
pub(crate) fn copy_map(m: &http::HeaderMap) -> (r: http::HeaderMap)
    ensures
        header_entries(r) == header_entries(*m),
{
    m.clone()
}

} // verus!
