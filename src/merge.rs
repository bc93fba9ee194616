use vstd::prelude::*;
use crate::header_map::{
    contains_name, entry_list, has_name, header_entries, insert_new, lemma_names_of,
    lemma_names_push, name_text, names_of, value_bytes, HeaderEntry, INSERT_LIMIT,
};

verus! {

/// The headers of a response after the defaults are merged into it: the defaults are
/// taken in order, and each is appended unless an entry of its name is present by then.
pub open spec fn merged(headers: Seq<HeaderEntry>, defaults: Seq<HeaderEntry>) -> Seq<HeaderEntry>
    decreases defaults.len(),
{
    if defaults.len() == 0 {
        headers
    } else {
        let before = merged(headers, defaults.drop_last());
        let last = defaults.last();
        if has_name(before, last.0) {
            before
        } else {
            before.push(last)
        }
    }
}

/// The names after merging are those of the headers together with those of the defaults.
pub proof fn lemma_merged_names(headers: Seq<HeaderEntry>, defaults: Seq<HeaderEntry>)
    ensures
        names_of(merged(headers, defaults)) == names_of(headers) + names_of(defaults),
    decreases defaults.len(),
{
    if defaults.len() == 0 {
        assert(defaults.map_values(|e: HeaderEntry| e.0) =~= Seq::<Seq<char>>::empty());
        assert(names_of(headers) + names_of(defaults) =~= names_of(headers));
    } else {
        let rest = defaults.drop_last();
        let e = defaults.last();
        let p = merged(headers, rest);
        lemma_merged_names(headers, rest);
        assert(rest.push(e) == defaults);
        lemma_names_push(rest, e);
        lemma_names_push(p, e);
        lemma_names_of(p);
        assert(names_of(headers) + names_of(defaults) =~= (names_of(headers) + names_of(rest)).insert(e.0));
        if has_name(p, e.0) {
            assert(names_of(p).insert(e.0) =~= names_of(p));
        }
    }
}

/// Adds to `headers` each of `defaults` whose name `headers` does not hold, in the
/// defaults' order; a name already present keeps its values, and of two defaults of
/// one name only the first is added.
pub fn merge_defaults(headers: &mut http::HeaderMap, defaults: &http::HeaderMap)
    requires
        names_of(header_entries(*old(headers))).len() + names_of(header_entries(*defaults)).len()
            <= INSERT_LIMIT,
    ensures
        header_entries(*final(headers)) == merged(
            header_entries(*old(headers)),
            header_entries(*defaults),
        ),
{
    let ghost start = header_entries(*headers);
    let ghost d = header_entries(*defaults);
    let pairs = entry_list(defaults);
    let mut i: usize = 0;
    while i < pairs.len()
        invariant
            i <= pairs@.len(),
            pairs@.len() == d.len(),
            d == header_entries(*defaults),
            names_of(start).len() + names_of(d).len() <= INSERT_LIMIT,
            forall|k: int|
                0 <= k < pairs@.len() ==> (name_text(#[trigger] pairs@[k].0), value_bytes(pairs@[k].1))
                    == d[k],
            header_entries(*headers) == merged(start, d.take(i as int)),
        decreases pairs@.len() - i,
    {
        let ghost before = header_entries(*headers);
        assert(d.take(i as int + 1).drop_last() == d.take(i as int));
        assert(d.take(i as int + 1).last() == d[i as int]);
        proof {
            let cur = header_entries(*headers);
            let n = d[i as int].0;
            lemma_merged_names(start, d.take(i as int));
            lemma_names_of(start);
            lemma_names_of(d);
            lemma_names_of(d.take(i as int));
            lemma_names_of(cur);
            assert(names_of(d).contains(n)) by {
                assert(d[i as int].0 == n);
            }
            assert forall|x: Seq<char>| names_of(d.take(i as int)).contains(x) implies names_of(d).contains(x) by {
                let w = choose|w: int| 0 <= w < i && #[trigger] d.take(i as int)[w].0 == x;
                assert(d[w].0 == x);
            }
            if !has_name(cur, n) {
                vstd::set_lib::lemma_len_union(names_of(start), names_of(d));
                vstd::set_lib::lemma_len_subset(names_of(cur).insert(n), names_of(start) + names_of(d));
            }
        }
        let name = &pairs[i].0;
        let value = &pairs[i].1;
        if !contains_name(headers, name) {
            insert_new(headers, name, value);
        }
        assert(header_entries(*headers) == merged(start, d.take(i as int + 1)));
        i = i + 1;
    }
    assert(d.take(i as int) == d);
}

} // verus!
