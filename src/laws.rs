use vstd::prelude::*;
use crate::header_map::{has_name, HeaderEntry};
use crate::merge::merged;

verus! {

/// Whether `defaults[i]` is the first default of its name.
pub open spec fn first_of_name(defaults: Seq<HeaderEntry>, i: int) -> bool {
    forall|j: int| 0 <= j < i ==> #[trigger] defaults[j].0 != defaults[i].0
}

/// What merging does, entry by entry: the headers stay in front unchanged; every default's
/// name is present afterwards; each entry added is the first default of a name that the
/// headers lacked; and no two added entries share a name.
proof fn lemma_merged_shape(headers: Seq<HeaderEntry>, defaults: Seq<HeaderEntry>)
    ensures
        merged(headers, defaults).len() >= headers.len(),
        forall|k: int| 0 <= k < headers.len() ==> #[trigger] merged(headers, defaults)[k] == headers[k],
        forall|j: int| 0 <= j < defaults.len() ==> has_name(merged(headers, defaults), #[trigger] defaults[j].0),
        forall|k: int|
            headers.len() <= k < merged(headers, defaults).len() ==> !has_name(
                headers,
                #[trigger] merged(headers, defaults)[k].0,
            ) && exists|j: int|
                0 <= j < defaults.len() && first_of_name(defaults, j) && merged(headers, defaults)[k]
                    == #[trigger] defaults[j],
        forall|k1: int, k2: int|
            headers.len() <= k1 < merged(headers, defaults).len() && headers.len() <= k2 < merged(
                headers,
                defaults,
            ).len() && k1 != k2 ==> #[trigger] merged(headers, defaults)[k1].0 != #[trigger] merged(
                headers,
                defaults,
            )[k2].0,
    decreases defaults.len(),
{
    if defaults.len() > 0 {
        let rest = defaults.drop_last();
        let e = defaults.last();
        let p = merged(headers, rest);
        let m = merged(headers, defaults);
        lemma_merged_shape(headers, rest);
        assert forall|j: int| 0 <= j < rest.len() implies #[trigger] defaults[j] == rest[j] by {}
        assert forall|j: int| 0 <= j < rest.len() && first_of_name(rest, j) implies first_of_name(
            defaults,
            j,
        ) by {
            assert forall|j2: int| 0 <= j2 < j implies #[trigger] defaults[j2].0 != defaults[j].0 by {
                assert(rest[j2] == defaults[j2]);
            }
        }
        assert forall|n: Seq<char>| has_name(headers, n) implies has_name(p, n) by {
            let w = choose|w: int| 0 <= w < headers.len() && #[trigger] headers[w].0 == n;
            assert(p[w] == headers[w]);
        }
        if has_name(p, e.0) {
            assert(m == p);
            assert forall|j: int| 0 <= j < defaults.len() implies has_name(m, #[trigger] defaults[j].0) by {
                if j < rest.len() {
                    assert(rest[j] == defaults[j]);
                }
            }
            assert forall|k: int| headers.len() <= k < m.len() implies !has_name(headers, #[trigger] m[k].0)
                && exists|j: int| 0 <= j < defaults.len() && first_of_name(defaults, j) && m[k]
                    == #[trigger] defaults[j] by {
                assert(!has_name(headers, p[k].0));
                let j = choose|j: int| 0 <= j < rest.len() && first_of_name(rest, j) && p[k] == #[trigger] rest[j];
                assert(defaults[j] == rest[j]);
            }
        } else {
            assert(m == p.push(e));
            assert forall|k: int| 0 <= k < p.len() implies #[trigger] m[k] == p[k] by {}
            assert(m[p.len() as int] == e);
            assert forall|j: int| 0 <= j < defaults.len() implies has_name(m, #[trigger] defaults[j].0) by {
                if j < rest.len() {
                    assert(rest[j] == defaults[j]);
                    let w = choose|w: int| 0 <= w < p.len() && #[trigger] p[w].0 == rest[j].0;
                    assert(m[w] == p[w]);
                } else {
                    assert(m[p.len() as int].0 == defaults[j].0);
                }
            }
            assert(first_of_name(defaults, defaults.len() - 1)) by {
                assert forall|j2: int| 0 <= j2 < defaults.len() - 1 implies #[trigger] defaults[j2].0
                    != defaults[defaults.len() - 1].0 by {
                    assert(rest[j2] == defaults[j2]);
                    assert(has_name(p, rest[j2].0));
                }
            }
            assert forall|k: int| headers.len() <= k < m.len() implies !has_name(headers, #[trigger] m[k].0)
                && exists|j: int| 0 <= j < defaults.len() && first_of_name(defaults, j) && m[k]
                    == #[trigger] defaults[j] by {
                if k < p.len() {
                    assert(!has_name(headers, p[k].0));
                    let j = choose|j: int| 0 <= j < rest.len() && first_of_name(rest, j) && p[k] == #[trigger] rest[j];
                    assert(defaults[j] == rest[j]);
                } else {
                    assert(m[k] == defaults[defaults.len() - 1]);
                }
            }
            assert forall|k1: int, k2: int|
                headers.len() <= k1 < m.len() && headers.len() <= k2 < m.len() && k1 != k2
                implies #[trigger] m[k1].0 != #[trigger] m[k2].0 by {
                if k1 < p.len() && k2 < p.len() {
                } else if k1 < p.len() {
                    assert(m[k1] == p[k1]);
                } else {
                    assert(m[k2] == p[k2]);
                }
            }
        }
    }
}

/// Merge-if-absent: where the headers lack a name that the defaults give, the merged
/// headers hold the first default of that name, and no other entry of that name.
pub proof fn lemma_absent_name_gets_first_default(
    headers: Seq<HeaderEntry>,
    defaults: Seq<HeaderEntry>,
    i: int,
)
    requires
        0 <= i < defaults.len(),
        first_of_name(defaults, i),
        !has_name(headers, defaults[i].0),
    ensures
        exists|k: int|
            0 <= k < merged(headers, defaults).len() && #[trigger] merged(headers, defaults)[k]
                == defaults[i] && forall|k2: int|
                0 <= k2 < merged(headers, defaults).len() && #[trigger] merged(headers, defaults)[k2].0
                    == defaults[i].0 ==> k2 == k,
{
    lemma_merged_shape(headers, defaults);
    let m = merged(headers, defaults);
    assert(has_name(m, defaults[i].0));
    let k = choose|k: int| 0 <= k < m.len() && #[trigger] m[k].0 == defaults[i].0;
    if k < headers.len() {
        assert(m[k] == headers[k]);
    }
    let j = choose|j: int| 0 <= j < defaults.len() && first_of_name(defaults, j) && m[k] == #[trigger] defaults[j];
    if j < i {
        assert(defaults[j].0 != defaults[i].0);
    } else if i < j {
        assert(defaults[i].0 != defaults[j].0);
    }
    assert forall|k2: int| 0 <= k2 < m.len() && #[trigger] m[k2].0 == defaults[i].0 implies k2 == k by {
        if k2 < headers.len() {
            assert(m[k2] == headers[k2]);
        }
    }
}

/// Non-override: the merged headers begin with the original ones unchanged, and a name
/// that the original headers hold gets no entry beyond them.
pub proof fn lemma_present_name_kept(headers: Seq<HeaderEntry>, defaults: Seq<HeaderEntry>, name: Seq<char>)
    requires
        has_name(headers, name),
    ensures
        merged(headers, defaults).subrange(0, headers.len() as int) == headers,
        forall|k: int|
            0 <= k < merged(headers, defaults).len() && #[trigger] merged(headers, defaults)[k].0 == name
                ==> k < headers.len(),
{
    lemma_merged_shape(headers, defaults);
    assert(merged(headers, defaults).subrange(0, headers.len() as int) =~= headers);
}

/// Defaults whose names are all present already leave the headers as they are.
pub proof fn lemma_merge_covered(headers: Seq<HeaderEntry>, defaults: Seq<HeaderEntry>)
    requires
        forall|j: int| 0 <= j < defaults.len() ==> has_name(headers, #[trigger] defaults[j].0),
    ensures
        merged(headers, defaults) == headers,
    decreases defaults.len(),
{
    if defaults.len() > 0 {
        let rest = defaults.drop_last();
        assert forall|j: int| 0 <= j < rest.len() implies has_name(headers, #[trigger] rest[j].0) by {
            assert(rest[j] == defaults[j]);
        }
        lemma_merge_covered(headers, rest);
        assert(has_name(headers, defaults[defaults.len() - 1].0));
    }
}

/// Idempotence: merging the same defaults a second time changes nothing.
pub proof fn lemma_merge_idempotent(headers: Seq<HeaderEntry>, defaults: Seq<HeaderEntry>)
    ensures
        merged(merged(headers, defaults), defaults) == merged(headers, defaults),
{
    lemma_merged_shape(headers, defaults);
    lemma_merge_covered(merged(headers, defaults), defaults);
}

/// Empty defaults leave the headers as they are.
pub proof fn lemma_no_defaults(headers: Seq<HeaderEntry>)
    ensures
        merged(headers, Seq::empty()) == headers,
{
}

} // verus!
