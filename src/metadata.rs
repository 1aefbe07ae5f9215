//! gRPC metadata and status values as they travel in headers and trailers.

use vstd::prelude::*;

verus! {

/// Status code of a call that succeeded.
pub const STATUS_CODE_OK: i32 = 0;

/// Status code of a call that failed for a reason the transport cannot name.
pub const STATUS_CODE_UNKNOWN: i32 = 2;

/// Status code of a call for which no stream could be allocated.
pub const STATUS_CODE_RESOURCE_EXHAUSTED: i32 = 8;

/// One metadata key with its values.
#[derive(Debug, Clone)]
pub struct MetadataEntry {
    pub key: String,
    pub values: Vec<String>,
}

/// The status carried by trailers.
#[derive(Debug, Clone)]
pub struct Status {
    pub code: i32,
    pub message: String,
}


/// The value that the last header named `k` in `pairs` carries, if any.
pub open spec fn last_value_for(pairs: Seq<(String, String)>, k: Seq<char>) -> Option<Seq<char>>
    decreases pairs.len(),
{
    if pairs.len() == 0 {
        None
    } else if pairs.last().0@ == k {
        Some(pairs.last().1@)
    } else {
        last_value_for(pairs.drop_last(), k)
    }
}

/// `md` is the metadata of the headers `pairs`: one entry per header name,
/// holding the value of the last header of that name.
pub open spec fn is_metadata_of(md: Seq<MetadataEntry>, pairs: Seq<(String, String)>) -> bool {
    &&& forall|i: int|
        0 <= i < md.len() ==> (#[trigger] md[i]).values@.len() == 1 && last_value_for(
            pairs,
            md[i].key@,
        ) == Some(md[i].values@[0]@)
    &&& forall|i: int, j: int| 0 <= i < j < md.len() ==> md[i].key@ != md[j].key@
    &&& forall|j: int|
        0 <= j < pairs.len() ==> exists|i: int|
            0 <= i < md.len() && (#[trigger] md[i]).key@ == (#[trigger] pairs[j]).0@
}

/// The metadata of request headers given as name and value pairs: one entry
/// per name, with the value of the last header of that name.
pub fn metadata_from_parts(pairs: &Vec<(String, String)>) -> (r: Vec<MetadataEntry>)
    ensures
        is_metadata_of(r@, pairs@),
{
    let mut out: Vec<MetadataEntry> = Vec::new();
    let mut p: usize = 0;
    while p < pairs.len()
        invariant
            p <= pairs@.len(),
            is_metadata_of(out@, pairs@.subrange(0, p as int)),
        decreases pairs@.len() - p,
    {
        let ghost prefix = pairs@.subrange(0, p as int);
        let ghost next = pairs@.subrange(0, p + 1);
        assert(next.drop_last() =~= prefix);
        assert(next.last() == pairs@[p as int]);
        let key = pairs[p].0.clone();
        let value = pairs[p].1.clone();
        let mut found: usize = out.len();
        let mut i: usize = 0;
        while i < out.len()
            invariant_except_break
                found == out@.len(),
            invariant
                i <= out@.len(),
                forall|k: int| 0 <= k < i ==> (#[trigger] out@[k]).key@ != key@,
            ensures
                found == out@.len() ==> forall|k: int| 0 <= k < out@.len() ==> (#[trigger] out@[k]).key@ != key@,
                found < out@.len() ==> out@[found as int].key@ == key@,
                found <= out@.len(),
            decreases out@.len() - i,
        {
            if out[i].key == key {
                found = i;
                break;
            }
            i += 1;
        }
        let ghost before = out@;
        let mut values: Vec<String> = Vec::new();
        values.push(value);
        let entry = MetadataEntry { key, values };
        if found < out.len() {
            out.remove(found);
            out.insert(found, entry);
            assert(out@ =~= before.update(found as int, entry));
        } else {
            out.push(entry);
        }
        proof {
            assert(entry.key@ == next.last().0@);
            assert(entry.values@[0]@ == next.last().1@);
            assert forall|k: int| 0 <= k < out@.len() implies (#[trigger] out@[k]).values@.len() == 1
                && last_value_for(next, out@[k].key@) == Some(out@[k].values@[0]@) by {
                if (found < before.len() && k == found) || (found == before.len() && k == before.len()) {
                    assert(out@[k] == entry);
                } else {
                    assert(out@[k] == before[k]);
                    assert(before[k].key@ != key@);
                    assert(before[k].values@.len() == 1);
                }
            }
            assert forall|a: int, b: int| 0 <= a < b < out@.len() implies out@[a].key@ != out@[b].key@ by {
                if found == before.len() && b == before.len() {
                    assert(out@[a] == before[a]);
                } else {
                    if a == found {
                        assert(out@[b] == before[b]);
                    } else if b == found {
                        assert(out@[a] == before[a]);
                    } else {
                        assert(out@[a] == before[a]);
                        assert(out@[b] == before[b]);
                    }
                }
            }
            assert forall|j: int| 0 <= j < next.len() implies exists|i: int|
                0 <= i < out@.len() && (#[trigger] out@[i]).key@ == (#[trigger] next[j]).0@ by {
                if j < p {
                    assert(next[j] == prefix[j]);
                    let i0 = choose|i: int| 0 <= i < before.len() && (#[trigger] before[i]).key@ == prefix[j].0@;
                    if i0 == found {
                        assert(out@[i0].key@ == next[j].0@);
                    } else {
                        assert(out@[i0] == before[i0]);
                    }
                } else {
                    if found < before.len() {
                        assert(out@[found as int].key@ == next[j].0@);
                    } else {
                        assert(out@[before.len() as int].key@ == next[j].0@);
                    }
                }
            }
        }
        p += 1;
    }
    assert(pairs@.subrange(0, p as int) =~= pairs@);
    out
}

} // verus!
