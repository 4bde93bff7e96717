//! What holds of the aggregate document for every input.

use vstd::prelude::*;
use vstd::seq_lib::to_multiset_contains;
use crate::aggregate::{
    aggregate_spec, by_instance_number, by_series_number, instance_numbers, instances_of,
    leading, leads, same_instance, series_data_of, series_numbers, series_of, survives,
    surviving, InstanceModel, SeriesModel,
};
use crate::json::document_text;
use crate::order::{arranged, ascending, lemma_arranged, lemma_ascending_unique, stable_order};

verus! {

/// The leading positions below `n` are exactly the positions below `n` that
/// lead, in ascending order.
pub proof fn lemma_leading(series: Seq<SeriesModel>, n: int)
    requires
        0 <= n <= series.len(),
    ensures
        forall|k: int|
            0 <= k < leading(series, n).len() ==> 0 <= (#[trigger] leading(series, n)[k]) < n
                && leads(series, leading(series, n)[k]),
        forall|a: int, b: int|
            0 <= a < b < leading(series, n).len() ==> (#[trigger] leading(series, n)[a]) < (
            #[trigger] leading(series, n)[b]),
        forall|j: int| 0 <= j < n && leads(series, j) ==> leading(series, n).contains(j),
    decreases n,
{
    if n > 0 {
        lemma_leading(series, n - 1);
        let before = leading(series, n - 1);
        let now = leading(series, n);
        if leads(series, n - 1) {
            assert(now == before.push(n - 1));
            assert forall|j: int| 0 <= j < n && leads(series, j) implies now.contains(j) by {
                if j < n - 1 {
                    let k = choose|k: int| 0 <= k < before.len() && before[k] == j;
                    assert(now[k] == j);
                } else {
                    assert(now[now.len() - 1] == j);
                }
            }
        }
    }
}

/// Every record has a record of its series at or before it that leads.
pub proof fn lemma_leader_exists(series: Seq<SeriesModel>, j: int) -> (p: int)
    requires
        0 <= j < series.len(),
    ensures
        0 <= p <= j,
        leads(series, p),
        series[p].series_uid == series[j].series_uid,
    decreases j,
{
    if leads(series, j) {
        j
    } else {
        let i = choose|i: int| 0 <= i < j && (#[trigger] series[i]).series_uid == series[j].series_uid;
        lemma_leader_exists(series, i)
    }
}

/// The surviving positions of series `uid` below `n` are exactly the positions
/// below `n` of that series that survive, in ascending order.
pub proof fn lemma_surviving(instances: Seq<InstanceModel>, uid: Seq<char>, n: int)
    requires
        0 <= n <= instances.len(),
    ensures
        forall|k: int|
            0 <= k < surviving(instances, uid, n).len() ==> 0 <= (#[trigger] surviving(
                instances,
                uid,
                n,
            )[k]) < n && survives(instances, surviving(instances, uid, n)[k])
                && instances[surviving(instances, uid, n)[k]].series_uid == uid,
        forall|a: int, b: int|
            0 <= a < b < surviving(instances, uid, n).len() ==> (#[trigger] surviving(
                instances,
                uid,
                n,
            )[a]) < (#[trigger] surviving(instances, uid, n)[b]),
        forall|j: int|
            0 <= j < n && survives(instances, j) && instances[j].series_uid == uid ==> surviving(
                instances,
                uid,
                n,
            ).contains(j),
    decreases n,
{
    if n > 0 {
        lemma_surviving(instances, uid, n - 1);
        let before = surviving(instances, uid, n - 1);
        let now = surviving(instances, uid, n);
        if instances[n - 1].series_uid == uid && survives(instances, n - 1) {
            assert(now == before.push(n - 1));
            assert forall|j: int|
                0 <= j < n && survives(instances, j) && instances[j].series_uid
                    == uid implies now.contains(j) by {
                if j < n - 1 {
                    let k = choose|k: int| 0 <= k < before.len() && before[k] == j;
                    assert(now[k] == j);
                } else {
                    assert(now[now.len() - 1] == j);
                }
            }
        }
    }
}

/// Every record has a record of its instance at or behind it that survives.
pub proof fn lemma_survivor_exists(instances: Seq<InstanceModel>, j: int) -> (p: int)
    requires
        0 <= j < instances.len(),
    ensures
        j <= p < instances.len(),
        survives(instances, p),
        same_instance(instances[p], instances[j]),
    decreases instances.len() - j,
{
    if survives(instances, j) {
        j
    } else {
        let i = choose|i: int|
            j < i < instances.len() && same_instance(#[trigger] instances[i], instances[j]);
        lemma_survivor_exists(instances, i)
    }
}

/// The series of the document.
///
/// They come by series number, not descending. No two of them are of the same
/// series. Each is the first record of its series, and every series that has a
/// record is among them.
pub proof fn lemma_series_of(series: Seq<SeriesModel>)
    ensures
        forall|a: int, b: int|
            0 <= a < b < series_of(series).len() ==> (#[trigger] series_of(
                series,
            )[a]).series_number <= (#[trigger] series_of(series)[b]).series_number,
        forall|a: int, b: int|
            0 <= a < b < series_of(series).len() ==> (#[trigger] series_of(series)[a]).series_uid
                != (#[trigger] series_of(series)[b]).series_uid,
        forall|a: int|
            0 <= a < series_of(series).len() ==> exists|p: int|
                0 <= p < series.len() && leads(series, p) && series[p] == #[trigger] series_of(
                    series,
                )[a],
        forall|j: int|
            0 <= j < series.len() ==> holds_series(
                series_of(series),
                (#[trigger] series[j]).series_uid,
            ),
{
    let n = series.len() as int;
    let lead = leading(series, n);
    let first = arranged(series, lead);
    let key = by_series_number();
    let out = series_of(series);
    lemma_leading(series, n);
    lemma_arranged(first, key);
    assert(out == arranged(first, stable_order(series_numbers(first))));
    assert forall|a: int| 0 <= a < out.len() implies exists|p: int|
        0 <= p < series.len() && leads(series, p) && series[p] == #[trigger] out[a] by {
        assert(out.contains(out[a]));
        assert(first.contains(out[a]));
        let k = choose|k: int| 0 <= k < first.len() && first[k] == out[a];
        assert(leads(series, lead[k]) && series[lead[k]] == out[a]);
    }
    assert forall|a: int, b: int| 0 <= a < b < out.len() implies (#[trigger] out[a]).series_number
        <= (#[trigger] out[b]).series_number by {
        assert(key(out[a]) <= key(out[b]));
    }
    assert forall|j: int| 0 <= j < series.len() implies holds_series(
        out,
        (#[trigger] series[j]).series_uid,
    ) by {
        let p = lemma_leader_exists(series, j);
        assert(lead.contains(p));
        let k = choose|k: int| 0 <= k < lead.len() && lead[k] == p;
        assert(first[k] == series[p]);
        assert(first.contains(series[p]));
        assert(out.contains(series[p]));
        let a = choose|a: int| 0 <= a < out.len() && out[a] == series[p];
        assert(out[a].series_uid == series[j].series_uid);
    }
    lemma_series_of_distinct(series);
}

/// Whether one of the listed records is of series `uid`.
pub open spec fn holds_series(listed: Seq<SeriesModel>, uid: Seq<char>) -> bool {
    exists|a: int| 0 <= a < listed.len() && (#[trigger] listed[a]).series_uid == uid
}

/// Whether one of the listed records is of SOP instance `sop_uid`.
pub open spec fn holds_instance(listed: Seq<InstanceModel>, sop_uid: Seq<char>) -> bool {
    exists|a: int| 0 <= a < listed.len() && (#[trigger] listed[a]).sop_uid == sop_uid
}

/// No two series of the document are the same series.
pub proof fn lemma_series_of_distinct(series: Seq<SeriesModel>)
    ensures
        forall|a: int, b: int|
            0 <= a < b < series_of(series).len() ==> (#[trigger] series_of(series)[a]).series_uid
                != (#[trigger] series_of(series)[b]).series_uid,
{
    let n = series.len() as int;
    let lead = leading(series, n);
    let first = arranged(series, lead);
    let keys = series_numbers(first);
    let order = stable_order(keys);
    let out = series_of(series);
    lemma_leading(series, n);
    crate::order::lemma_stable_order(keys);
    assert forall|a: int, b: int| 0 <= a < b < out.len() implies (#[trigger] out[a]).series_uid != (
    #[trigger] out[b]).series_uid by {
        assert(0 <= order[a] < keys.len() && 0 <= order[b] < keys.len());
        assert(keys[order[a]] < keys[order[b]] || (keys[order[a]] == keys[order[b]] && order[a]
            < order[b]));
        let p = lead[order[a]];
        let q = lead[order[b]];
        assert(out[a] == series[p] && out[b] == series[q]);
        if order[a] < order[b] {
            assert(p < q);
            assert(leads(series, q));
        } else {
            assert(order[b] < order[a]);
            assert(q < p);
            assert(leads(series, p));
        }
    }
}

/// The instances of a series of the document.
///
/// They come by instance number, not descending. All are of that series, and
/// no two of them are the same instance. Each is the last record of its
/// instance, and every instance of the series that has a record is among them.
pub proof fn lemma_instances_of(instances: Seq<InstanceModel>, uid: Seq<char>)
    ensures
        forall|a: int, b: int|
            0 <= a < b < instances_of(instances, uid).len() ==> (#[trigger] instances_of(
                instances,
                uid,
            )[a]).instance_number <= (#[trigger] instances_of(instances, uid)[b]).instance_number,
        forall|a: int, b: int|
            0 <= a < b < instances_of(instances, uid).len() ==> (#[trigger] instances_of(
                instances,
                uid,
            )[a]).sop_uid != (#[trigger] instances_of(instances, uid)[b]).sop_uid,
        forall|a: int|
            0 <= a < instances_of(instances, uid).len() ==> (#[trigger] instances_of(
                instances,
                uid,
            )[a]).series_uid == uid && exists|p: int|
                0 <= p < instances.len() && survives(instances, p) && instances[p]
                    == instances_of(instances, uid)[a],
        forall|j: int|
            0 <= j < instances.len() && (#[trigger] instances[j]).series_uid == uid
                ==> holds_instance(instances_of(instances, uid), instances[j].sop_uid),
{
    let n = instances.len() as int;
    let alive = surviving(instances, uid, n);
    let last = arranged(instances, alive);
    let key = by_instance_number();
    let keys = instance_numbers(last);
    let order = stable_order(keys);
    let out = instances_of(instances, uid);
    lemma_surviving(instances, uid, n);
    lemma_arranged(last, key);
    crate::order::lemma_stable_order(keys);
    assert(out == arranged(last, order));
    assert forall|a: int| 0 <= a < out.len() implies (#[trigger] out[a]).series_uid == uid
        && exists|p: int|
        0 <= p < instances.len() && survives(instances, p) && instances[p] == out[a] by {
        assert(0 <= order[a] < keys.len());
        let p = alive[order[a]];
        assert(survives(instances, p) && instances[p] == out[a]);
    }
    assert forall|a: int, b: int| 0 <= a < b < out.len() implies (#[trigger] out[a]).instance_number
        <= (#[trigger] out[b]).instance_number by {
        assert(key(out[a]) <= key(out[b]));
    }
    assert forall|a: int, b: int| 0 <= a < b < out.len() implies (#[trigger] out[a]).sop_uid != (
    #[trigger] out[b]).sop_uid by {
        assert(0 <= order[a] < keys.len() && 0 <= order[b] < keys.len());
        assert(keys[order[a]] < keys[order[b]] || (keys[order[a]] == keys[order[b]] && order[a]
            < order[b]));
        let p = alive[order[a]];
        let q = alive[order[b]];
        assert(out[a] == instances[p] && out[b] == instances[q]);
        if order[a] < order[b] {
            assert(p < q);
            assert(survives(instances, p));
            assert(!same_instance(instances[q], instances[p]));
        } else {
            assert(order[b] < order[a]);
            assert(q < p);
            assert(survives(instances, q));
            assert(!same_instance(instances[p], instances[q]));
        }
    }
    assert forall|j: int|
        0 <= j < instances.len() && (#[trigger] instances[j]).series_uid
            == uid implies holds_instance(out, instances[j].sop_uid) by {
        let p = lemma_survivor_exists(instances, j);
        assert(alive.contains(p));
        let k = choose|k: int| 0 <= k < alive.len() && alive[k] == p;
        assert(last[k] == instances[p]);
        assert(last.contains(instances[p]));
        assert(out.contains(instances[p]));
        let a = choose|a: int| 0 <= a < out.len() && out[a] == instances[p];
        assert(out[a].sop_uid == instances[j].sop_uid);
    }
}

/// Whether the series records leave nothing to the order in which they come:
/// records of the same series are equal, and records of different series have
/// different series numbers.
pub open spec fn series_agree(series: Seq<SeriesModel>) -> bool {
    forall|a: int, b: int|
        0 <= a < series.len() && 0 <= b < series.len() ==> if (#[trigger] series[a]).series_uid == (
        #[trigger] series[b]).series_uid {
            series[a] == series[b]
        } else {
            series[a].series_number != series[b].series_number
        }
}

/// Whether the instance records of series `uid` leave nothing to the order in
/// which they come: records of the same instance are equal, and records of
/// different instances have different instance numbers.
pub open spec fn instances_agree(instances: Seq<InstanceModel>, uid: Seq<char>) -> bool {
    forall|a: int, b: int|
        0 <= a < instances.len() && 0 <= b < instances.len() && (
        #[trigger] instances[a]).series_uid == uid && (#[trigger] instances[b]).series_uid == uid
            ==> if instances[a].sop_uid == instances[b].sop_uid {
            instances[a] == instances[b]
        } else {
            instances[a].instance_number != instances[b].instance_number
        }
}

/// Where the series records agree, the series of the document are the
/// records themselves, each once, by strictly ascending series number.
pub proof fn lemma_series_of_canonical(series: Seq<SeriesModel>)
    requires
        series_agree(series),
    ensures
        ascending(series_of(series), by_series_number()),
        forall|e: SeriesModel| series_of(series).contains(e) <==> series.contains(e),
{
    let n = series.len() as int;
    let lead = leading(series, n);
    let first = arranged(series, lead);
    let key = by_series_number();
    let out = series_of(series);
    lemma_leading(series, n);
    assert forall|a: int, b: int| 0 <= a < b < first.len() implies key(#[trigger] first[a]) != key(
        #[trigger] first[b],
    ) by {
        assert(lead[a] < lead[b]);
        assert(leads(series, lead[b]));
        assert(series[lead[a]].series_uid != series[lead[b]].series_uid);
    }
    lemma_arranged(first, key);
    assert(out == arranged(first, stable_order(series_numbers(first))));
    assert forall|e: SeriesModel| out.contains(e) <==> series.contains(e) by {
        if out.contains(e) {
            assert(first.contains(e));
            let k = choose|k: int| 0 <= k < first.len() && first[k] == e;
            assert(series[lead[k]] == e);
        }
        if series.contains(e) {
            let j = choose|j: int| 0 <= j < series.len() && series[j] == e;
            let p = lemma_leader_exists(series, j);
            assert(series[p] == series[j]);
            assert(lead.contains(p));
            let k = choose|k: int| 0 <= k < lead.len() && lead[k] == p;
            assert(first[k] == e);
            assert(first.contains(e));
        }
    }
}

/// Where the instance records of a series agree, the instances of that series
/// in the document are those records themselves, each once, by strictly
/// ascending instance number.
pub proof fn lemma_instances_of_canonical(instances: Seq<InstanceModel>, uid: Seq<char>)
    requires
        instances_agree(instances, uid),
    ensures
        ascending(instances_of(instances, uid), by_instance_number()),
        forall|e: InstanceModel|
            instances_of(instances, uid).contains(e) <==> instances.contains(e) && e.series_uid
                == uid,
{
    let n = instances.len() as int;
    let alive = surviving(instances, uid, n);
    let last = arranged(instances, alive);
    let key = by_instance_number();
    let out = instances_of(instances, uid);
    lemma_surviving(instances, uid, n);
    assert forall|a: int, b: int| 0 <= a < b < last.len() implies key(#[trigger] last[a]) != key(
        #[trigger] last[b],
    ) by {
        assert(alive[a] < alive[b]);
        assert(survives(instances, alive[a]));
        assert(!same_instance(instances[alive[b]], instances[alive[a]]));
    }
    lemma_arranged(last, key);
    assert(out == arranged(last, stable_order(instance_numbers(last))));
    assert forall|e: InstanceModel|
        out.contains(e) <==> instances.contains(e) && e.series_uid == uid by {
        if out.contains(e) {
            assert(last.contains(e));
            let k = choose|k: int| 0 <= k < last.len() && last[k] == e;
            assert(instances[alive[k]] == e);
        }
        if instances.contains(e) && e.series_uid == uid {
            let j = choose|j: int| 0 <= j < instances.len() && instances[j] == e;
            let p = lemma_survivor_exists(instances, j);
            assert(instances[p] == instances[j]);
            assert(alive.contains(p));
            let k = choose|k: int| 0 <= k < alive.len() && alive[k] == p;
            assert(last[k] == e);
            assert(last.contains(e));
        }
    }
}

/// Records that agree give the same document whenever the same records are
/// given, however often and in whatever order each of them comes.
pub proof fn lemma_same_records_same_document(
    series: Seq<SeriesModel>,
    instances: Seq<InstanceModel>,
    other_series: Seq<SeriesModel>,
    other_instances: Seq<InstanceModel>,
)
    requires
        forall|e: SeriesModel| series.contains(e) <==> other_series.contains(e),
        forall|e: InstanceModel| instances.contains(e) <==> other_instances.contains(e),
        series_agree(series),
        forall|c: int|
            0 <= c < series.len() ==> instances_agree(
                instances,
                (#[trigger] series[c]).series_uid,
            ),
    ensures
        aggregate_spec(series, instances) == aggregate_spec(other_series, other_instances),
{
    let series_key = by_series_number();
    let instance_key = by_instance_number();
    assert(series_agree(other_series)) by {
        assert forall|a: int, b: int|
            0 <= a < other_series.len() && 0 <= b < other_series.len() implies if (
            #[trigger] other_series[a]).series_uid == (#[trigger] other_series[b]).series_uid {
            other_series[a] == other_series[b]
        } else {
            other_series[a].series_number != other_series[b].series_number
        } by {
            assert(other_series.contains(other_series[a]));
            assert(other_series.contains(other_series[b]));
            let x = choose|x: int| 0 <= x < series.len() && series[x] == other_series[a];
            let y = choose|y: int| 0 <= y < series.len() && series[y] == other_series[b];
            assert(series[x].series_uid == other_series[a].series_uid);
            assert(series[y].series_uid == other_series[b].series_uid);
        }
    }
    lemma_series_of_canonical(series);
    lemma_series_of_canonical(other_series);
    assert forall|e: SeriesModel|
        series_of(series).contains(e) <==> series_of(other_series).contains(e) by {
        assert(series_of(series).contains(e) <==> series.contains(e));
        assert(series_of(other_series).contains(e) <==> other_series.contains(e));
    }
    lemma_ascending_unique(series_of(series), series_of(other_series), series_key);
    let listed = series_of(series);
    assert forall|k: int| 0 <= k < listed.len() implies instances_of(
        instances,
        (#[trigger] listed[k]).series_uid,
    ) == instances_of(other_instances, listed[k].series_uid) by {
        let uid = listed[k].series_uid;
        assert(listed.contains(listed[k]));
        assert(series.contains(listed[k]));
        let c = choose|c: int| 0 <= c < series.len() && series[c] == listed[k];
        assert(instances_agree(instances, series[c].series_uid));
        assert(instances_agree(other_instances, uid)) by {
            assert forall|a: int, b: int|
                0 <= a < other_instances.len() && 0 <= b < other_instances.len() && (
                #[trigger] other_instances[a]).series_uid == uid && (
                #[trigger] other_instances[b]).series_uid == uid implies if other_instances[a].sop_uid
                == other_instances[b].sop_uid {
                other_instances[a] == other_instances[b]
            } else {
                other_instances[a].instance_number != other_instances[b].instance_number
            } by {
                assert(other_instances.contains(other_instances[a]));
                assert(other_instances.contains(other_instances[b]));
                let x = choose|x: int|
                    0 <= x < instances.len() && instances[x] == other_instances[a];
                let y = choose|y: int|
                    0 <= y < instances.len() && instances[y] == other_instances[b];
                assert(instances[x].series_uid == uid);
                assert(instances[y].series_uid == uid);
            }
        }
        lemma_instances_of_canonical(instances, uid);
        lemma_instances_of_canonical(other_instances, uid);
        assert forall|e: InstanceModel|
            instances_of(instances, uid).contains(e) <==> instances_of(
                other_instances,
                uid,
            ).contains(e) by {
            assert(instances_of(instances, uid).contains(e) <==> instances.contains(e)
                && e.series_uid == uid);
            assert(instances_of(other_instances, uid).contains(e) <==> other_instances.contains(e)
                && e.series_uid == uid);
        }
        lemma_ascending_unique(
            instances_of(instances, uid),
            instances_of(other_instances, uid),
            instance_key,
        );
    }
    assert(series_data_of(series, instances) =~= series_data_of(other_series, other_instances));
}

/// The document does not depend on the order in which the files were
/// scanned: records that agree give the same document, and so the same JSON
/// text, in every order.
pub proof fn lemma_aggregate_order_independent(
    series: Seq<SeriesModel>,
    instances: Seq<InstanceModel>,
    other_series: Seq<SeriesModel>,
    other_instances: Seq<InstanceModel>,
)
    requires
        series.to_multiset() == other_series.to_multiset(),
        instances.to_multiset() == other_instances.to_multiset(),
        series_agree(series),
        forall|c: int|
            0 <= c < series.len() ==> instances_agree(
                instances,
                (#[trigger] series[c]).series_uid,
            ),
    ensures
        aggregate_spec(series, instances) == aggregate_spec(other_series, other_instances),
        document_text(aggregate_spec(series, instances)) == document_text(
            aggregate_spec(other_series, other_instances),
        ),
{
    assert forall|e: SeriesModel| series.contains(e) <==> other_series.contains(e) by {
        to_multiset_contains(series, e);
        to_multiset_contains(other_series, e);
    }
    assert forall|e: InstanceModel| instances.contains(e) <==> other_instances.contains(e) by {
        to_multiset_contains(instances, e);
        to_multiset_contains(other_instances, e);
    }
    lemma_same_records_same_document(series, instances, other_series, other_instances);
}

} // verus!
