//! Grouping scanned records into the aggregate document: one entry for each
//! series, ordered by series number, each with its instances ordered by
//! instance number.

use vstd::prelude::*;
use crate::order::{arranged, keys_of, order_by_key, positions, stable_order};
use crate::record::{copy_entries, Entry, EntryModel};

verus! {

/// What one file says of the series it belongs to.
#[derive(Debug)]
pub struct SeriesRecord {
    /// The series the file belongs to.
    pub series_uid: String,
    /// The number by which the series is ordered.
    pub series_number: u32,
    /// The patient, study and series attributes, as they are written out.
    pub fields: Vec<Entry>,
}

/// The mathematical value of a [`SeriesRecord`].
pub struct SeriesModel {
    pub series_uid: Seq<char>,
    pub series_number: u32,
    pub fields: Seq<EntryModel>,
}

impl View for SeriesRecord {
    type V = SeriesModel;

    open spec fn view(&self) -> SeriesModel {
        SeriesModel {
            series_uid: self.series_uid@,
            series_number: self.series_number,
            fields: self.fields.deep_view(),
        }
    }
}

impl DeepView for SeriesRecord {
    type V = SeriesModel;

    open spec fn deep_view(&self) -> SeriesModel {
        self@
    }
}

/// What one file says of the instance it holds.
#[derive(Debug)]
pub struct InstanceRecord {
    /// The series the instance belongs to.
    pub series_uid: String,
    /// The instance itself.
    pub sop_uid: String,
    /// The number by which the instance is ordered within its series.
    pub instance_number: u32,
    /// The instance and image attributes, as they are written out.
    pub fields: Vec<Entry>,
}

/// The mathematical value of an [`InstanceRecord`].
pub struct InstanceModel {
    pub series_uid: Seq<char>,
    pub sop_uid: Seq<char>,
    pub instance_number: u32,
    pub fields: Seq<EntryModel>,
}

impl View for InstanceRecord {
    type V = InstanceModel;

    open spec fn view(&self) -> InstanceModel {
        InstanceModel {
            series_uid: self.series_uid@,
            sop_uid: self.sop_uid@,
            instance_number: self.instance_number,
            fields: self.fields.deep_view(),
        }
    }
}

impl DeepView for InstanceRecord {
    type V = InstanceModel;

    open spec fn deep_view(&self) -> InstanceModel {
        self@
    }
}

/// One series of the aggregate document, with its instances.
#[derive(Debug)]
pub struct SeriesEntry {
    pub series: SeriesRecord,
    pub instances: Vec<InstanceRecord>,
}

/// The mathematical value of a [`SeriesEntry`].
pub struct SeriesEntryModel {
    pub series: SeriesModel,
    pub instances: Seq<InstanceModel>,
}

impl View for SeriesEntry {
    type V = SeriesEntryModel;

    open spec fn view(&self) -> SeriesEntryModel {
        SeriesEntryModel { series: self.series@, instances: self.instances.deep_view() }
    }
}

impl DeepView for SeriesEntry {
    type V = SeriesEntryModel;

    open spec fn deep_view(&self) -> SeriesEntryModel {
        self@
    }
}

/// The fixed code of the document's envelope.
pub const ENVELOPE_HISCODE: &'static str = "89269";

/// The fixed expiry time of the document's envelope.
pub const ENVELOPE_EXPIRES: &'static str = "2025-06-20T13-05-16";

/// The fixed run token of the document's envelope.
pub const ENVELOPE_TOKEN: &'static str = "cbcbc2c203fe3877737c0befd6a769fa";

/// The file that the aggregate document is written to.
pub const AGGREGATE_OUTPUT_PATH: &'static str = "./tst22.json";

/// The aggregate document: the series in order, and the envelope.
#[derive(Debug)]
pub struct AggregateDocument {
    pub series_data: Vec<SeriesEntry>,
    pub hiscode: String,
    pub expires: String,
    pub token: String,
}

/// The mathematical value of an [`AggregateDocument`].
pub struct AggregateModel {
    pub series_data: Seq<SeriesEntryModel>,
    pub hiscode: Seq<char>,
    pub expires: Seq<char>,
    pub token: Seq<char>,
}

impl View for AggregateDocument {
    type V = AggregateModel;

    open spec fn view(&self) -> AggregateModel {
        AggregateModel {
            series_data: self.series_data.deep_view(),
            hiscode: self.hiscode@,
            expires: self.expires@,
            token: self.token@,
        }
    }
}

impl SeriesRecord {
    /// A copy of the record.
    pub fn duplicate(&self) -> (copy: SeriesRecord)
        ensures
            copy@ == self@,
    {
        SeriesRecord {
            series_uid: self.series_uid.clone(),
            series_number: self.series_number,
            fields: copy_entries(&self.fields),
        }
    }
}

impl InstanceRecord {
    /// A copy of the record.
    pub fn duplicate(&self) -> (copy: InstanceRecord)
        ensures
            copy@ == self@,
    {
        InstanceRecord {
            series_uid: self.series_uid.clone(),
            sop_uid: self.sop_uid.clone(),
            instance_number: self.instance_number,
            fields: copy_entries(&self.fields),
        }
    }
}

/// Whether the record at position `i` is the first of its series.
pub open spec fn leads(series: Seq<SeriesModel>, i: int) -> bool {
    forall|j: int| 0 <= j < i ==> (#[trigger] series[j]).series_uid != series[i].series_uid
}

/// The positions below `n` of the records that are the first of their series,
/// ascending.
pub open spec fn leading(series: Seq<SeriesModel>, n: int) -> Seq<int>
    decreases n,
{
    if n <= 0 {
        Seq::<int>::empty()
    } else if leads(series, n - 1) {
        leading(series, n - 1).push(n - 1)
    } else {
        leading(series, n - 1)
    }
}

/// Whether two records are of the same instance of the same series.
pub open spec fn same_instance(a: InstanceModel, b: InstanceModel) -> bool {
    a.series_uid == b.series_uid && a.sop_uid == b.sop_uid
}

/// Whether the record at position `i` is the last of its instance.
pub open spec fn survives(instances: Seq<InstanceModel>, i: int) -> bool {
    forall|j: int| i < j < instances.len() ==> !same_instance(#[trigger] instances[j], instances[i])
}

/// The positions below `n` of the records of series `uid` that are the last of
/// their instance, ascending.
pub open spec fn surviving(instances: Seq<InstanceModel>, uid: Seq<char>, n: int) -> Seq<int>
    decreases n,
{
    if n <= 0 {
        Seq::<int>::empty()
    } else if instances[n - 1].series_uid == uid && survives(instances, n - 1) {
        surviving(instances, uid, n - 1).push(n - 1)
    } else {
        surviving(instances, uid, n - 1)
    }
}

/// The key by which series are ordered: the series number.
pub open spec fn by_series_number() -> spec_fn(SeriesModel) -> u32 {
    |s: SeriesModel| s.series_number
}

/// The key by which the instances of a series are ordered: the instance
/// number.
pub open spec fn by_instance_number() -> spec_fn(InstanceModel) -> u32 {
    |i: InstanceModel| i.instance_number
}

/// The numbers by which the given series are ordered.
pub open spec fn series_numbers(series: Seq<SeriesModel>) -> Seq<u32> {
    keys_of(series, by_series_number())
}

/// The numbers by which the given instances are ordered.
pub open spec fn instance_numbers(instances: Seq<InstanceModel>) -> Seq<u32> {
    keys_of(instances, by_instance_number())
}

/// The series of the document: the first record of each series, by ascending
/// series number, series with equal numbers in the order in which they were
/// first seen.
pub open spec fn series_of(series: Seq<SeriesModel>) -> Seq<SeriesModel> {
    let first = arranged(series, leading(series, series.len() as int));
    arranged(first, stable_order(series_numbers(first)))
}

/// The instances of series `uid`: the last record of each of its instances, by
/// ascending instance number, instances with equal numbers in the order of
/// those records.
pub open spec fn instances_of(instances: Seq<InstanceModel>, uid: Seq<char>) -> Seq<
    InstanceModel,
> {
    let last = arranged(instances, surviving(instances, uid, instances.len() as int));
    arranged(last, stable_order(instance_numbers(last)))
}

/// The series entries of the document for the given records.
pub open spec fn series_data_of(
    series: Seq<SeriesModel>,
    instances: Seq<InstanceModel>,
) -> Seq<SeriesEntryModel> {
    Seq::new(
        series_of(series).len(),
        |k: int|
            SeriesEntryModel {
                series: series_of(series)[k],
                instances: instances_of(instances, series_of(series)[k].series_uid),
            },
    )
}

/// The document for the given records.
pub open spec fn aggregate_spec(
    series: Seq<SeriesModel>,
    instances: Seq<InstanceModel>,
) -> AggregateModel {
    AggregateModel {
        series_data: series_data_of(series, instances),
        hiscode: ENVELOPE_HISCODE@,
        expires: ENVELOPE_EXPIRES@,
        token: ENVELOPE_TOKEN@,
    }
}

/// Whether one of the listed records is of series `uid`.
spec fn names_series(series: Seq<SeriesModel>, listed: Seq<int>, uid: Seq<char>) -> bool {
    exists|k: int| 0 <= k < listed.len() && (#[trigger] series[listed[k]]).series_uid == uid
}

/// The positions of the records that are the first of their series.
fn leading_positions(series: &Vec<SeriesRecord>) -> (lead: Vec<usize>)
    ensures
        positions(lead@) == leading(series.deep_view(), series.len() as int),
        forall|k: int| 0 <= k < lead.len() ==> lead[k] < series.len(),
{
    let ghost model = series.deep_view();
    let mut lead: Vec<usize> = Vec::new();
    let mut i: usize = 0;
    assert(positions(lead@) =~= leading(model, 0));
    while i < series.len()
        invariant
            i <= series.len(),
            model == series.deep_view(),
            positions(lead@) == leading(model, i as int),
            forall|k: int| 0 <= k < lead.len() ==> lead[k] < i,
            forall|j: int|
                0 <= j < i ==> names_series(model, positions(lead@), (#[trigger] model[j]).series_uid),
        decreases series.len() - i,
    {
        let ghost before = positions(lead@);
        let ghost uid = model[i as int].series_uid;
        let mut seen = false;
        let mut k: usize = 0;
        while k < lead.len() && !seen
            invariant
                k <= lead.len(),
                i < series.len(),
                model == series.deep_view(),
                uid == model[i as int].series_uid,
                before == positions(lead@),
                forall|k: int| 0 <= k < lead.len() ==> lead[k] < i,
                seen ==> k < lead.len() && model[lead[k as int] as int].series_uid == uid,
                forall|m: int| 0 <= m < k ==> (#[trigger] model[before[m]]).series_uid != uid,
            decreases lead.len() - k + (if seen { 0int } else { 1int }),
        {
            assert(before[k as int] == lead[k as int]);
            if series[lead[k]].series_uid == series[i].series_uid {
                seen = true;
            } else {
                k = k + 1;
            }
        }
        if !seen {
            proof {
                assert(!names_series(model, before, uid));
                assert forall|j: int| 0 <= j < i implies (#[trigger] model[j]).series_uid
                    != uid by {
                    assert(names_series(model, before, model[j].series_uid));
                }
                assert(leads(model, i as int));
            }
            lead.push(i);
            proof {
                let after = positions(lead@);
                assert(after =~= before.push(i as int));
                assert forall|j: int| 0 <= j < i + 1 implies names_series(
                    model,
                    after,
                    (#[trigger] model[j]).series_uid,
                ) by {
                    if j < i {
                        assert(names_series(model, before, model[j].series_uid));
                        let m = choose|m: int|
                            0 <= m < before.len() && (#[trigger] model[before[m]]).series_uid
                                == model[j].series_uid;
                        assert(after[m] == before[m]);
                        assert(model[after[m]].series_uid == model[j].series_uid);
                    } else {
                        assert(after[after.len() - 1] == i);
                        assert(model[after[after.len() - 1]].series_uid == model[j].series_uid);
                    }
                }
            }
        } else {
            proof {
                assert(before[k as int] == lead[k as int]);
                assert(model[before[k as int]].series_uid == uid);
                assert(!leads(model, i as int));
                assert(names_series(model, before, uid));
            }
        }
        i = i + 1;
    }
    lead
}

/// The positions below `n` of the records of series `uid`, ascending.
spec fn of_series(instances: Seq<InstanceModel>, uid: Seq<char>, n: int) -> Seq<int>
    decreases n,
{
    if n <= 0 {
        Seq::<int>::empty()
    } else if instances[n - 1].series_uid == uid {
        of_series(instances, uid, n - 1).push(n - 1)
    } else {
        of_series(instances, uid, n - 1)
    }
}

/// The positions of a series are exactly the positions of its records, in
/// ascending order.
proof fn lemma_of_series(instances: Seq<InstanceModel>, uid: Seq<char>, n: int)
    requires
        0 <= n <= instances.len(),
    ensures
        forall|k: int|
            0 <= k < of_series(instances, uid, n).len() ==> 0 <= (#[trigger] of_series(
                instances,
                uid,
                n,
            )[k]) < n && instances[of_series(instances, uid, n)[k]].series_uid == uid,
        forall|a: int, b: int|
            0 <= a < b < of_series(instances, uid, n).len() ==> (#[trigger] of_series(
                instances,
                uid,
                n,
            )[a]) < (#[trigger] of_series(instances, uid, n)[b]),
        forall|j: int|
            0 <= j < n && (#[trigger] instances[j]).series_uid == uid ==> of_series(
                instances,
                uid,
                n,
            ).contains(j),
    decreases n,
{
    if n > 0 {
        lemma_of_series(instances, uid, n - 1);
        let before = of_series(instances, uid, n - 1);
        let now = of_series(instances, uid, n);
        if instances[n - 1].series_uid == uid {
            assert(now == before.push(n - 1));
            assert forall|j: int|
                0 <= j < n && (#[trigger] instances[j]).series_uid == uid implies now.contains(
                j,
            ) by {
                if j < n - 1 {
                    let k = choose|k: int| 0 <= k < before.len() && before[k] == j;
                    assert(now[k] == j);
                } else {
                    assert(now[now.len() - 1] == j);
                }
            }
        }
    }
}

/// Where no record from position `from` up to position `to` is of series
/// `uid`, the surviving positions of that series below `to` are those below
/// `from`.
proof fn lemma_surviving_gap(instances: Seq<InstanceModel>, uid: Seq<char>, from: int, to: int)
    requires
        0 <= from <= to <= instances.len(),
        forall|j: int| from <= j < to ==> (#[trigger] instances[j]).series_uid != uid,
    ensures
        surviving(instances, uid, to) == surviving(instances, uid, from),
    decreases to - from,
{
    if from < to {
        lemma_surviving_gap(instances, uid, from, to - 1);
        assert(instances[to - 1].series_uid != uid);
    }
}

/// The positions of the records of series `uid`.
fn series_positions(instances: &Vec<InstanceRecord>, uid: &String) -> (same: Vec<usize>)
    ensures
        positions(same@) == of_series(instances.deep_view(), uid@, instances.len() as int),
{
    let ghost model = instances.deep_view();
    let mut same: Vec<usize> = Vec::new();
    let mut i: usize = 0;
    assert(positions(same@) =~= of_series(model, uid@, 0));
    while i < instances.len()
        invariant
            i <= instances.len(),
            model == instances.deep_view(),
            positions(same@) == of_series(model, uid@, i as int),
        decreases instances.len() - i,
    {
        let ghost before = positions(same@);
        if instances[i].series_uid == *uid {
            same.push(i);
            assert(positions(same@) =~= before.push(i as int));
        }
        i = i + 1;
    }
    same
}

/// The positions of the records of series `uid` that are the last of their
/// instance.
fn surviving_positions(instances: &Vec<InstanceRecord>, uid: &String) -> (mine: Vec<usize>)
    ensures
        positions(mine@) == surviving(instances.deep_view(), uid@, instances.len() as int),
        forall|k: int| 0 <= k < mine.len() ==> mine[k] < instances.len(),
{
    let ghost model = instances.deep_view();
    let ghost n = instances.len() as int;
    let same = series_positions(instances, uid);
    let ghost listed = positions(same@);
    proof {
        lemma_of_series(model, uid@, n);
        assert forall|k: int| 0 <= k < same.len() implies same[k] < instances.len() by {
            assert(listed[k] == same[k]);
        }
    }
    let mut mine: Vec<usize> = Vec::new();
    let mut k: usize = 0;
    proof {
        let first = if same.len() > 0 {
            listed[0]
        } else {
            n
        };
        assert forall|j: int| 0 <= j < first implies (#[trigger] model[j]).series_uid != uid@ by {
            if model[j].series_uid == uid@ {
                let at = choose|at: int| 0 <= at < listed.len() && listed[at] == j;
                if at > 0 {
                    assert(listed[0] < listed[at]);
                }
            }
        }
        lemma_surviving_gap(model, uid@, 0, first);
        assert(positions(mine@) =~= surviving(model, uid@, 0));
    }
    while k < same.len()
        invariant
            k <= same.len(),
            model == instances.deep_view(),
            n == instances.len(),
            listed == positions(same@),
            listed == of_series(model, uid@, n),
            forall|m: int| 0 <= m < same.len() ==> same[m] < instances.len(),
            forall|m: int|
                0 <= m < listed.len() ==> 0 <= (#[trigger] listed[m]) < n
                    && model[listed[m]].series_uid == uid@,
            forall|a: int, b: int|
                0 <= a < b < listed.len() ==> (#[trigger] listed[a]) < (#[trigger] listed[b]),
            forall|j: int|
                0 <= j < n && (#[trigger] model[j]).series_uid == uid@ ==> listed.contains(j),
            positions(mine@) == surviving(
                model,
                uid@,
                if k < same.len() {
                    listed[k as int]
                } else {
                    n
                },
            ),
            forall|m: int| 0 <= m < mine.len() ==> mine[m] < instances.len(),
        decreases same.len() - k,
    {
        let here = same[k];
        assert(listed[k as int] == here);
        let mut last = true;
        let mut l: usize = k + 1;
        while l < same.len() && last
            invariant
                k < l <= same.len(),
                model == instances.deep_view(),
                listed == positions(same@),
                here == same[k as int],
                forall|m: int| 0 <= m < same.len() ==> same[m] < instances.len(),
                last ==> forall|m: int|
                    k < m < l ==> (#[trigger] model[listed[m]]).sop_uid != model[here as int].sop_uid,
                !last ==> l < same.len() && model[listed[l as int]].sop_uid
                    == model[here as int].sop_uid,
            decreases same.len() - l + (if last { 1int } else { 0int }),
        {
            assert(listed[l as int] == same[l as int]);
            if instances[same[l]].sop_uid == instances[here].sop_uid {
                last = false;
            } else {
                l = l + 1;
            }
        }
        proof {
            if last {
                assert forall|j: int| here < j < n implies !same_instance(
                    #[trigger] model[j],
                    model[here as int],
                ) by {
                    if model[j].series_uid == uid@ {
                        let at = choose|at: int| 0 <= at < listed.len() && listed[at] == j;
                        if at <= k {
                            if at < k {
                                assert(listed[at] < listed[k as int]);
                            }
                        } else {
                            assert(model[listed[at]].sop_uid != model[here as int].sop_uid);
                        }
                    }
                }
                assert(survives(model, here as int));
            } else {
                assert(listed[k as int] < listed[l as int]);
                assert(same_instance(model[listed[l as int]], model[here as int]));
                assert(!survives(model, here as int));
            }
        }
        let ghost before = positions(mine@);
        if last {
            mine.push(here);
            assert(positions(mine@) =~= before.push(here as int));
        }
        proof {
            let next = if k + 1 < same.len() {
                listed[k + 1]
            } else {
                n
            };
            if k + 1 < same.len() {
                assert(listed[k as int] < listed[k + 1]);
            }
            assert forall|j: int| here + 1 <= j < next implies (#[trigger] model[j]).series_uid
                != uid@ by {
                if model[j].series_uid == uid@ {
                    let at = choose|at: int| 0 <= at < listed.len() && listed[at] == j;
                    if at < k {
                        assert(listed[at] < listed[k as int]);
                    } else if at > k + 1 {
                        assert(listed[k + 1] < listed[at]);
                    }
                }
            }
            lemma_surviving_gap(model, uid@, here + 1, next);
        }
        k = k + 1;
    }
    mine
}

/// The instances of series `uid`, in the order of the document.
fn collect_instances(instances: &Vec<InstanceRecord>, uid: &String) -> (out: Vec<InstanceRecord>)
    ensures
        out.deep_view() == instances_of(instances.deep_view(), uid@),
{
    let ghost model = instances.deep_view();
    let mine = surviving_positions(instances, uid);
    let ghost last = arranged(model, positions(mine@));
    let mut numbers: Vec<u32> = Vec::new();
    let mut k: usize = 0;
    while k < mine.len()
        invariant
            k <= mine.len(),
            model == instances.deep_view(),
            last == arranged(model, positions(mine@)),
            forall|m: int| 0 <= m < mine.len() ==> mine[m] < instances.len(),
            numbers.len() == k,
            forall|m: int| 0 <= m < k ==> numbers[m] == last[m].instance_number,
        decreases mine.len() - k,
    {
        numbers.push(instances[mine[k]].instance_number);
        k = k + 1;
    }
    assert(numbers@ =~= instance_numbers(last));
    let order = order_by_key(&numbers);
    let ghost wanted = arranged(last, stable_order(instance_numbers(last)));
    let mut out: Vec<InstanceRecord> = Vec::new();
    let mut k: usize = 0;
    while k < order.len()
        invariant
            k <= order.len(),
            model == instances.deep_view(),
            last == arranged(model, positions(mine@)),
            wanted == arranged(last, positions(order@)),
            order.len() == mine.len(),
            forall|m: int| 0 <= m < order.len() ==> order[m] < mine.len(),
            forall|m: int| 0 <= m < mine.len() ==> mine[m] < instances.len(),
            out.len() == k,
            forall|m: int| 0 <= m < k ==> out[m]@ == wanted[m],
        decreases order.len() - k,
    {
        out.push(instances[mine[order[k]]].duplicate());
        k = k + 1;
    }
    assert(out.deep_view() =~= wanted);
    out
}

/// Builds the aggregate document from what the files of a run gave.
///
/// Of the series records, the first of each series stands for the series;
/// later ones of the same series are ignored, whatever they hold. Of the
/// instance records, the last of each instance (series and SOP instance
/// together) stands for the instance. The series come by ascending series
/// number, and in each series its instances by ascending instance number;
/// where numbers are equal, the order of the records decides. An instance
/// whose series has no series record is left out.
pub fn aggregate(series: &Vec<SeriesRecord>, instances: &Vec<InstanceRecord>) -> (doc:
    AggregateDocument)
    ensures
        doc@ == aggregate_spec(series.deep_view(), instances.deep_view()),
{
    let ghost series_model = series.deep_view();
    let ghost instance_model = instances.deep_view();
    let lead = leading_positions(series);
    let ghost first = arranged(series_model, positions(lead@));
    let mut numbers: Vec<u32> = Vec::new();
    let mut k: usize = 0;
    while k < lead.len()
        invariant
            k <= lead.len(),
            series_model == series.deep_view(),
            first == arranged(series_model, positions(lead@)),
            forall|m: int| 0 <= m < lead.len() ==> lead[m] < series.len(),
            numbers.len() == k,
            forall|m: int| 0 <= m < k ==> numbers[m] == first[m].series_number,
        decreases lead.len() - k,
    {
        numbers.push(series[lead[k]].series_number);
        k = k + 1;
    }
    assert(numbers@ =~= series_numbers(first));
    let order = order_by_key(&numbers);
    let ghost wanted = series_data_of(series_model, instance_model);
    assert(series_of(series_model) == arranged(first, positions(order@)));
    let mut series_data: Vec<SeriesEntry> = Vec::new();
    let mut k: usize = 0;
    while k < order.len()
        invariant
            k <= order.len(),
            series_model == series.deep_view(),
            instance_model == instances.deep_view(),
            first == arranged(series_model, positions(lead@)),
            series_of(series_model) == arranged(first, positions(order@)),
            wanted == series_data_of(series_model, instance_model),
            order.len() == lead.len(),
            forall|m: int| 0 <= m < order.len() ==> order[m] < lead.len(),
            forall|m: int| 0 <= m < lead.len() ==> lead[m] < series.len(),
            series_data.len() == k,
            forall|m: int| 0 <= m < k ==> series_data[m]@ == wanted[m],
        decreases order.len() - k,
    {
        let record = &series[lead[order[k]]];
        assert(record@ == series_of(series_model)[k as int]);
        let members = collect_instances(instances, &record.series_uid);
        series_data.push(SeriesEntry { series: record.duplicate(), instances: members });
        k = k + 1;
    }
    assert(series_data.deep_view() =~= wanted);
    AggregateDocument {
        series_data,
        hiscode: String::from_str(ENVELOPE_HISCODE),
        expires: String::from_str(ENVELOPE_EXPIRES),
        token: String::from_str(ENVELOPE_TOKEN),
    }
}

} // verus!
