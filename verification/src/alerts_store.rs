//! The alert history store.
//!
//! A capacity-bounded FIFO of alert records. Appending beyond the capacity
//! evicts the oldest record; records can be acknowledged by id; `clear`
//! empties the store. Trigger order is preserved.

use vstd::prelude::*;

use std::collections::VecDeque;

use crate::bounded::{lemma_filter_empty, lemma_filter_take_step, spec_bounded_push};
use crate::json::{append_json_bool, append_json_int, append_json_string, lemma_json_join_step,
    spec_json_array, spec_json_bool, spec_json_join, spec_json_string};
use crate::numfmt::spec_dec_signed;
use crate::clock::now_millis;
use crate::ident::fresh_id;
use crate::rules::{spec_severity_label, AlertSeverity};
use crate::text::string_eq_str;

verus! {

/// One alert occurrence, as kept in the history.
#[derive(Debug)]
pub struct AlertRecord {
    /// Generated id of the record.
    pub id: String,
    /// Id of the rule that raised the alert.
    pub rule_id: String,
    /// Name of the rule that raised the alert.
    pub rule_name: String,
    /// The rendered alert message.
    pub message: String,
    /// Severity of the alert.
    pub severity: AlertSeverity,
    /// When the alert was raised, in milliseconds since the Unix epoch.
    pub timestamp: i64,
    /// Whether a user has acknowledged the record.
    pub acknowledged: bool,
}

/// The mathematical image of an [`AlertRecord`].
#[verifier::ext_equal]
pub ghost struct AlertRecordView {
    pub id: Seq<char>,
    pub rule_id: Seq<char>,
    pub rule_name: Seq<char>,
    pub message: Seq<char>,
    pub severity: AlertSeverity,
    pub timestamp: int,
    pub acknowledged: bool,
}

impl View for AlertRecord {
    type V = AlertRecordView;

    open spec fn view(&self) -> AlertRecordView {
        AlertRecordView {
            id: self.id@,
            rule_id: self.rule_id@,
            rule_name: self.rule_name@,
            message: self.message@,
            severity: self.severity,
            timestamp: self.timestamp as int,
            acknowledged: self.acknowledged,
        }
    }
}

impl Clone for AlertRecord {
    /// Copies the record; the copy has the same view.
    fn clone(&self) -> (r: Self)
        ensures
            r@ == self@,
    {
        AlertRecord {
            id: self.id.clone(),
            rule_id: self.rule_id.clone(),
            rule_name: self.rule_name.clone(),
            message: self.message.clone(),
            severity: self.severity,
            timestamp: self.timestamp,
            acknowledged: self.acknowledged,
        }
    }
}

/// The views of a list of records, element for element.
pub open spec fn spec_record_views(records: Seq<AlertRecord>) -> Seq<AlertRecordView> {
    Seq::new(records.len(), |i: int| records[i]@)
}

/// The unacknowledged records, in order.
pub open spec fn spec_unacknowledged(records: Seq<AlertRecordView>) -> Seq<AlertRecordView> {
    records.filter(|r: AlertRecordView| !r.acknowledged)
}

/// Whether some record of the store carries the id.
pub open spec fn spec_has_record(records: Seq<AlertRecordView>, id: Seq<char>) -> bool {
    exists|i: int| 0 <= i < records.len() && records[i].id == id
}

/// What acknowledging did when it reports success: the first record of the
/// given id, and only it, now carries the acknowledged flag.
pub open spec fn spec_acknowledged_at(
    pre: Seq<AlertRecordView>,
    post: Seq<AlertRecordView>,
    id: Seq<char>,
    i: int,
) -> bool {
    &&& 0 <= i < pre.len()
    &&& pre[i].id == id
    &&& forall|j: int| 0 <= j < i ==> #[trigger] pre[j].id != id
    &&& post == pre.update(i, AlertRecordView { acknowledged: true, ..pre[i] })
}

/// The capacity-bounded FIFO of alert records.
pub struct AlertsStore {
    records: VecDeque<AlertRecord>,
    max_records: usize,
}

impl View for AlertsStore {
    type V = Seq<AlertRecordView>;

    closed spec fn view(&self) -> Seq<AlertRecordView> {
        spec_record_views(self.records@)
    }
}

impl AlertsStore {
    /// The capacity the store was created with.
    pub closed spec fn spec_capacity(&self) -> int {
        self.max_records as int
    }

    /// The store never holds more records than its capacity.
    pub open spec fn wf(&self) -> bool {
        self@.len() <= self.spec_capacity()
    }

    /// Creates an empty store of the given capacity.
    pub fn new(max_records: usize) -> (r: AlertsStore)
        ensures
            r@ == Seq::<AlertRecordView>::empty(),
            r.spec_capacity() == max_records,
            r.wf(),
    {
        let r = AlertsStore { records: VecDeque::new(), max_records };
        proof {
            assert(r@ =~= Seq::<AlertRecordView>::empty());
        }
        r
    }

    /// Appends a record, evicting the oldest if the capacity is exceeded.
    pub fn push_record(&mut self, record: AlertRecord)
        requires
            old(self).wf(),
        ensures
            final(self).wf(),
            final(self).spec_capacity() == old(self).spec_capacity(),
            final(self)@ == spec_bounded_push(old(self)@, record@, old(self).spec_capacity()),
    {
        let ghost pre = self@;
        self.records.push_back(record);
        proof {
            assert(spec_record_views(self.records@) =~= pre.push(record@));
        }
        if self.records.len() > self.max_records {
            let ghost grown = spec_record_views(self.records@);
            self.records.pop_front();
            proof {
                assert(spec_record_views(self.records@) =~= grown.drop_first());
            }
        }
    }

    /// Creates a record for a rule trigger — fresh id, current time, not
    /// acknowledged — and appends it under the eviction policy. The new
    /// record is the last one held.
    pub fn add_record(
        &mut self,
        rule_id: &str,
        rule_name: &str,
        message: &str,
        severity: &AlertSeverity,
    )
        requires
            old(self).wf(),
        ensures
            final(self).wf(),
            final(self).spec_capacity() == old(self).spec_capacity(),
            old(self).spec_capacity() == 0 ==> final(self)@ == Seq::<AlertRecordView>::empty(),
            old(self).spec_capacity() > 0 ==> final(self)@.len() > 0,
            old(self).spec_capacity() > 0 ==> final(self)@ == spec_bounded_push(
                old(self)@,
                final(self)@.last(),
                old(self).spec_capacity(),
            ),
            old(self).spec_capacity() > 0 ==> final(self)@.last() == (AlertRecordView {
                id: final(self)@.last().id,
                rule_id: rule_id@,
                rule_name: rule_name@,
                message: message@,
                severity: *severity,
                timestamp: final(self)@.last().timestamp,
                acknowledged: false,
            }),
            old(self).spec_capacity() > 0 ==> final(self)@.last().id.len() == 36,
    {
        let ghost pre = self@;
        let record = AlertRecord {
            id: fresh_id(),
            rule_id: rule_id.to_owned(),
            rule_name: rule_name.to_owned(),
            message: message.to_owned(),
            severity: *severity,
            timestamp: now_millis(),
            acknowledged: false,
        };
        let ghost rv = record@;
        self.push_record(record);
        proof {
            let grown = pre.push(rv);
            assert(grown.last() == rv);
            if old(self).spec_capacity() == 0 {
                assert(self@ =~= Seq::<AlertRecordView>::empty());
            } else {
                if grown.len() > old(self).spec_capacity() {
                    assert(self@ == grown.drop_first());
                    let dropped = grown.drop_first();
                    assert(dropped.len() == grown.len() - 1);
                    assert(dropped[dropped.len() - 1] == grown[grown.len() - 1]);
                    assert(self@.last() == grown.last());
                } else {
                    assert(self@ == grown);
                }
                assert(self@.last() == rv);
            }
        }
    }

    /// A value copy of every record, oldest first.
    pub fn get_all_records(&self) -> (r: Vec<AlertRecord>)
        ensures
            spec_record_views(r@) == self@,
    {
        let mut r: Vec<AlertRecord> = Vec::new();
        let mut i: usize = 0;
        while i < self.records.len()
            invariant
                i <= self.records@.len(),
                r@.len() == i,
                forall|j: int| 0 <= j < i ==> #[trigger] r@[j]@ == self.records@[j]@,
            decreases self.records@.len() - i,
        {
            r.push(self.records[i].clone());
            i = i + 1;
        }
        proof {
            assert(spec_record_views(r@) =~= self@);
        }
        r
    }

    /// A value copy of the records not yet acknowledged, oldest first.
    pub fn get_unacknowledged_records(&self) -> (r: Vec<AlertRecord>)
        ensures
            spec_record_views(r@) == spec_unacknowledged(self@),
    {
        let ghost all = self@;
        let mut r: Vec<AlertRecord> = Vec::new();
        let mut i: usize = 0;
        proof {
            lemma_filter_empty(|rec: AlertRecordView| !rec.acknowledged);
            assert(all.take(0) =~= Seq::<AlertRecordView>::empty());
            assert(spec_record_views(r@) =~= spec_unacknowledged(all.take(0)));
        }
        while i < self.records.len()
            invariant
                all == self@,
                self.records@.len() == all.len(),
                i <= all.len(),
                spec_record_views(r@) == spec_unacknowledged(all.take(i as int)),
            decreases all.len() - i,
        {
            let ghost r_pre = spec_record_views(r@);
            if !self.records[i].acknowledged {
                r.push(self.records[i].clone());
                proof {
                    assert(spec_record_views(r@) =~= r_pre.push(all[i as int]));
                }
            }
            proof {
                lemma_filter_take_step(all, |rec: AlertRecordView| !rec.acknowledged, i as int);
            }
            i = i + 1;
        }
        proof {
            assert(all.take(all.len() as int) =~= all);
        }
        r
    }

    /// Acknowledges the first record of the given id and reports whether
    /// one was found; an unknown id leaves the store unchanged.
    pub fn acknowledge(&mut self, record_id: &str) -> (found: bool)
        ensures
            final(self).spec_capacity() == old(self).spec_capacity(),
            found == spec_has_record(old(self)@, record_id@),
            found ==> exists|i: int|
                #[trigger] spec_acknowledged_at(old(self)@, final(self)@, record_id@, i),
            !found ==> final(self)@ == old(self)@,
            old(self).wf() ==> final(self).wf(),
    {
        let ghost pre = self@;
        let mut i: usize = 0;
        while i < self.records.len()
            invariant
                pre == old(self)@,
                self@ == pre,
                self.spec_capacity() == old(self).spec_capacity(),
                i <= pre.len(),
                forall|j: int| 0 <= j < i ==> #[trigger] pre[j].id != record_id@,
            decreases pre.len() - i,
        {
            if string_eq_str(&self.records[i].id, record_id) {
                proof {
                    assert(pre[i as int].id == record_id@);
                    assert(spec_has_record(pre, record_id@));
                }
                let mut r = self.records.remove(i).unwrap();
                r.acknowledged = true;
                self.records.insert(i, r);
                proof {
                    assert(self@ =~= pre.update(
                        i as int,
                        (AlertRecordView { acknowledged: true, ..pre[i as int] }),
                    ));
                    assert(spec_acknowledged_at(pre, self@, record_id@, i as int));
                }
                return true;
            }
            i = i + 1;
        }
        proof {
            assert(!spec_has_record(pre, record_id@));
        }
        false
    }

    /// Empties the store.
    pub fn clear(&mut self)
        ensures
            final(self)@ == Seq::<AlertRecordView>::empty(),
            final(self).spec_capacity() == old(self).spec_capacity(),
            final(self).wf(),
    {
        self.records.clear();
        proof {
            assert(self@ =~= Seq::<AlertRecordView>::empty());
        }
    }

    /// The number of records held.
    pub fn count(&self) -> (n: usize)
        ensures
            n == self@.len(),
    {
        self.records.len()
    }
}

/// The JSON text of one record.
pub open spec fn spec_record_json(r: AlertRecordView) -> Seq<char> {
    "{\"id\":"@ + spec_json_string(r.id) + ",\"rule_id\":"@ + spec_json_string(r.rule_id)
        + ",\"rule_name\":"@ + spec_json_string(r.rule_name) + ",\"message\":"@
        + spec_json_string(r.message) + ",\"severity\":"@ + spec_json_string(
        spec_severity_label(r.severity),
    ) + ",\"timestamp\":"@ + spec_dec_signed(r.timestamp) + ",\"acknowledged\":"@
        + spec_json_bool(r.acknowledged) + "}"@
}

/// The JSON text of a whole record list, in order.
pub open spec fn spec_records_json(records: Seq<AlertRecordView>) -> Seq<char> {
    spec_json_array(records, |r: AlertRecordView| spec_record_json(r))
}

/// Appends the JSON text of one record.
fn append_record_json(out: &mut String, r: &AlertRecord)
    ensures
        final(out)@ == old(out)@ + spec_record_json(r@),
{
    let ghost pre = out@;
    out.append("{\"id\":");
    append_json_string(out, r.id.as_str());
    out.append(",\"rule_id\":");
    append_json_string(out, r.rule_id.as_str());
    out.append(",\"rule_name\":");
    append_json_string(out, r.rule_name.as_str());
    out.append(",\"message\":");
    append_json_string(out, r.message.as_str());
    out.append(",\"severity\":");
    append_json_string(out, r.severity.label());
    out.append(",\"timestamp\":");
    append_json_int(out, r.timestamp);
    out.append(",\"acknowledged\":");
    append_json_bool(out, r.acknowledged);
    out.append("}");
    proof {
        assert(out@ =~= pre + spec_record_json(r@));
    }
}

impl AlertsStore {
    /// Serialises every record as JSON, in insertion order.
    pub fn export_json(&self) -> (r: Result<String, String>)
        ensures
            r matches Ok(out) && out@ == spec_records_json(self@),
    {
        let ghost f = |rec: AlertRecordView| spec_record_json(rec);
        let mut out: String = "[".to_owned();
        let ghost pre = out@;
        let mut i: usize = 0;
        while i < self.records.len()
            invariant
                pre == "["@,
                self.records@.len() == self@.len(),
                forall|j: int| 0 <= j < self@.len() ==> #[trigger] self.records@[j]@ == self@[j],
                i <= self@.len(),
                f == (|rec: AlertRecordView| spec_record_json(rec)),
                out@ == pre + spec_json_join(self@.take(i as int), f),
            decreases self@.len() - i,
        {
            let ghost out_pre = out@;
            if i > 0 {
                out.append(",");
            }
            append_record_json(&mut out, &self.records[i]);
            proof {
                lemma_json_join_step(self@, f, i as int);
                if i == 0 {
                    assert(out@ =~= pre + spec_json_join(self@.take(1), f));
                } else {
                    assert(out@ =~= pre + spec_json_join(self@.take(i + 1), f));
                }
            }
            i = i + 1;
        }
        proof {
            assert(self@.take(self@.len() as int) =~= self@);
        }
        out.append("]");
        proof {
            assert(out@ =~= spec_records_json(self@));
        }
        Ok(out)
    }
}

} // verus!
