//! The record changes that are sent to the DNS provider.

use crate::ipv4::{quad_text, Ipv4Addr};
use crate::zones::{records_of, GroupView, ZoneGroup};
use vstd::prelude::*;

verus! {

/// The time to live of every record that is written, in seconds.
pub const RECORD_TTL: i64 = 300;

/// One value of a record set.
pub struct ResourceRecord {
    pub value: String,
}

/// A record set: the records of one type under one name.
pub struct ResourceRecordSet {
    pub name: String,
    pub type_: String,
    pub ttl: Option<i64>,
    pub resource_records: Option<Vec<ResourceRecord>>,
}

/// One change to a record set.
pub struct Change {
    pub action: String,
    pub resource_record_set: ResourceRecordSet,
}

/// The changes of one request.
pub struct ChangeBatch {
    pub comment: Option<String>,
    pub changes: Vec<Change>,
}

/// A request to change record sets of one hosted zone.
pub struct ChangeResourceRecordSetsRequest {
    pub change_batch: ChangeBatch,
    pub hosted_zone_id: String,
}

/// A `Change` as a mathematical value.
pub struct ChangeView {
    pub action: Seq<char>,
    pub name: Seq<char>,
    pub type_: Seq<char>,
    pub ttl: Option<i64>,
    pub values: Option<Seq<Seq<char>>>,
}

/// A `ChangeResourceRecordSetsRequest` as a mathematical value.
pub struct RequestView {
    pub hosted_zone_id: Seq<char>,
    pub comment: Option<Seq<char>>,
    pub changes: Seq<ChangeView>,
}

impl View for Change {
    type V = ChangeView;

    open spec fn view(&self) -> ChangeView {
        ChangeView {
            action: self.action@,
            name: self.resource_record_set.name@,
            type_: self.resource_record_set.type_@,
            ttl: self.resource_record_set.ttl,
            values: match self.resource_record_set.resource_records {
                Some(rs) => Some(Seq::new(rs@.len(), |i: int| rs@[i].value@)),
                None => None,
            },
        }
    }
}

impl View for ChangeResourceRecordSetsRequest {
    type V = RequestView;

    open spec fn view(&self) -> RequestView {
        RequestView {
            hosted_zone_id: self.hosted_zone_id@,
            comment: match self.change_batch.comment {
                Some(c) => Some(c@),
                None => None,
            },
            changes: Seq::new(
                self.change_batch.changes@.len(),
                |i: int| self.change_batch.changes@[i]@,
            ),
        }
    }
}

/// The change that points `name` to `ip`: an upsert of an A record with
/// the fixed time to live and the address as its one value.
pub open spec fn upsert_of(name: Seq<char>, ip: Ipv4Addr) -> ChangeView {
    ChangeView {
        action: "UPSERT"@,
        name,
        type_: "A"@,
        ttl: Some(RECORD_TTL),
        values: Some(seq![quad_text(ip)]),
    }
}

/// The one request that writes the records of `group`: a change for each
/// record, in order, and no comment.
pub open spec fn request_of(group: GroupView) -> RequestView {
    RequestView {
        hosted_zone_id: group.zone_id,
        comment: None,
        changes: Seq::new(
            group.records.len(),
            |i: int| upsert_of(group.records[i].0, group.records[i].1),
        ),
    }
}

/// The change that points `name` to `ip`.
pub fn upsert(name: String, ip: &Ipv4Addr) -> (change: Change)
    ensures
        change@ == upsert_of(name@, *ip),
{
    let mut values: Vec<ResourceRecord> = Vec::new();
    values.push(ResourceRecord { value: ip.to_text() });
    let change = Change {
        action: "UPSERT".to_owned(),
        resource_record_set: ResourceRecordSet {
            name,
            type_: "A".to_owned(),
            ttl: Some(RECORD_TTL),
            resource_records: Some(values),
        },
    };
    assert(change@.values->Some_0 =~= seq![quad_text(*ip)]);
    change
}

/// The request that writes `records` in the zone `zone_id`.
pub fn update_zone_records(zone_id: String, records: Vec<(String, Ipv4Addr)>) -> (req:
    ChangeResourceRecordSetsRequest)
    ensures
        req@ == request_of(GroupView { zone_id: zone_id@, records: records_of(records@) }),
{
    let mut req = ChangeResourceRecordSetsRequest {
        change_batch: ChangeBatch { comment: None, changes: Vec::new() },
        hosted_zone_id: zone_id,
    };
    let mut changes: Vec<Change> = Vec::new();
    let mut i: usize = 0;
    while i < records.len()
        invariant
            i <= records.len(),
            changes.len() == i,
            forall|k: int|
                0 <= k < i ==> (#[trigger] changes@[k])@ == upsert_of(
                    records@[k].0@,
                    records@[k].1,
                ),
        decreases records.len() - i,
    {
        let change = upsert(records[i].0.clone(), &records[i].1);
        changes.push(change);
        i += 1;
    }
    req.change_batch.changes = changes;
    assert(req@.changes =~= request_of(
        GroupView { zone_id: zone_id@, records: records_of(records@) },
    ).changes);
    req
}

/// The request that writes the records of `group`.
pub fn request_for(group: ZoneGroup) -> (req: ChangeResourceRecordSetsRequest)
    ensures
        req@ == request_of(group@),
{
    update_zone_records(group.zone_id, group.records)
}

} // verus!
