use vstd::prelude::*;

verus! {

/// The id of a known federation instance.
#[derive(Clone, Copy, Debug, PartialEq, Eq, Structural)]
pub struct InstanceId(pub i32);

/// One row of the limited list: an instance whose federation is restricted,
/// with the timestamps (seconds since the UNIX epoch) of when the entry was
/// published and last updated.
#[derive(Clone, Copy, Debug, PartialEq, Eq, Structural)]
pub struct FederationLimitedList {
    pub id: i32,
    pub instance_id: InstanceId,
    pub published: i64,
    pub updated: Option<i64>,
}

/// The fields a caller supplies when inserting or changing a limited-list
/// entry.
#[derive(Clone, Copy, Debug, PartialEq, Eq, Structural)]
pub struct FederationLimitedListForm {
    pub instance_id: InstanceId,
    pub updated: Option<i64>,
}

impl Default for FederationLimitedListForm {
    fn default() -> (r: Self)
        ensures
            r.instance_id == InstanceId(0),
            r.updated is None,
    {
        FederationLimitedListForm { instance_id: InstanceId(0), updated: None }
    }
}

} // verus!
