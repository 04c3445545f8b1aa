use vstd::prelude::*;

verus! {

/// A record value of the mid-level intermediate representation.
#[derive(Clone, Debug, PartialEq)]
pub struct Record {
    /// The name of the record's type.
    pub name: String,
}

/// A record whose memory may be reused for another record of the same
/// type; `reuse_id` names the memory block that is handed on.
#[derive(Clone, Debug, PartialEq)]
pub struct ReusedRecord {
    reuse_id: String,
    record: Record,
}

impl ReusedRecord {
    /// The name of the reused memory block.
    pub closed spec fn spec_reuse_id(&self) -> Seq<char> {
        self.reuse_id@
    }

    /// The record that is built in the reused block.
    pub closed spec fn spec_record(&self) -> Record {
        self.record
    }

    pub fn new(reuse_id: String, record: Record) -> (res: Self)
        ensures
            res.spec_reuse_id() == reuse_id@,
            res.spec_record() == record,
    {
        Self { reuse_id, record }
    }

    pub fn reuse_id(&self) -> (res: &str)
        ensures
            res@ == self.spec_reuse_id(),
    {
        self.reuse_id.as_str()
    }

    pub fn record(&self) -> (res: &Record)
        ensures
            *res == self.spec_record(),
    {
        &self.record
    }
}

} // verus!
