//! Redemption records: an append-only log of reward redemptions, numbered
//! from zero. Recording one moves no points: the admin claws the points back
//! on the ledger in a call of its own.
use vstd::prelude::*;
use crate::env::{Address, Env};
use crate::error::Error;

verus! {

#[derive(Clone, Debug)]
pub struct RedemptionRecord {
    pub record_id: u64,
    pub student: Address,
    /// The reward's name at the time of redemption.
    pub reward_name: String,
    pub points_spent: i128,
    pub redeemed_at: u64,
}

impl RedemptionRecord {
    /// A field-for-field copy.
    pub fn duplicate(&self) -> (r: RedemptionRecord)
        ensures
            r == *self,
    {
        RedemptionRecord {
            record_id: self.record_id,
            student: self.student,
            reward_name: self.reward_name.clone(),
            points_spent: self.points_spent,
            redeemed_at: self.redeemed_at,
        }
    }
}

/// The ids of the records of `student`, in order of recording.
pub open spec fn record_ids_of(s: Seq<RedemptionRecord>, student: Address) -> Seq<u64>
    decreases s.len(),
{
    if s.len() == 0 {
        Seq::empty()
    } else {
        let rest = record_ids_of(s.drop_last(), student);
        if s.last().student == student {
            rest.push(s.last().record_id)
        } else {
            rest
        }
    }
}

/// The redemption log as a reader sees it.
pub struct RedemptionBook {
    pub admin: Option<Address>,
    pub records: Seq<RedemptionRecord>,
}

pub struct RedemptionRecords {
    admin: Option<Address>,
    records: Vec<RedemptionRecord>,
}

impl View for RedemptionRecords {
    type V = RedemptionBook;

    closed spec fn view(&self) -> RedemptionBook {
        RedemptionBook { admin: self.admin, records: self.records@ }
    }
}

impl RedemptionRecords {
    /// Each record's id is its position in the log.
    pub closed spec fn wf(&self) -> bool {
        forall|i: int| 0 <= i < self.records@.len() ==> #[trigger] self.records@[i].record_id == i
    }

    /// An empty log without an admin.
    pub fn new() -> (r: RedemptionRecords)
        ensures
            r.wf(),
            r@.admin is None,
            r@.records.len() == 0,
    {
        RedemptionRecords { admin: None, records: Vec::new() }
    }

    /// Sets the admin, once.
    pub fn initialize(&mut self, admin: Address) -> (r: Result<(), Error>)
        requires
            old(self).wf(),
        ensures
            final(self).wf(),
            final(self)@.records == old(self)@.records,
            old(self)@.admin is Some ==> r == Err::<(), Error>(Error::AlreadyInitialized) && final(self)@.admin == old(self)@.admin,
            old(self)@.admin is None ==> r == Ok::<(), Error>(()) && final(self)@.admin == Some(admin),
    {
        if self.admin.is_some() {
            return Err(Error::AlreadyInitialized);
        }
        self.admin = Some(admin);
        Ok(())
    }

    /// The admin records that `student` spent `points_spent` on
    /// `reward_name`; returns the record's id, the number of records before
    /// it. The ledger timestamp is kept as redemption time.
    pub fn record_redemption(&mut self, env: &Env, student: Address, reward_name: String, points_spent: i128) -> (r: Result<u64, Error>)
        requires
            old(self).wf(),
        ensures
            final(self).wf(),
            final(self)@.admin == old(self)@.admin,
            old(self)@.admin is None ==> r == Err::<u64, Error>(Error::NotInitialized),
            old(self)@.admin matches Some(a) && !env.authorizes(a) ==> r == Err::<u64, Error>(Error::Unauthorized),
            old(self)@.admin matches Some(a) && env.authorizes(a) && old(self)@.records.len() >= u64::MAX ==> r
                == Err::<u64, Error>(Error::Overflow),
            r is Err ==> final(self)@ == old(self)@,
            r is Ok <==> (old(self)@.admin matches Some(a) && env.authorizes(a) && old(self)@.records.len() < u64::MAX),
            r matches Ok(id) ==> id == old(self)@.records.len() && final(self)@.records == old(self)@.records.push(
                RedemptionRecord { record_id: id, student, reward_name, points_spent, redeemed_at: env.timestamp },
            ),
    {
        let admin = match self.admin {
            Some(a) => a,
            None => return Err(Error::NotInitialized),
        };
        if !env.authenticated_as(admin) {
            return Err(Error::Unauthorized);
        }
        let n = self.records.len() as u64;
        if n == u64::MAX {
            return Err(Error::Overflow);
        }
        self.records.push(RedemptionRecord { record_id: n, student, reward_name, points_spent, redeemed_at: env.timestamp });
        Ok(n)
    }

    pub fn get_record(&self, record_id: u64) -> (r: Result<RedemptionRecord, Error>)
        ensures
            record_id < self@.records.len() ==> r == Ok::<RedemptionRecord, Error>(self@.records[record_id as int]),
            record_id >= self@.records.len() ==> r == Err::<RedemptionRecord, Error>(Error::RecordNotFound),
    {
        if (record_id as u128) < (self.records.len() as u128) {
            Ok(self.records[record_id as usize].duplicate())
        } else {
            Err(Error::RecordNotFound)
        }
    }

    /// The ids of the records of `student`, in order of recording.
    pub fn get_student_records(&self, student: Address) -> (r: Vec<u64>)
        ensures
            r@ == record_ids_of(self@.records, student),
    {
        let mut r: Vec<u64> = Vec::new();
        let mut i: usize = 0;
        while i < self.records.len()
            invariant
                i <= self.records@.len(),
                r@ == record_ids_of(self.records@.take(i as int), student),
            decreases self.records@.len() - i,
        {
            assert(self.records@.take(i + 1).drop_last() =~= self.records@.take(i as int));
            if self.records[i].student == student {
                r.push(self.records[i].record_id);
            }
            i = i + 1;
        }
        assert(self.records@.take(i as int) =~= self.records@);
        r
    }

    /// How many redemptions were recorded.
    pub fn record_count(&self) -> (r: u64)
        ensures
            r == self@.records.len(),
    {
        self.records.len() as u64
    }

    pub fn admin(&self) -> (r: Result<Address, Error>)
        ensures
            match self@.admin {
                Some(a) => r == Ok::<Address, Error>(a),
                None => r == Err::<Address, Error>(Error::NotInitialized),
            },
    {
        match self.admin {
            Some(a) => Ok(a),
            None => Err(Error::NotInitialized),
        }
    }
}

} // verus!
