//! Achievement badges: an append-only log of badges issued by the admin,
//! numbered from zero in order of issue.
use vstd::prelude::*;
use crate::env::{Address, Env};
use crate::error::Error;

verus! {

#[derive(Clone, Debug)]
pub struct BadgeData {
    pub badge_id: u64,
    pub student: Address,
    pub activity_id: u64,
    pub activity_title: String,
    /// Where the badge's image lives: an HTTPS URL or an IPFS reference.
    pub image_uri: String,
    pub reviewer: Address,
    pub points_awarded: i128,
    pub issued_at: u64,
    pub description_hash: [u8; 32],
}

impl BadgeData {
    /// A field-for-field copy.
    pub fn duplicate(&self) -> (r: BadgeData)
        ensures
            r == *self,
    {
        BadgeData {
            badge_id: self.badge_id,
            student: self.student,
            activity_id: self.activity_id,
            activity_title: self.activity_title.clone(),
            image_uri: self.image_uri.clone(),
            reviewer: self.reviewer,
            points_awarded: self.points_awarded,
            issued_at: self.issued_at,
            description_hash: self.description_hash,
        }
    }
}

/// The ids of the badges of `student`, in order of issue.
pub open spec fn badge_ids_of(s: Seq<BadgeData>, student: Address) -> Seq<u64>
    decreases s.len(),
{
    if s.len() == 0 {
        Seq::empty()
    } else {
        let rest = badge_ids_of(s.drop_last(), student);
        if s.last().student == student {
            rest.push(s.last().badge_id)
        } else {
            rest
        }
    }
}

/// The badge log as a reader sees it.
pub struct BadgeBook {
    pub admin: Option<Address>,
    pub badges: Seq<BadgeData>,
}

pub struct AchievementBadges {
    admin: Option<Address>,
    badges: Vec<BadgeData>,
}

impl View for AchievementBadges {
    type V = BadgeBook;

    closed spec fn view(&self) -> BadgeBook {
        BadgeBook { admin: self.admin, badges: self.badges@ }
    }
}

impl AchievementBadges {
    /// Each badge's id is its position in the log.
    pub closed spec fn wf(&self) -> bool {
        forall|i: int| 0 <= i < self.badges@.len() ==> #[trigger] self.badges@[i].badge_id == i
    }

    /// An empty log without an admin.
    pub fn new() -> (r: AchievementBadges)
        ensures
            r.wf(),
            r@.admin is None,
            r@.badges.len() == 0,
    {
        AchievementBadges { admin: None, badges: Vec::new() }
    }

    /// Sets the admin, once.
    pub fn initialize(&mut self, admin: Address) -> (r: Result<(), Error>)
        requires
            old(self).wf(),
        ensures
            final(self).wf(),
            final(self)@.badges == old(self)@.badges,
            old(self)@.admin is Some ==> r == Err::<(), Error>(Error::AlreadyInitialized) && final(self)@.admin == old(self)@.admin,
            old(self)@.admin is None ==> r == Ok::<(), Error>(()) && final(self)@.admin == Some(admin),
    {
        if self.admin.is_some() {
            return Err(Error::AlreadyInitialized);
        }
        self.admin = Some(admin);
        Ok(())
    }

    /// The admin issues a badge to `student`; returns its id, the number of
    /// badges issued before it. The badge names the admin who issued it and
    /// carries the ledger timestamp.
    pub fn issue_badge(
        &mut self,
        env: &Env,
        student: Address,
        activity_id: u64,
        activity_title: String,
        image_uri: String,
        points_awarded: i128,
        description_hash: [u8; 32],
    ) -> (r: Result<u64, Error>)
        requires
            old(self).wf(),
        ensures
            final(self).wf(),
            final(self)@.admin == old(self)@.admin,
            old(self)@.admin is None ==> r == Err::<u64, Error>(Error::NotInitialized),
            old(self)@.admin matches Some(a) && !env.authorizes(a) ==> r == Err::<u64, Error>(Error::Unauthorized),
            old(self)@.admin matches Some(a) && env.authorizes(a) && old(self)@.badges.len() >= u64::MAX ==> r
                == Err::<u64, Error>(Error::Overflow),
            r is Err ==> final(self)@ == old(self)@,
            r is Ok <==> (old(self)@.admin matches Some(a) && env.authorizes(a) && old(self)@.badges.len() < u64::MAX),
            r matches Ok(id) ==> id == old(self)@.badges.len() && final(self)@.badges == old(self)@.badges.push(
                BadgeData {
                    badge_id: id,
                    student,
                    activity_id,
                    activity_title,
                    image_uri,
                    reviewer: old(self)@.admin->0,
                    points_awarded,
                    issued_at: env.timestamp,
                    description_hash,
                },
            ),
    {
        let admin = match self.admin {
            Some(a) => a,
            None => return Err(Error::NotInitialized),
        };
        if !env.authenticated_as(admin) {
            return Err(Error::Unauthorized);
        }
        let n = self.badges.len() as u64;
        if n == u64::MAX {
            return Err(Error::Overflow);
        }
        let badge = BadgeData {
            badge_id: n,
            student,
            activity_id,
            activity_title,
            image_uri,
            reviewer: admin,
            points_awarded,
            issued_at: env.timestamp,
            description_hash,
        };
        self.badges.push(badge);
        Ok(n)
    }

    pub fn get_badge(&self, badge_id: u64) -> (r: Result<BadgeData, Error>)
        ensures
            badge_id < self@.badges.len() ==> r == Ok::<BadgeData, Error>(self@.badges[badge_id as int]),
            badge_id >= self@.badges.len() ==> r == Err::<BadgeData, Error>(Error::BadgeNotFound),
    {
        if (badge_id as u128) < (self.badges.len() as u128) {
            Ok(self.badges[badge_id as usize].duplicate())
        } else {
            Err(Error::BadgeNotFound)
        }
    }

    /// The ids of the badges of `student`, in order of issue.
    pub fn get_student_badges(&self, student: Address) -> (r: Vec<u64>)
        ensures
            r@ == badge_ids_of(self@.badges, student),
    {
        let mut r: Vec<u64> = Vec::new();
        let mut i: usize = 0;
        while i < self.badges.len()
            invariant
                i <= self.badges@.len(),
                r@ == badge_ids_of(self.badges@.take(i as int), student),
            decreases self.badges@.len() - i,
        {
            assert(self.badges@.take(i + 1).drop_last() =~= self.badges@.take(i as int));
            if self.badges[i].student == student {
                r.push(self.badges[i].badge_id);
            }
            i = i + 1;
        }
        assert(self.badges@.take(i as int) =~= self.badges@);
        r
    }

    /// How many badges were issued.
    pub fn badge_count(&self) -> (r: u64)
        ensures
            r == self@.badges.len(),
    {
        self.badges.len() as u64
    }

    pub fn admin(&self) -> (r: Result<Address, Error>)
        ensures
            match self@.admin {
                Some(a) => r == Ok::<Address, Error>(a),
                None => r == Err::<Address, Error>(Error::NotInitialized),
            },
    {
        match self.admin {
            Some(a) => Ok(a),
            None => Err(Error::NotInitialized),
        }
    }
}

} // verus!
