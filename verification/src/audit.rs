//! Audit correlation and dashboard statistics over the credential store.

use vstd::prelude::*;
use crate::clock::{MAX_TIMESTAMP, now_unix, timestamp_text, timestamp_text_of};
use crate::error::AppError;
use crate::model::{AuditLog, Role, User};
use crate::store::{MemoryRepository, same_day};

verus! {

/// How many users were created on the day the given rendered timestamp
/// falls on.
pub open spec fn created_same_day_count(users: Seq<User>, day_text: Seq<char>) -> int {
    users.filter(|u: User| same_day(u.created_at@, day_text)).len() as int
}

/// Dashboard counters.
#[derive(Clone, Copy, Debug, PartialEq, Eq, Structural)]
pub struct Stats {
    pub total_users: i64,
    pub active_users: i64,
    pub admin_users: i64,
    pub new_users_today: i64,
}

/// Reads the audit trail and computes dashboard statistics.
pub struct AuditService {
    pub repository: MemoryRepository,
}

impl AuditService {
    /// Builds the service around a store.
    pub fn new(repository: MemoryRepository) -> (r: Self)
        ensures
            r.repository == repository,
    {
        AuditService { repository }
    }

    /// The audit records, newest first.
    pub fn get_audit_logs(&self) -> (r: Result<Vec<AuditLog>, AppError>)
        requires
            self.repository.wf(),
        ensures
            r is Ok,
            r matches Ok(logs) ==> logs@.len() == self.repository.audit_logs@.len() && (forall|
                i: int,
            |
                0 <= i < logs@.len() ==> logs@[i] == self.repository.audit_logs@[
                    self.repository.audit_logs@.len() - 1 - i
                ]),
    {
        Ok(self.repository.get_audit_logs())
    }

    /// Writes one audit record: who did what to whom.
    pub fn record(&mut self, actor_username: &str, action: &str, target: &str) -> (r: Result<
        (),
        AppError,
    >)
        requires
            old(self).repository.wf(),
        ensures
            final(self).repository.wf(),
            MemoryRepository::users_unchanged(old(self).repository, final(self).repository),
            MemoryRepository::refresh_unchanged(old(self).repository, final(self).repository),
            MemoryRepository::reset_unchanged(old(self).repository, final(self).repository),
            MemoryRepository::verification_unchanged(old(self).repository, final(self).repository),
            MemoryRepository::catalog_unchanged(old(self).repository, final(self).repository),
            r is Err ==> MemoryRepository::audit_unchanged(
                old(self).repository,
                final(self).repository,
            ),
            r matches Err(e) ==> e is Database,
            r is Ok ==> {
                &&& final(self).repository.audit_logs@.len() == old(self).repository.audit_logs@.len() + 1
                &&& (forall|i: int|
                    0 <= i < old(self).repository.audit_logs@.len() ==> final(self).repository.audit_logs@[i] == old(self).repository.audit_logs@[i])
                &&& ({
                    let entry = final(self).repository.audit_logs@.last();
                    &&& entry.admin_username@ == actor_username@
                    &&& entry.action@ == action@
                    &&& entry.target@ == target@
                })
            },
    {
        if self.repository.next_audit_log_id == i64::MAX {
            return Err(AppError::Database("audit id space exhausted".to_string()));
        }
        let now = now_unix();
        if now < 0 || now > MAX_TIMESTAMP {
            return Err(AppError::Database("invalid time".to_string()));
        }
        let now_text = timestamp_text_of(now);
        self.repository.create_audit_log(actor_username, action, target, now_text.as_str());
        Ok(())
    }

    /// Dashboard counters: all users, admins, and the users created today.
    pub fn get_stats(&self) -> (r: Result<Stats, AppError>)
        requires
            self.repository.wf(),
        ensures
            r matches Err(e) ==> e is Database,
            r matches Ok(stats) ==> {
                &&& stats.total_users == self.repository.users@.len()
                &&& stats.active_users == stats.total_users
                &&& stats.admin_users == self.repository.users@.filter(
                    |u: User| u.role == Role::Admin,
                ).len()
                &&& exists|t: int|
                    0 <= t && stats.new_users_today == created_same_day_count(
                        self.repository.users@,
                        #[trigger] timestamp_text(t),
                    )
            },
    {
        if self.repository.users.len() as u64 > i64::MAX as u64 {
            return Err(AppError::Database("user table too large".to_string()));
        }
        let now = now_unix();
        if now < 0 || now > MAX_TIMESTAMP {
            return Err(AppError::Database("invalid time".to_string()));
        }
        let today = timestamp_text_of(now);
        let (total, admins, new_today) = self.repository.get_stats(today.as_str());
        proof {
            assert(0 <= now as int && new_today == created_same_day_count(
                self.repository.users@,
                timestamp_text(now as int),
            ));
        }
        Ok(
            Stats {
                total_users: total,
                active_users: total,
                admin_users: admins,
                new_users_today: new_today,
            },
        )
    }
}

} // verus!
