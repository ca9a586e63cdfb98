//! The access surface: the operation set that request handlers call, and the
//! only place where store, rate limiter, and validation policy are composed.

use vstd::prelude::*;
use crate::database::{
    latest_id_spec, msg_views, read_spec, validate_spec, Database, GetMsgs, Msg, MsgV, ReceiveMsg,
    ValidationError, WallError,
};
use crate::limiter::{attempts_of, limited_spec, record_spec, RateLimiter};

verus! {

/// The store grew by exactly the message built from the submitted author and
/// content, under the next id.
pub open spec fn append_shape(
    prev: Seq<MsgV>,
    cur: Seq<MsgV>,
    author: Seq<char>,
    content: Seq<char>,
) -> bool {
    &&& cur.len() == prev.len() + 1
    &&& cur.drop_last() == prev
    &&& cur.last().id as int == prev.len() + 1
    &&& cur.last().author == author
    &&& cur.last().content == content
}

/// Interprets a read request's cursor pair: exactly one of the two cursors
/// must be supplied; both or neither is a caller contract violation.
pub fn resolve_cursor(before: Option<usize>, after: Option<usize>) -> (r: Result<
    GetMsgs,
    WallError,
>)
    ensures
        match (before, after) {
            (Some(_), Some(_)) => r == Err::<GetMsgs, WallError>(WallError::BadRequest),
            (None, None) => r == Err::<GetMsgs, WallError>(WallError::BadRequest),
            (Some(b), None) => r == Ok::<GetMsgs, WallError>(GetMsgs::Before(b)),
            (None, Some(a)) => r == Ok::<GetMsgs, WallError>(GetMsgs::After(a)),
        },
{
    match (before, after) {
        (Some(_), Some(_)) => Err(WallError::BadRequest),
        (None, None) => Err(WallError::BadRequest),
        (Some(b), None) => Ok(GetMsgs::Before(b)),
        (None, Some(a)) => Ok(GetMsgs::After(a)),
    }
}

/// Store and limiter behind one operation set.
pub struct Wall<T: Database> {
    db: T,
    limiter: RateLimiter,
}

impl<T: Database> Wall<T> {
    /// Abstraction invariant: both components keep theirs.
    pub closed spec fn inv(&self) -> bool {
        self.db.inv() && self.limiter.inv()
    }

    /// The stored messages, in insertion order.
    pub closed spec fn msgs(&self) -> Seq<MsgV> {
        self.db.msgs()
    }

    /// The limiter's per-identity records.
    pub closed spec fn entries(&self) -> Seq<(Seq<char>, Seq<u64>)> {
        self.limiter.entries()
    }

    /// The limiter's budget per window.
    pub closed spec fn max_requests_spec(&self) -> usize {
        self.limiter.max_requests_spec()
    }

    /// The limiter's trailing window, in seconds.
    pub closed spec fn window_spec(&self) -> u64 {
        self.limiter.window_spec()
    }

    /// Composes a store and a limiter.
    pub fn new(db: T, limiter: RateLimiter) -> (r: Self)
        requires
            db.inv(),
            limiter.inv(),
        ensures
            r.inv(),
            r.msgs() == db.msgs(),
            r.entries() == limiter.entries(),
            r.max_requests_spec() == limiter.max_requests_spec(),
            r.window_spec() == limiter.window_spec(),
    {
        Wall { db, limiter }
    }

    /// The write path: rate limiter, then validation, then the store's
    /// validated append; returns the stored message's id. The limiter step
    /// happens at some clock reading `now`, and the attempt counts against
    /// the identity's budget whether or not validation then passes.
    pub fn submit(&mut self, identity: &str, msg: ReceiveMsg) -> (r: Result<u32, WallError>)
        requires
            old(self).inv(),
        ensures
            final(self).inv(),
            final(self).max_requests_spec() == old(self).max_requests_spec(),
            final(self).window_spec() == old(self).window_spec(),
            forall|other: Seq<char>|
                other != identity@ ==> attempts_of(final(self).entries(), other) == attempts_of(
                    old(self).entries(),
                    other,
                ),
            exists|now: u64|
                {
                    let was_limited = limited_spec(
                        attempts_of(old(self).entries(), identity@),
                        now,
                        old(self).max_requests_spec(),
                        old(self).window_spec(),
                    );
                    &&& attempts_of(final(self).entries(), identity@) == #[trigger] record_spec(
                        attempts_of(old(self).entries(), identity@),
                        now,
                        old(self).max_requests_spec(),
                        old(self).window_spec(),
                    )
                    &&& (was_limited ==> r == Err::<u32, WallError>(WallError::RateLimited)
                        && final(self).msgs() == old(self).msgs())
                    &&& (!was_limited ==> match r {
                        Ok(id) => {
                            &&& validate_spec(msg.author@, msg.content@) is Ok
                            &&& append_shape(
                                old(self).msgs(),
                                final(self).msgs(),
                                msg.author@,
                                msg.content@,
                            )
                            &&& id as int == old(self).msgs().len() + 1
                        },
                        Err(e) => final(self).msgs() == old(self).msgs() && match e {
                            WallError::Validation(ve) => validate_spec(msg.author@, msg.content@)
                                == Err::<(), ValidationError>(ve),
                            WallError::Storage => validate_spec(msg.author@, msg.content@) is Ok,
                            _ => false,
                        },
                    })
                },
    {
        let now = crate::clock::now_unix_secs();
        let limited = self.limiter.check_at(identity, now);
        proof {
            assert(limited == limited_spec(
                attempts_of(old(self).entries(), identity@),
                now,
                old(self).max_requests_spec(),
                old(self).window_spec(),
            ));
            assert(attempts_of(self.entries(), identity@) == record_spec(
                attempts_of(old(self).entries(), identity@),
                now,
                old(self).max_requests_spec(),
                old(self).window_spec(),
            ));
        }
        if limited {
            return Err(WallError::RateLimited);
        }
        match msg.check_valid() {
            Err(ve) => Err(WallError::Validation(ve)),
            Ok(()) => match self.db.send_msg(msg) {
                Ok(m) => {
                    proof {
                        assert(final(self).msgs().drop_last() =~= old(self).msgs());
                    }
                    Ok(m.id)
                },
                Err(e) => Err(e),
            },
        }
    }

    /// Messages newer than the cursor (`after_id` of 0: the latest page),
    /// newest first, at most `limit` of them.
    pub fn list_newer(&self, after_id: usize, limit: u32) -> (r: Result<Vec<Msg>, WallError>)
        requires
            self.inv(),
        ensures
            match r {
                Ok(v) => msg_views(v@) == read_spec(self.msgs(), GetMsgs::After(after_id), limit),
                Err(e) => e is Storage,
            },
    {
        self.db.get_msgs(GetMsgs::After(after_id), limit)
    }

    /// Messages older than the cursor, newest first, at most `limit` of them.
    pub fn list_older(&self, before_id: usize, limit: u32) -> (r: Result<Vec<Msg>, WallError>)
        requires
            self.inv(),
        ensures
            match r {
                Ok(v) => msg_views(v@) == read_spec(self.msgs(), GetMsgs::Before(before_id), limit),
                Err(e) => e is Storage,
            },
    {
        self.db.get_msgs(GetMsgs::Before(before_id), limit)
    }

    /// A read request as handlers receive it: exactly one of the two cursors
    /// must be supplied; both or neither is a caller contract violation,
    /// rejected before the store is consulted.
    pub fn list(&self, before: Option<usize>, after: Option<usize>, limit: u32) -> (r: Result<
        Vec<Msg>,
        WallError,
    >)
        requires
            self.inv(),
        ensures
            match (before, after) {
                (Some(_), Some(_)) => r == Err::<Vec<Msg>, WallError>(WallError::BadRequest),
                (None, None) => r == Err::<Vec<Msg>, WallError>(WallError::BadRequest),
                (Some(b), None) => match r {
                    Ok(v) => msg_views(v@) == read_spec(self.msgs(), GetMsgs::Before(b), limit),
                    Err(e) => e is Storage,
                },
                (None, Some(a)) => match r {
                    Ok(v) => msg_views(v@) == read_spec(self.msgs(), GetMsgs::After(a), limit),
                    Err(e) => e is Storage,
                },
            },
    {
        match resolve_cursor(before, after) {
            Err(e) => Err(e),
            Ok(GetMsgs::Before(b)) => self.list_older(b, limit),
            Ok(GetMsgs::After(a)) => self.list_newer(a, limit),
        }
    }

    /// The highest assigned id, 0 while the store is empty: lets callers poll
    /// for news without transferring message bodies.
    pub fn peek_latest_id(&self) -> (r: Result<u32, WallError>)
        requires
            self.inv(),
        ensures
            match r {
                Ok(v) => v as int == latest_id_spec(self.msgs()),
                Err(e) => e is Storage,
            },
    {
        self.db.last_msg()
    }
}

} // verus!
