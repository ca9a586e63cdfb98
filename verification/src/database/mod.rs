//! Message records, the validation policy, and the storage contract.

pub mod mock;

use vstd::prelude::*;
use vstd::string::StrSliceExecFns;

verus! {

/// Longest accepted author name, counted in Unicode scalar values.
pub const MAX_AUTHOR_LEN: usize = 20;

/// Longest accepted message content, counted in Unicode scalar values.
pub const MAX_CONTENT_LEN: usize = 250;

/// Why an inbound message was rejected by the validation policy.
#[derive(Debug, Clone, Copy, PartialEq, Eq, Structural)]
pub enum ValidationError {
    /// Author or content is empty.
    EmptyField,
    /// Author is longer than `MAX_AUTHOR_LEN` scalar values.
    AuthorTooLong,
    /// Content is longer than `MAX_CONTENT_LEN` scalar values.
    ContentTooLong,
}

/// Everything that can go wrong in the core's operations.
#[derive(Debug, Clone, Copy, PartialEq, Eq, Structural)]
pub enum WallError {
    /// The message violates the validation policy.
    Validation(ValidationError),
    /// The identity exceeded its write budget within the window.
    RateLimited,
    /// Backing-store failure, or the id space is exhausted.
    Storage,
    /// Malformed cursor combination in a read request.
    BadRequest,
}

/// The validation policy: rules applied in order, first failure wins.
pub open spec fn validate_spec(author: Seq<char>, content: Seq<char>) -> Result<
    (),
    ValidationError,
> {
    if author.len() == 0 || content.len() == 0 {
        Err(ValidationError::EmptyField)
    } else if author.len() > MAX_AUTHOR_LEN {
        Err(ValidationError::AuthorTooLong)
    } else if content.len() > MAX_CONTENT_LEN {
        Err(ValidationError::ContentTooLong)
    } else {
        Ok(())
    }
}

/// A message as submitted by a client, before it is stored.
pub struct ReceiveMsg {
    pub author: String,
    pub content: String,
}

impl ReceiveMsg {
    /// Checks the author and content against the validation policy.
    pub fn check_valid(&self) -> (r: Result<(), ValidationError>)
        ensures
            r == validate_spec(self.author@, self.content@),
    {
        let author_len = self.author.as_str().unicode_len();
        let content_len = self.content.as_str().unicode_len();
        if author_len == 0 || content_len == 0 {
            Err(ValidationError::EmptyField)
        } else if author_len > MAX_AUTHOR_LEN {
            Err(ValidationError::AuthorTooLong)
        } else if content_len > MAX_CONTENT_LEN {
            Err(ValidationError::ContentTooLong)
        } else {
            Ok(())
        }
    }
}

/// A stored message, immutable once created.
#[derive(Debug)]
pub struct Msg {
    pub id: u32,
    pub author: String,
    pub content: String,
    pub timestamp: u64,
}

/// Mathematical model of a stored message.
pub struct MsgV {
    pub id: u32,
    pub author: Seq<char>,
    pub content: Seq<char>,
    pub timestamp: u64,
}

impl View for Msg {
    type V = MsgV;

    open spec fn view(&self) -> MsgV {
        MsgV {
            id: self.id,
            author: self.author@,
            content: self.content@,
            timestamp: self.timestamp,
        }
    }
}

impl Clone for Msg {
    fn clone(&self) -> (r: Self)
        ensures
            r@ == self@,
    {
        Msg {
            id: self.id,
            author: self.author.clone(),
            content: self.content.clone(),
            timestamp: self.timestamp,
        }
    }
}

/// The models of a sequence of stored messages.
pub open spec fn msg_views(s: Seq<Msg>) -> Seq<MsgV> {
    s.map_values(|m: Msg| m@)
}

/// Cursor for a paginated read: `Before(id)` pages into history, `After(id)`
/// asks for newer messages, and `After(0)` means "the most recent page".
#[derive(Debug, Clone, Copy)]
pub enum GetMsgs {
    Before(usize),
    After(usize),
}

/// The store's contents are well formed when ids start at 1 and increase by 1
/// in insertion order.
pub open spec fn store_wf(s: Seq<MsgV>) -> bool {
    forall|i: int| 0 <= i < s.len() ==> (#[trigger] s[i].id) as int == i + 1
}

/// Highest assigned id; 0 for an empty store.
pub open spec fn latest_id_spec(s: Seq<MsgV>) -> int {
    if s.len() == 0 {
        0
    } else {
        s.last().id as int
    }
}

/// Does a message qualify under the cursor?
pub open spec fn matches_cursor(count: GetMsgs, m: MsgV) -> bool {
    match count {
        GetMsgs::After(a) => (m.id as int) > (a as int),
        GetMsgs::Before(b) => (m.id as int) < (b as int),
    }
}

/// What a paginated read returns: up to `limit` qualifying messages, in
/// descending id order (newest first).
pub open spec fn read_spec(s: Seq<MsgV>, count: GetMsgs, limit: u32) -> Seq<MsgV> {
    let q = s.reverse().filter(|m: MsgV| matches_cursor(count, m));
    q.take(
        if (limit as int) <= q.len() {
            limit as int
        } else {
            q.len() as int
        },
    )
}

/// A filter whose predicate holds exactly on one contiguous index range picks
/// out exactly that subrange.
pub(crate) proof fn lemma_filter_contiguous<A>(s: Seq<A>, pred: spec_fn(A) -> bool, lo: int, hi: int)
    requires
        0 <= lo <= hi <= s.len(),
        forall|i: int| 0 <= i < s.len() ==> (pred(#[trigger] s[i]) <==> lo <= i < hi),
    ensures
        s.filter(pred) =~= s.subrange(lo, hi),
    decreases s.len(),
{
    reveal(Seq::filter);
    if s.len() == 0 {
    } else {
        let prefix = s.drop_last();
        if pred(s.last()) {
            lemma_filter_contiguous(prefix, pred, lo, hi - 1);
            assert(s.filter(pred) =~= s.subrange(lo, hi));
        } else {
            if lo == hi {
                lemma_filter_contiguous(
                    prefix,
                    pred,
                    if lo < s.len() {
                        lo
                    } else {
                        s.len() - 1
                    },
                    if lo < s.len() {
                        lo
                    } else {
                        s.len() - 1
                    },
                );
            } else {
                lemma_filter_contiguous(prefix, pred, lo, hi);
            }
            assert(s.filter(pred) =~= s.subrange(lo, hi));
        }
    }
}

/// Successful appends assign consecutive ids: a message appended to a
/// well-formed store carries an id one greater than the previous latest id,
/// that id becomes the store's latest, and the store stays well formed. So
/// over any run of successful appends the returned ids increase by exactly 1
/// and always equal the latest id right after the append.
pub proof fn lemma_append_ids(s: Seq<MsgV>, m: MsgV)
    requires
        store_wf(s),
        m.id as int == s.len() + 1,
    ensures
        store_wf(s.push(m)),
        latest_id_spec(s.push(m)) == m.id as int,
        latest_id_spec(s.push(m)) == latest_id_spec(s) + 1,
{
    let p = s.push(m);
    assert forall|i: int| 0 <= i < p.len() implies (#[trigger] p[i].id) as int == i + 1 by {
        if i < s.len() {
            assert(p[i] == s[i]);
        }
    }
    if s.len() > 0 {
        assert(s.last() == s[s.len() - 1]);
    }
}

/// With no cursor held (`after_id` of 0), a read returns the `limit` most
/// recent messages of a well-formed store (all of them when it holds fewer),
/// in descending id order.
pub proof fn lemma_latest_page(s: Seq<MsgV>, limit: u32)
    requires
        store_wf(s),
    ensures
        read_spec(s, GetMsgs::After(0), limit) == s.reverse().take(
            if (limit as int) <= s.len() {
                limit as int
            } else {
                s.len() as int
            },
        ),
        read_spec(s, GetMsgs::After(0), limit).len() == if (limit as int) <= s.len() {
            limit as int
        } else {
            s.len() as int
        },
        forall|k: int|
            0 <= k < read_spec(s, GetMsgs::After(0), limit).len() ==> (#[trigger] read_spec(
                s,
                GetMsgs::After(0),
                limit,
            )[k]) == s[s.len() - 1 - k] && read_spec(s, GetMsgs::After(0), limit)[k].id as int
                == s.len() - k,
{
    let pred = |m: MsgV| matches_cursor(GetMsgs::After(0), m);
    assert forall|k: int| 0 <= k < s.reverse().len() implies (pred(#[trigger] s.reverse()[k])
        <==> 0 <= k < s.len()) by {
        assert(s.reverse()[k] == s[s.len() - 1 - k]);
        assert(s[s.len() - 1 - k].id as int == s.len() - k);
    }
    lemma_filter_contiguous(s.reverse(), pred, 0, s.len() as int);
    assert(s.reverse().subrange(0, s.len() as int) =~= s.reverse());
    assert forall|k: int| 0 <= k < read_spec(s, GetMsgs::After(0), limit).len() implies (
    #[trigger] read_spec(s, GetMsgs::After(0), limit)[k]) == s[s.len() - 1 - k] && read_spec(
        s,
        GetMsgs::After(0),
        limit,
    )[k].id as int == s.len() - k by {
        assert(read_spec(s, GetMsgs::After(0), limit)[k] == s.reverse()[k]);
        assert(s.reverse()[k] == s[s.len() - 1 - k]);
        assert(s[s.len() - 1 - k].id as int == s.len() - k);
    }
}

/// A newer-than read never returns a message with an id at or below the
/// cursor, whatever the store holds.
pub proof fn lemma_newer_bound(s: Seq<MsgV>, after_id: usize, limit: u32)
    ensures
        forall|k: int|
            0 <= k < read_spec(s, GetMsgs::After(after_id), limit).len() ==> (#[trigger] read_spec(
                s,
                GetMsgs::After(after_id),
                limit,
            )[k].id) as int > after_id as int,
{
    let pred = |m: MsgV| matches_cursor(GetMsgs::After(after_id), m);
    let q = s.reverse().filter(pred);
    assert forall|k: int|
        0 <= k < read_spec(s, GetMsgs::After(after_id), limit).len() implies (#[trigger] read_spec(
        s,
        GetMsgs::After(after_id),
        limit,
    )[k].id) as int > after_id as int by {
        s.reverse().lemma_filter_pred(pred, k);
        assert(read_spec(s, GetMsgs::After(after_id), limit)[k] == q[k]);
    }
}

/// An older-than read never returns a message with an id at or above the
/// cursor, whatever the store holds.
pub proof fn lemma_older_bound(s: Seq<MsgV>, before_id: usize, limit: u32)
    ensures
        forall|k: int|
            0 <= k < read_spec(s, GetMsgs::Before(before_id), limit).len() ==> ((
            #[trigger] read_spec(s, GetMsgs::Before(before_id), limit)[k].id) as int) < (before_id
                as int),
{
    let pred = |m: MsgV| matches_cursor(GetMsgs::Before(before_id), m);
    let q = s.reverse().filter(pred);
    assert forall|k: int|
        0 <= k < read_spec(s, GetMsgs::Before(before_id), limit).len() implies ((
    #[trigger] read_spec(s, GetMsgs::Before(before_id), limit)[k].id) as int) < (before_id
        as int) by {
        s.reverse().lemma_filter_pred(pred, k);
        assert(read_spec(s, GetMsgs::Before(before_id), limit)[k] == q[k]);
    }
}

/// Reads are idempotent: what a read returns is a function of the store's
/// contents and the arguments alone, so two reads with identical arguments
/// and no intervening write return identical results.
pub proof fn lemma_read_idempotent(
    s: Seq<MsgV>,
    count: GetMsgs,
    limit: u32,
    r1: Seq<MsgV>,
    r2: Seq<MsgV>,
)
    requires
        r1 == read_spec(s, count, limit),
        r2 == read_spec(s, count, limit),
    ensures
        r1 == r2,
{
}

/// The storage contract. Both storage variants answer to it: the in-memory
/// one implements it in this crate; a durable one lives with the I/O code
/// outside and must honor the same observable semantics.
pub trait Database: Sized {
    /// Abstraction invariant of the implementation.
    spec fn inv(&self) -> bool;

    /// The stored messages, in insertion order.
    spec fn msgs(&self) -> Seq<MsgV>;

    /// Paginated read, newest first. A backing-store failure is the only
    /// admissible error; an empty page is a result, not an error.
    fn get_msgs(&self, count: GetMsgs, limit: u32) -> (r: Result<Vec<Msg>, WallError>)
        requires
            self.inv(),
        ensures
            match r {
                Ok(v) => msg_views(v@) == read_spec(self.msgs(), count, limit),
                Err(e) => e is Storage,
            },
    ;

    /// Validated append: re-checks the validation policy (last line of
    /// defense), assigns the next id, and captures a timestamp. Either the
    /// message is fully appended or the store is unchanged.
    fn send_msg(&mut self, msg: ReceiveMsg) -> (r: Result<Msg, WallError>)
        requires
            old(self).inv(),
        ensures
            final(self).inv(),
            match r {
                Ok(m) => {
                    &&& validate_spec(msg.author@, msg.content@) is Ok
                    &&& final(self).msgs() == old(self).msgs().push(m@)
                    &&& m@.id as int == old(self).msgs().len() + 1
                    &&& m@.author == msg.author@
                    &&& m@.content == msg.content@
                },
                Err(e) => {
                    &&& final(self).msgs() == old(self).msgs()
                    &&& match e {
                        WallError::Validation(ve) => validate_spec(msg.author@, msg.content@)
                            == Err::<(), ValidationError>(ve),
                        WallError::Storage => validate_spec(msg.author@, msg.content@) is Ok,
                        _ => false,
                    }
                },
            },
    ;

    /// Highest assigned id, 0 when the store is empty.
    fn last_msg(&self) -> (r: Result<u32, WallError>)
        requires
            self.inv(),
        ensures
            match r {
                Ok(v) => v as int == latest_id_spec(self.msgs()),
                Err(e) => e is Storage,
            },
    ;
}

} // verus!
