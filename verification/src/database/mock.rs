//! The in-memory message store.

use vstd::prelude::*;
use crate::database::{Database, GetMsgs, Msg, MsgV, ReceiveMsg, WallError};
use crate::database::{lemma_filter_contiguous, matches_cursor, msg_views, read_spec, store_wf};

verus! {

/// Process-local, non-durable message store.
pub struct MockBase {
    base: Vec<Msg>,
}

/// When this store owes a successful append: the message is valid and the id
/// space has room.
pub open spec fn append_owed(s: Seq<MsgV>, author: Seq<char>, content: Seq<char>) -> bool {
    crate::database::validate_spec(author, content) is Ok && s.len() < u32::MAX as int
}

impl MockBase {
    /// Creates an empty store.
    pub fn new() -> (r: Self)
        ensures
            r.inv(),
            r.msgs() == Seq::<MsgV>::empty(),
    {
        let r = MockBase { base: Vec::new() };
        proof {
            assert(r.msgs() =~= Seq::<MsgV>::empty());
        }
        r
    }
}

impl Database for MockBase {
    closed spec fn inv(&self) -> bool {
        store_wf(self.msgs())
    }

    closed spec fn msgs(&self) -> Seq<MsgV> {
        msg_views(self.base@)
    }

    fn get_msgs(&self, count: GetMsgs, limit: u32) -> (r: Result<Vec<Msg>, WallError>)
        ensures
            r is Ok,
    {
        let ghost s = self.msgs();
        let ghost pred = |m: MsgV| matches_cursor(count, m);
        let len = self.base.len();
        // Qualifying messages sit exactly at indices lo..hi of the store.
        let (lo, hi): (usize, usize) = match count {
            GetMsgs::After(a) => ((if a < len { a } else { len }), len),
            GetMsgs::Before(b) => (
                0,
                (if b == 0 {
                    0
                } else if b - 1 < len {
                    b - 1
                } else {
                    len
                }),
            ),
        };
        proof {
            assert forall|i: int| 0 <= i < s.len() implies (pred(#[trigger] s[i]) <==> lo <= i
                < hi) by {
                assert(s[i].id as int == i + 1);
            }
            assert forall|k: int| 0 <= k < s.len() implies (pred(
                #[trigger] s.reverse()[k],
            ) <==> s.len() - hi <= k < s.len() - lo) by {
                assert(s.reverse()[k] == s[s.len() - 1 - k]);
            }
            lemma_filter_contiguous(
                s.reverse(),
                pred,
                s.len() - hi,
                s.len() - lo,
            );
        }
        let avail = hi - lo;
        let want: usize = if (limit as usize) < avail {
            limit as usize
        } else {
            avail
        };
        let mut out: Vec<Msg> = Vec::new();
        let mut j: usize = 0;
        while j < want
            invariant
                lo <= hi <= self.base.len(),
                j <= want,
                want <= hi - lo,
                s == self.msgs(),
                msg_views(out@) =~= s.reverse().subrange(s.len() - hi, s.len() - hi + j),
            decreases want - j,
        {
            let m = self.base[hi - 1 - j].clone();
            let ghost prev = out@;
            out.push(m);
            proof {
                let a = s.len() - hi;
                assert(out@ == prev.push(m));
                assert(msg_views(prev).len() == prev.len());
                assert(s.reverse()[a + j] == s[hi - 1 - j]);
                assert(s[hi - 1 - j] == msg_views(self.base@)[hi - 1 - j]);
                assert(m@ == s.reverse()[a + j]);
                assert forall|k: int| 0 <= k < j + 1 implies msg_views(out@)[k] == s.reverse()
                    .subrange(a, a + j + 1)[k] by {
                    if k < j {
                        assert(out@[k] == prev[k]);
                        assert(msg_views(prev)[k] == prev[k]@);
                    } else {
                        assert(out@[k] == m);
                    }
                }
                assert(msg_views(out@) =~= s.reverse().subrange(a, a + j + 1));
            }
            j += 1;
        }
        proof {
            let q = s.reverse().filter(pred);
            assert(q.len() == hi - lo);
            assert(msg_views(out@) =~= read_spec(s, count, limit));
        }
        Ok(out)
    }

    fn send_msg(&mut self, msg: ReceiveMsg) -> (r: Result<Msg, WallError>)
        ensures
            append_owed(old(self).msgs(), msg.author@, msg.content@) ==> r is Ok,
    {
        match msg.check_valid() {
            Err(ve) => Err(WallError::Validation(ve)),
            Ok(()) => {
                if self.base.len() >= (u32::MAX as usize) {
                    return Err(WallError::Storage);
                }
                let id = (self.base.len() as u32) + 1;
                let m = Msg {
                    id,
                    author: msg.author,
                    content: msg.content,
                    timestamp: crate::clock::now_unix_secs(),
                };
                let ret = m.clone();
                let ghost olds = self.msgs();
                self.base.push(m);
                proof {
                    assert(self.msgs() =~= olds.push(ret@));
                }
                Ok(ret)
            },
        }
    }

    fn last_msg(&self) -> (r: Result<u32, WallError>)
        ensures
            r is Ok,
    {
        if self.base.len() == 0 {
            Ok(0)
        } else {
            let m = &self.base[self.base.len() - 1];
            Ok(m.id)
        }
    }
}

} // verus!
