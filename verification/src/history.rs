//! Message history: the bounds of a history query and the shaping of its rows.
use vstd::prelude::*;
use crate::messages::{HistoryMessage, HistoryMessageView, history_view};

verus! {

/// How many messages a history request returns when it names no limit.
pub const DEFAULT_HISTORY_LIMIT: u32 = 50;

/// The most messages a history request can return.
pub const MAX_HISTORY_LIMIT: u32 = 200;

/// One stored message as the store returns it, newest first.
#[derive(Debug, Clone, PartialEq, Eq)]
pub struct HistoryRow {
    pub msg_id: String,
    pub from_id: String,
    pub text: String,
    pub timestamp: i64,
}

/// Mathematical form of a [`HistoryRow`].
pub struct HistoryRowView {
    pub msg_id: Seq<char>,
    pub from_id: Seq<char>,
    pub text: Seq<char>,
    pub timestamp: i64,
}

impl View for HistoryRow {
    type V = HistoryRowView;

    open spec fn view(&self) -> HistoryRowView {
        HistoryRowView {
            msg_id: self.msg_id@,
            from_id: self.from_id@,
            text: self.text@,
            timestamp: self.timestamp,
        }
    }
}

/// The views of a sequence of rows, in order.
pub open spec fn rows_view(v: Seq<HistoryRow>) -> Seq<HistoryRowView> {
    v.map_values(|r: HistoryRow| r@)
}

/// The number of messages a history query asks for: the requested limit,
/// 50 when none is given, and never more than 200.
pub open spec fn spec_history_limit(limit: Option<u32>) -> i64 {
    let l: u32 = match limit {
        Some(l) => l,
        None => DEFAULT_HISTORY_LIMIT,
    };
    if l < MAX_HISTORY_LIMIT { l as i64 } else { MAX_HISTORY_LIMIT as i64 }
}

/// The exclusive upper bound on the timestamps of a history query, as the
/// store holds timestamps (signed 64-bit): the requested bound; no bound when
/// none is requested, or when the requested bound lies above every timestamp
/// the store can hold.
pub open spec fn spec_history_before(before: Option<u64>) -> Option<i64> {
    match before {
        Some(b) => if b <= i64::MAX as u64 { Some(b as i64) } else { None },
        None => None,
    }
}

/// A stored row as a history entry: the same fields, with the timestamp read
/// back as an unsigned integer (two's complement).
pub open spec fn row_message(r: HistoryRowView) -> HistoryMessageView {
    HistoryMessageView {
        msg_id: r.msg_id,
        from_id: r.from_id,
        text: r.text,
        timestamp: if r.timestamp >= 0 {
            r.timestamp as u64
        } else {
            (r.timestamp + 0x1_0000_0000_0000_0000int) as u64
        },
    }
}

/// The history sent to a client: the rows (newest first) turned into
/// messages, oldest first.
pub open spec fn spec_history_messages(rows: Seq<HistoryRowView>) -> Seq<HistoryMessageView> {
    Seq::new(rows.len(), |i: int| row_message(rows[rows.len() - 1 - i]))
}

/// The limit of a history query (see [`spec_history_limit`]).
pub fn history_limit(limit: Option<u32>) -> (r: i64)
    ensures
        r == spec_history_limit(limit),
        1 <= r <= 200 || (r == 0 && limit == Some(0u32)),
{
    let l = match limit {
        Some(l) => l,
        None => DEFAULT_HISTORY_LIMIT,
    };
    if l < MAX_HISTORY_LIMIT {
        l as i64
    } else {
        MAX_HISTORY_LIMIT as i64
    }
}

/// The timestamp bound of a history query (see [`spec_history_before`]).
pub fn history_before(before: Option<u64>) -> (r: Option<i64>)
    ensures
        r == spec_history_before(before),
        before is None ==> r is None,
{
    match before {
        Some(b) => if b <= i64::MAX as u64 {
            Some(b as i64)
        } else {
            None
        },
        None => None,
    }
}

/// Turns stored rows, newest first, into the history messages sent to a
/// client, oldest first.
pub fn history_from_rows(rows: Vec<HistoryRow>) -> (r: Vec<HistoryMessage>)
    ensures
        history_view(r@) == spec_history_messages(rows_view(rows@)),
{
    let ghost orig = rows_view(rows@);
    let ghost n = rows@.len();
    let mut rows = rows;
    let mut out: Vec<HistoryMessage> = Vec::new();
    while rows.len() > 0
        invariant
            n == orig.len(),
            rows@.len() + out@.len() == n,
            rows_view(rows@) == orig.take(rows@.len() as int),
            history_view(out@) == Seq::new(out@.len(), |i: int| row_message(orig[n - 1 - i])),
        decreases rows@.len(),
    {
        let ghost before_rows = rows@;
        let ghost before_out = out@;
        let row = rows.pop().unwrap();
        proof {
            assert(rows@ == before_rows.drop_last());
            assert(orig[rows@.len() as int] == row@) by {
                assert(rows_view(before_rows)[rows@.len() as int] == row@);
            }
            assert(rows_view(rows@) =~= orig.take(rows@.len() as int)) by {
                assert(orig.take(before_rows.len() as int).drop_last() =~= orig.take(rows@.len() as int));
                assert(rows_view(rows@) =~= rows_view(before_rows).drop_last());
            }
        }
        let ts = row.timestamp;
        let stamp: u64 = if ts >= 0 {
            ts as u64
        } else {
            let shifted: i64 = ts - i64::MIN;
            (shifted as u64) + (i64::MAX as u64) + 1
        };
        let msg = HistoryMessage {
            msg_id: row.msg_id,
            from_id: row.from_id,
            text: row.text,
            timestamp: stamp,
        };
        out.push(msg);
        proof {
            assert(msg@ == row_message(row@));
            assert(history_view(out@) =~= history_view(before_out).push(msg@));
            assert(history_view(out@) =~= Seq::new(out@.len(), |i: int| row_message(orig[n - 1 - i])));
        }
    }
    proof {
        assert(history_view(out@) =~= spec_history_messages(orig)) by {
            assert(out@.len() == n);
        }
    }
    out
}

} // verus!
