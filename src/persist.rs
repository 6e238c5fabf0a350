//! The persistence worker's decisions: which tick-store commands store the
//! deltas received from the pub/sub channels, and what a period's flush sends.
//! Received batches are queued as they arrive and sent when the period ends.

use vstd::prelude::*;

use crate::text::texts;
use crate::tectonic::{database_name, database_text, insert_into_command, insert_into_text};

verus! {

/// The commands that store one received batch of `(symbol, record)` pairs:
/// one insertion per delta, in order, into `{channel}_{symbol}`.
pub open spec fn batch_text(channel: Seq<char>, entries: Seq<(String, String)>) -> Seq<Seq<char>> {
    Seq::new(
        entries.len(),
        |i: int| insert_into_text(entries[i].1@, database_text(channel, entries[i].0@)),
    )
}

/// Writes the commands that store one received batch.
pub fn batch_commands(channel: &str, entries: &Vec<(String, String)>) -> (r: Vec<String>)
    ensures
        texts(r@) == batch_text(channel@, entries@),
{
    let mut r: Vec<String> = Vec::new();
    let mut i: usize = 0;
    while i < entries.len()
        invariant
            i <= entries@.len(),
            r@.len() == i,
            forall|j: int| 0 <= j < i ==> #[trigger] r@[j]@ == batch_text(channel@, entries@)[j],
        decreases entries@.len() - i,
    {
        let (symbol, record) = &entries[i];
        let db = database_name(channel, symbol.as_str());
        let c = insert_into_command(record.as_str(), db.as_str());
        let ghost before = r@;
        r.push(c);
        proof {
            assert forall|j: int| 0 <= j < i + 1 implies #[trigger] r@[j]@ == batch_text(
                channel@,
                entries@,
            )[j] by {
                if j < i {
                    assert(r@[j] == before[j]);
                }
            }
        }
        i += 1;
    }
    proof {
        assert(texts(r@) =~= batch_text(channel@, entries@));
    }
    r
}

/// Commands waiting for the end of the period.
pub struct Persister {
    /// Insertions received since the last flush, in order of arrival
    pub pending: Vec<String>,
}

impl Persister {
    /// A worker with nothing pending.
    pub fn new() -> (r: Persister)
        ensures
            r.pending@.len() == 0,
    {
        Persister { pending: Vec::new() }
    }

    /// Queues the insertions of a batch received on `channel`.
    pub fn on_batch(&mut self, channel: &str, entries: &Vec<(String, String)>)
        ensures
            texts(final(self).pending@) == texts(old(self).pending@) + batch_text(channel@, entries@),
    {
        let mut cmds = batch_commands(channel, entries);
        let ghost before = self.pending@;
        let ghost added = cmds@;
        self.pending.append(&mut cmds);
        proof {
            assert(self.pending@ == before + added);
            assert(texts(before + added) =~= texts(before) + texts(added));
        }
    }

    /// Ends a period: hands out every queued insertion, in order, followed by
    /// `FLUSH ALL`, and starts the next period with nothing pending.
    pub fn on_period(&mut self) -> (r: Vec<String>)
        ensures
            texts(r@) == texts(old(self).pending@).push("FLUSH ALL"@),
            final(self).pending@.len() == 0,
    {
        let mut r: Vec<String> = Vec::new();
        std::mem::swap(&mut r, &mut self.pending);
        let ghost before = r@;
        r.push(String::from_str("FLUSH ALL"));
        proof {
            assert(texts(r@) =~= texts(before).push("FLUSH ALL"@));
        }
        r
    }
}

/// Fan-in completeness: after a batch is queued on top of `pending` and the
/// period ends, the commands sent hold the insertion of the batch's `i`-th
/// delta into `{channel}_{symbol}` at its own position, after everything
/// queued before it, and end with `FLUSH ALL`.
pub proof fn lemma_fan_in(
    pending: Seq<Seq<char>>,
    channel: Seq<char>,
    entries: Seq<(String, String)>,
    i: int,
)
    requires
        0 <= i < entries.len(),
    ensures
        ({
            let sent = (pending + batch_text(channel, entries)).push("FLUSH ALL"@);
            &&& sent.len() == pending.len() + entries.len() + 1
            &&& sent[pending.len() + i] == insert_into_text(
                entries[i].1@,
                database_text(channel, entries[i].0@),
            )
            &&& sent.last() == "FLUSH ALL"@
        }),
{
}

/// Name of the archive made at `time`: `{time}.tar.xz`.
pub fn archive_name(time: &str) -> (r: String)
    ensures
        r@ == time@ + ".tar.xz"@,
{
    let mut r = String::from_str(time);
    r.append(".tar.xz");
    r
}

} // verus!
