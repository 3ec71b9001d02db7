//! Spawn results for channels without an external API (CLI, HTTP API): the
//! text written to the outbox and the file it goes to.

use vstd::prelude::*;

use crate::text::{append_slice, append_str, from_chars, i64_decimal, int_decimal, to_chars};

verus! {

/// Delivery into `<home>/outbox` for the CLI and API channels.
pub struct OutboxChannelDelivery {
    /// The agent group's home directory.
    pub paths_home: String,
}

/// A job's label, or its id when it has none.
pub open spec fn label_or_id(label: Option<Seq<char>>, job_id: Seq<char>) -> Seq<char> {
    match label {
        Some(l) => l,
        None => job_id,
    }
}

/// The outbox note of a completed spawn.
pub open spec fn completion_note(label: Option<Seq<char>>, job_id: Seq<char>, summary: Seq<char>) -> Seq<char> {
    "[Spawn `"@ + label_or_id(label, job_id) + "` completed]\n"@ + summary + "\n(task_id="@ + job_id + ")"@
}

/// The outbox note of a wake reply.
pub open spec fn wake_note(label: Option<Seq<char>>, job_id: Seq<char>, reply: Seq<char>) -> Seq<char> {
    "[Spawn wake `"@ + label_or_id(label, job_id) + "`]\n\n"@ + reply
}

/// The outbox file of a note written at `timestamp` (seconds).
pub open spec fn outbox_file(timestamp: i64) -> Seq<char> {
    "spawn_"@ + int_decimal(timestamp as int) + ".txt"@
}

fn push_label(out: &mut Vec<char>, label: Option<&str>, job_id: &str)
    ensures
        final(out)@ == old(out)@ + label_or_id(
            match label {
                Some(l) => Some(l@),
                None => None,
            },
            job_id@,
        ),
{
    match label {
        Some(l) => append_str(out, l),
        None => append_str(out, job_id),
    }
}

impl OutboxChannelDelivery {
    /// Delivery into the outbox under `paths_home`.
    pub fn new(paths_home: String) -> (r: Self)
        ensures
            r.paths_home@ == paths_home@,
    {
        OutboxChannelDelivery { paths_home }
    }

    /// The note written when a spawn completes.
    pub fn completion_text(&self, label: Option<&str>, job_id: &str, summary: &str) -> (r: String)
        ensures
            r@ == completion_note(
                match label {
                    Some(l) => Some(l@),
                    None => None,
                },
                job_id@,
                summary@,
            ),
    {
        let mut out = to_chars("[Spawn `");
        push_label(&mut out, label, job_id);
        append_str(&mut out, "` completed]\n");
        append_str(&mut out, summary);
        append_str(&mut out, "\n(task_id=");
        append_str(&mut out, job_id);
        append_str(&mut out, ")");
        from_chars(&out)
    }

    /// The note written for the parent's reply to a wake.
    pub fn wake_text(&self, label: Option<&str>, job_id: &str, reply: &str) -> (r: String)
        ensures
            r@ == wake_note(
                match label {
                    Some(l) => Some(l@),
                    None => None,
                },
                job_id@,
                reply@,
            ),
    {
        let mut out = to_chars("[Spawn wake `");
        push_label(&mut out, label, job_id);
        append_str(&mut out, "`]\n\n");
        append_str(&mut out, reply);
        from_chars(&out)
    }

    /// The name of the outbox file for a note written at `timestamp`.
    pub fn outbox_file_name(&self, timestamp: i64) -> (r: String)
        ensures
            r@ == outbox_file(timestamp),
    {
        let mut out = to_chars("spawn_");
        let d = i64_decimal(timestamp);
        append_slice(&mut out, &d);
        append_str(&mut out, ".txt");
        from_chars(&out)
    }
}

} // verus!
