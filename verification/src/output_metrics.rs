//! What a destination cost, counted apart from what the capture cost.
use vstd::prelude::*;
use vstd::string::*;

use crate::json::{
    insert_number, insert_object, insert_text, json_fields, json_text, new_object, no_fields,
    render, JsonField, JsonObject,
};
use crate::text::{decimal, decimal_text};

verus! {

/// How many recent samples are kept.
pub const SAMPLE_CAPACITY: usize = 1_024;

/// The spread of some durations, in nanoseconds.
#[derive(Clone, Copy, Debug, Eq, PartialEq, Structural)]
pub struct LatencySummary {
    pub count: usize,
    pub min_ns: u64,
    pub p50_ns: u64,
    pub p90_ns: u64,
    pub p95_ns: u64,
    pub p99_ns: u64,
    pub max_ns: u64,
    pub mean_ns: u64,
}

impl LatencySummary {
    /// The fields of the summary as a JSON object.
    pub open spec fn fields(self) -> Map<Seq<char>, JsonField> {
        no_fields().insert("count"@, JsonField::Number(self.count as int)).insert(
            "min"@,
            JsonField::Number(self.min_ns as int),
        ).insert("p50"@, JsonField::Number(self.p50_ns as int)).insert(
            "p90"@,
            JsonField::Number(self.p90_ns as int),
        ).insert("p95"@, JsonField::Number(self.p95_ns as int)).insert(
            "p99"@,
            JsonField::Number(self.p99_ns as int),
        ).insert("max"@, JsonField::Number(self.max_ns as int)).insert(
            "mean"@,
            JsonField::Number(self.mean_ns as int),
        )
    }

    /// The summary as a JSON object.
    fn to_object(&self) -> (object: JsonObject)
        ensures
            json_fields(object) == self.fields(),
    {
        let mut object = new_object();
        insert_number(&mut object, "count", self.count as u64);
        insert_number(&mut object, "min", self.min_ns);
        insert_number(&mut object, "p50", self.p50_ns);
        insert_number(&mut object, "p90", self.p90_ns);
        insert_number(&mut object, "p95", self.p95_ns);
        insert_number(&mut object, "p99", self.p99_ns);
        insert_number(&mut object, "max", self.max_ns);
        insert_number(&mut object, "mean", self.mean_ns);
        object
    }
}

/// A count that stops at the largest number there is.
pub open spec fn counted(count: int) -> u64 {
    if count > u64::MAX {
        u64::MAX
    } else {
        count as u64
    }
}

/// The most recent of some samples.
pub open spec fn recent(samples: Seq<u64>) -> Seq<u64> {
    if samples.len() > SAMPLE_CAPACITY {
        samples.skip(samples.len() - SAMPLE_CAPACITY)
    } else {
        samples
    }
}

/// Running totals for one destination.
#[derive(Debug)]
pub struct OutputMetrics {
    pub destination: &'static str,
    pub written: u64,
    pub failed: u64,
    /// Names that were already taken, all together.
    pub collisions: u64,
    pub bytes: u64,
    /// The most recent encoding times.
    pub encode_ns: Vec<u64>,
    /// The most recent writing times.
    pub write_ns: Vec<u64>,
}

impl OutputMetrics {
    /// Whether the samples are within their bound.
    pub open spec fn wf(self) -> bool {
        &&& self.encode_ns@.len() <= SAMPLE_CAPACITY
        &&& self.write_ns@.len() <= SAMPLE_CAPACITY
    }

    pub fn new(destination: &'static str) -> (metrics: Self)
        ensures
            metrics.wf(),
            metrics.destination@ == destination@,
            metrics.written == 0,
            metrics.failed == 0,
            metrics.collisions == 0,
            metrics.bytes == 0,
            metrics.encode_ns@ == Seq::<u64>::empty(),
            metrics.write_ns@ == Seq::<u64>::empty(),
    {
        OutputMetrics {
            destination,
            written: 0,
            failed: 0,
            collisions: 0,
            bytes: 0,
            encode_ns: Vec::new(),
            write_ns: Vec::new(),
        }
    }

    /// Counts a capture that was written.
    pub fn record_write(&mut self, bytes: usize, encode_ns: u64, write_ns: u64, collisions: u32)
        requires
            old(self).wf(),
        ensures
            final(self).wf(),
            final(self).destination@ == old(self).destination@,
            final(self).written == counted(old(self).written + 1),
            final(self).failed == old(self).failed,
            final(self).bytes == counted(old(self).bytes + bytes),
            final(self).collisions == counted(old(self).collisions + collisions),
            final(self).encode_ns@ == recent(old(self).encode_ns@.push(encode_ns)),
            final(self).write_ns@ == recent(old(self).write_ns@.push(write_ns)),
    {
        self.written = self.written.saturating_add(1);
        self.bytes = self.bytes.saturating_add(bytes as u64);
        self.collisions = self.collisions.saturating_add(collisions as u64);
        push_bounded(&mut self.encode_ns, encode_ns);
        push_bounded(&mut self.write_ns, write_ns);
    }

    /// Counts a capture that was not written.
    pub fn record_failure(&mut self)
        ensures
            final(self).failed == counted(old(self).failed + 1),
            final(self).destination@ == old(self).destination@,
            final(self).written == old(self).written,
            final(self).bytes == old(self).bytes,
            final(self).collisions == old(self).collisions,
            final(self).encode_ns@ == old(self).encode_ns@,
            final(self).write_ns@ == old(self).write_ns@,
    {
        self.failed = self.failed.saturating_add(1);
    }

    /// Whether this destination did nothing at all, and has nothing to report.
    pub fn is_empty(&self) -> (empty: bool)
        ensures
            empty == (self.written == 0 && self.failed == 0),
    {
        self.written == 0 && self.failed == 0
    }

    /// What this destination did, with the spread of its samples.
    pub fn summary(&self, encode: LatencySummary, write: LatencySummary) -> (summary: OutputSummary)
        ensures
            summary.destination@ == self.destination@,
            summary.written == self.written,
            summary.failed == self.failed,
            summary.collisions == self.collisions,
            summary.bytes == self.bytes,
            summary.encode == encode,
            summary.write == write,
    {
        OutputSummary {
            destination: self.destination,
            written: self.written,
            failed: self.failed,
            collisions: self.collisions,
            bytes: self.bytes,
            encode,
            write,
        }
    }
}

/// Adds a sample, and drops the oldest where there are too many.
fn push_bounded(samples: &mut Vec<u64>, value: u64)
    requires
        old(samples)@.len() <= SAMPLE_CAPACITY,
    ensures
        final(samples)@ == recent(old(samples)@.push(value)),
        final(samples)@.len() <= SAMPLE_CAPACITY,
{
    if samples.len() == SAMPLE_CAPACITY {
        let _ = samples.remove(0);
    }
    samples.push(value);
}

/// Samples added one by one, each time keeping the most recent.
pub open spec fn gathered(values: Seq<u64>) -> Seq<u64>
    decreases values.len(),
{
    if values.len() == 0 {
        Seq::empty()
    } else {
        recent(gathered(values.drop_last()).push(values.last()))
    }
}

/// However many samples came, the ones that are kept are the last ones, in the order they came in.
pub proof fn law_the_recent_past_is_kept(values: Seq<u64>)
    ensures
        gathered(values) == recent(values),
    decreases values.len(),
{
    if values.len() > 0 {
        law_the_recent_past_is_kept(values.drop_last());
    }
}

/// What a destination did, ready to be reported.
#[derive(Clone, Copy, Debug)]
pub struct OutputSummary {
    pub destination: &'static str,
    pub written: u64,
    pub failed: u64,
    pub collisions: u64,
    pub bytes: u64,
    pub encode: LatencySummary,
    pub write: LatencySummary,
}

/// The figures of a summary that are shown in other units, as text with one decimal.
#[derive(Debug)]
pub struct ShownFigures {
    pub mebibytes: String,
    pub encode_p50_ms: String,
    pub encode_p99_ms: String,
    pub write_p50_ms: String,
    pub write_p99_ms: String,
}

impl OutputSummary {
    /// The summary as one line for people.
    pub fn to_line(&self, shown: &ShownFigures) -> (line: String)
        ensures
            line@ == self.destination@ + " output: "@ + decimal(self.written as nat) + " written ("@
                + shown.mebibytes@ + " MiB), "@ + decimal(self.failed as nat) + " failed, "@
                + decimal(self.collisions as nat) + " name collision(s); encode p50 "@
                + shown.encode_p50_ms@ + " ms p99 "@ + shown.encode_p99_ms@ + " ms, write p50 "@
                + shown.write_p50_ms@ + " ms p99 "@ + shown.write_p99_ms@ + " ms"@,
    {
        let mut line = self.destination.to_owned();
        line.append(" output: ");
        line.append(decimal_text(self.written).as_str());
        line.append(" written (");
        line.append(shown.mebibytes.as_str());
        line.append(" MiB), ");
        line.append(decimal_text(self.failed).as_str());
        line.append(" failed, ");
        line.append(decimal_text(self.collisions).as_str());
        line.append(" name collision(s); encode p50 ");
        line.append(shown.encode_p50_ms.as_str());
        line.append(" ms p99 ");
        line.append(shown.encode_p99_ms.as_str());
        line.append(" ms, write p50 ");
        line.append(shown.write_p50_ms.as_str());
        line.append(" ms p99 ");
        line.append(shown.write_p99_ms.as_str());
        line.append(" ms");
        line
    }

    /// The summary as one line of JSON.
    pub fn to_json(&self) -> (text: String)
        ensures
            text@ == json_text(
                no_fields().insert("schema_version"@, JsonField::Number(1)).insert(
                    "event"@,
                    JsonField::Text("output_summary"@),
                ).insert("destination"@, JsonField::Text(self.destination@)).insert(
                    "written"@,
                    JsonField::Number(self.written as int),
                ).insert("failed"@, JsonField::Number(self.failed as int)).insert(
                    "collisions"@,
                    JsonField::Number(self.collisions as int),
                ).insert("bytes"@, JsonField::Number(self.bytes as int)).insert(
                    "encode_ns"@,
                    JsonField::Object(self.encode.fields()),
                ).insert("write_ns"@, JsonField::Object(self.write.fields())),
            ),
    {
        let mut object = new_object();
        insert_number(&mut object, "schema_version", 1);
        insert_text(&mut object, "event", "output_summary");
        insert_text(&mut object, "destination", self.destination);
        insert_number(&mut object, "written", self.written);
        insert_number(&mut object, "failed", self.failed);
        insert_number(&mut object, "collisions", self.collisions);
        insert_number(&mut object, "bytes", self.bytes);
        insert_object(&mut object, "encode_ns", self.encode.to_object());
        insert_object(&mut object, "write_ns", self.write.to_object());
        render(object)
    }
}

/// Of the samples the last 1024 are kept, and where there are no more of them, all.
pub proof fn law_the_last_samples_are_kept(samples: Seq<u64>, back: int)
    requires
        0 <= back,
    ensures
        recent(samples).len() == if samples.len() < 1_024 {
            samples.len()
        } else {
            1_024
        },
        back < recent(samples).len() ==> recent(samples)[recent(samples).len() - 1 - back]
            == samples[samples.len() - 1 - back],
{
}

/// A count goes up to the greatest number there is and stays there.
pub proof fn law_counts_stop_at_the_greatest_number(count: int)
    requires
        0 <= count,
    ensures
        count <= 18_446_744_073_709_551_615 ==> counted(count) == count,
        count > 18_446_744_073_709_551_615 ==> counted(count) == 18_446_744_073_709_551_615,
{
}

/// A summary is written with every figure under its own name.
pub proof fn law_figures_are_written_under_their_names(summary: LatencySummary)
    ensures
        summary.fields()["count"@] == JsonField::Number(summary.count as int),
        summary.fields()["min"@] == JsonField::Number(summary.min_ns as int),
        summary.fields()["p50"@] == JsonField::Number(summary.p50_ns as int),
        summary.fields()["p90"@] == JsonField::Number(summary.p90_ns as int),
        summary.fields()["p95"@] == JsonField::Number(summary.p95_ns as int),
        summary.fields()["p99"@] == JsonField::Number(summary.p99_ns as int),
        summary.fields()["max"@] == JsonField::Number(summary.max_ns as int),
        summary.fields()["mean"@] == JsonField::Number(summary.mean_ns as int),
{
    reveal_strlit("count");
    reveal_strlit("min");
    reveal_strlit("p50");
    reveal_strlit("p90");
    reveal_strlit("p95");
    reveal_strlit("p99");
    reveal_strlit("max");
    reveal_strlit("mean");
    assert("count"@.len() == 5 && "min"@.len() == 3 && "p50"@.len() == 3 && "p90"@.len() == 3 && "p95"@.len() == 3 && "p99"@.len() == 3 && "max"@.len() == 3 && "mean"@.len() == 4);
    assert("min"@[0] == 'm' && "min"@[1] == 'i' && "min"@[2] == 'n');
    assert("p50"@[0] == 'p' && "p50"@[1] == '5' && "p50"@[2] == '0');
    assert("p90"@[0] == 'p' && "p90"@[1] == '9' && "p90"@[2] == '0');
    assert("p95"@[0] == 'p' && "p95"@[1] == '9' && "p95"@[2] == '5');
    assert("p99"@[0] == 'p' && "p99"@[1] == '9' && "p99"@[2] == '9');
    assert("max"@[0] == 'm' && "max"@[1] == 'a' && "max"@[2] == 'x');
}

} // verus!
