//! Audit trail for Responses semantic degradation events.
//!
//! Kept in its own table (rather than folded into the request logs) so that
//! usage and cost accounting stays untouched and the events can be replayed by
//! burst from a single indexed table.

use vstd::prelude::*;

use crate::text::{chars_of, join, joined, string_of, texts};

verus! {

/// One semantic degradation event (Tier A detection, or Tier B audit signal).
#[derive(Debug, Clone)]
pub struct SemanticDegradationEvent {
    pub request_id: Option<String>,
    pub app_type: String,
    pub provider_id: String,
    pub endpoint: Option<String>,
    /// `"A"` or `"B"`.
    pub tier: String,
    /// Short machine-readable reasons, e.g. `response_id_32hex`.
    pub evidence: Vec<String>,
    /// Number of upstream sends performed for the client request.
    pub attempts: u32,
    /// Whether a replay was actually attempted.
    pub replayed: bool,
    /// `dry_run`, `recovered`, `exhausted`, `circuit_open` or `tier_b`.
    pub outcome: String,
    /// `true` when replay was globally disabled (observe-only).
    pub dry_run: bool,
    pub detail: Option<String>,
}

/// A row of the audit table, in the order of its columns.
#[derive(Debug)]
pub struct SemanticDegradationRow {
    pub created_at: i64,
    pub request_id: Option<String>,
    pub app_type: String,
    pub provider_id: String,
    pub endpoint: Option<String>,
    pub tier: String,
    pub evidence: String,
    pub attempts: i64,
    pub replayed: i64,
    pub outcome: String,
    pub dry_run: i64,
    pub detail: Option<String>,
}

/// The characters of each of a sequence of strings.
pub open spec fn string_texts(parts: Seq<String>) -> Seq<Seq<char>> {
    parts.map_values(|part: String| part@)
}

fn join_strings(parts: &Vec<String>, sep: &str) -> (r: String)
    ensures
        r@ == joined(string_texts(parts@), sep@),
{
    let mut chars: Vec<Vec<char>> = Vec::new();
    let n: usize = parts.len();
    for i in 0..n
        invariant
            n == parts@.len(),
            chars@.len() == i,
            forall|j: int| 0 <= j < i ==> (#[trigger] chars@[j])@ == parts@[j]@,
    {
        chars.push(chars_of(parts[i].as_str()));
    }
    assert(texts(chars@) =~= string_texts(parts@));
    string_of(join(&chars, sep).as_slice())
}

/// The evidence as it stands in one column: its parts with a comma between each two.
pub open spec fn evidence_column(evidence: Seq<String>) -> Seq<char> {
    joined(string_texts(evidence), ","@)
}

/// A flag as it stands in a column.
pub open spec fn flag_column(flag: bool) -> int {
    if flag {
        1
    } else {
        0
    }
}

impl SemanticDegradationEvent {
    /// The row that records this event at the given time, in seconds since the
    /// Unix epoch.
    pub fn into_row(self, created_at: i64) -> (r: SemanticDegradationRow)
        ensures
            r.created_at == created_at,
            r.request_id == self.request_id,
            r.app_type == self.app_type,
            r.provider_id == self.provider_id,
            r.endpoint == self.endpoint,
            r.tier == self.tier,
            r.evidence@ == joined(string_texts(self.evidence@), ","@),
            r.attempts == self.attempts,
            r.replayed == (if self.replayed {
                1int
            } else {
                0int
            }),
            r.outcome == self.outcome,
            r.dry_run == (if self.dry_run {
                1int
            } else {
                0int
            }),
            r.detail == self.detail,
            r.evidence@ == evidence_column(self.evidence@),
            r.replayed == flag_column(self.replayed),
            r.dry_run == flag_column(self.dry_run),
    {
        let evidence: String = join_strings(&self.evidence, ",");
        SemanticDegradationRow {
            created_at,
            request_id: self.request_id,
            app_type: self.app_type,
            provider_id: self.provider_id,
            endpoint: self.endpoint,
            tier: self.tier,
            evidence,
            attempts: self.attempts as i64,
            replayed: if self.replayed {
                1
            } else {
                0
            },
            outcome: self.outcome,
            dry_run: if self.dry_run {
                1
            } else {
                0
            },
            detail: self.detail,
        }
    }
}

} // verus!
