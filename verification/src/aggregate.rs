use vstd::prelude::*;

use crate::flatten::dec_chars;
use crate::flatten::dec_string;
use crate::structs::DebuggerInstance;

verus! {

/// Picks the debugger target to profile: the first entry of the discovery
/// response's ordered sequence. An empty sequence means no debugger was
/// found, a terminal but non-fatal outcome.
pub fn select_target(targets: Vec<DebuggerInstance>) -> (r: Option<DebuggerInstance>)
    ensures
        targets@.len() == 0 ==> r is None,
        targets@.len() > 0 ==> r == Some(targets@[0]),
{
    let mut ts = targets;
    if ts.len() == 0 {
        None
    } else {
        Some(ts.swap_remove(0))
    }
}

/// The name of one snapshot file: the capture time in milliseconds since the
/// Unix epoch, under the snapshot directory, with a `.txt` ending. Names from
/// distinct capture times are distinct, so snapshots never collide and their
/// arrival order is recoverable from the file set.
pub open spec fn snapshot_name_chars(dir: Seq<char>, millis: u64) -> Seq<char> {
    dir + "/"@ + dec_chars(millis as nat) + ".txt"@
}

/// Renders the path of the snapshot file for a capture at `millis`.
pub fn snapshot_filename(dir: &str, millis: u64) -> (r: String)
    ensures
        r@ == snapshot_name_chars(dir@, millis),
{
    let mut r = dir.to_owned();
    r.append("/");
    let digits = dec_string(millis);
    r.append(digits.as_str());
    r.append(".txt");
    r
}

/// What the termination handler must do with the persisted snapshot files.
pub enum AggregateDecision {
    /// No snapshot files exist: exit cleanly, producing no artifact.
    Skip,
    /// Render one flame graph from exactly these snapshot files, write it to
    /// `output`, and delete the snapshot directory afterwards. A renderer
    /// failure is reported but never blocks process exit.
    Render { files: Vec<String>, output: String },
}

/// Decides the aggregation step over the snapshot files found in the
/// snapshot directory: nothing to do when none exist, otherwise one render
/// of exactly those files, in the order given, into the fixed artifact path.
pub fn aggregate_plan(files: Vec<String>) -> (r: AggregateDecision)
    ensures
        files@.len() == 0 ==> r is Skip,
        files@.len() > 0 ==> (r matches AggregateDecision::Render { files: f, output }
            && f == files && output@ == "memgraph.svg"@),
{
    if files.len() == 0 {
        AggregateDecision::Skip
    } else {
        AggregateDecision::Render { files, output: "memgraph.svg".to_owned() }
    }
}

} // verus!
