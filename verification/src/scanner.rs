//! One scan session turned into an ordered event stream.
//!
//! A session scans one root directory: it pre-counts the files below the root
//! as the progress denominator, then walks the root's immediate children in
//! order, reporting each child directory with its aggregate size and a
//! best-effort progress estimate after every traversable child, and closes
//! the stream with a single terminal marker. An unverified shell feeds the
//! stream into the session's channel while the scan runs, one `scan_child`
//! step at a time, preserving order; `run_scan` is the same session as one
//! verified value. Overlapping sessions are permitted: each owns its own
//! stream, and no ordering holds between the streams of different sessions.

use crate::fs_tree::FsEntry;
use crate::fs_tree::FsNode;
use crate::fs_tree::calculate_folder_size;
use crate::fs_tree::count_files;
use crate::fs_tree::entries_files;
use crate::fs_tree::entries_size;
use crate::fs_tree::lemma_entries_files_monotone;
use crate::fs_tree::lemma_entries_size_monotone;
use crate::fs_tree::node_files;
use crate::fs_tree::node_size;
use vstd::prelude::*;

verus! {

/// One event of a scan session's stream.
#[derive(Debug, PartialEq, Eq)]
pub enum ScanEvent {
    /// One immediate subdirectory of the scanned root, with its cumulative
    /// on-disk size.
    FolderEntry { name: String, size_bytes: u64 },
    /// Best-effort completion estimate in whole percent, derived from the
    /// pre-counted total.
    ProgressEvent { percent: u64 },
    /// Terminal marker: the session is over. Emitted exactly once, always
    /// last, whether or not the root could be scanned.
    ScanOutcome,
}

/// The progress update that follows one processed child, once `done` of
/// `total` pre-counted files are behind us. When the pre-count found no files
/// at all, progress events are suppressed entirely rather than dividing by
/// zero.
pub open spec fn progress_after(done: nat, total: nat) -> Seq<ScanEvent> {
    if total == 0 {
        Seq::empty()
    } else {
        seq![ScanEvent::ProgressEvent { percent: percent_of(done, total) }]
    }
}

/// Whole-percent completion estimate once `done` of `total` files are
/// processed.
pub open spec fn percent_of(done: nat, total: nat) -> u64 {
    ((done as int) * 100 / (total as int)) as u64
}

/// The events one immediate child of the root contributes, given `done`
/// files already processed before it. A child directory yields its folder
/// entry and then a progress update; a file directly under the root yields
/// only a progress update; an unreadable child is skipped without a trace.
pub open spec fn child_events(e: FsEntry, done: nat, total: nat) -> Seq<ScanEvent> {
    match e.node {
        FsNode::File { .. } => progress_after(done + 1, total),
        FsNode::Dir { .. } => seq![
            ScanEvent::FolderEntry { name: e.name, size_bytes: node_size(e.node) as u64 },
        ] + progress_after(done + node_files(e.node), total),
        FsNode::Unreadable => Seq::empty(),
    }
}

/// All events contributed by the first `i` children of the root, in order.
pub open spec fn events_upto(s: Seq<FsEntry>, i: int, total: nat) -> Seq<ScanEvent>
    decreases i,
{
    if 0 < i <= s.len() {
        events_upto(s, i - 1, total) + child_events(s[i - 1], entries_files(s, i - 1), total)
    } else {
        Seq::empty()
    }
}

/// The full event stream of one scan session. `None` stands for a root that
/// could not be resolved or does not exist: such a scan is empty, not an
/// error, and still closes its stream with the terminal marker. A root that
/// is not a directory behaves the same way.
pub open spec fn scan_events(root: Option<FsNode>) -> Seq<ScanEvent> {
    match root {
        Some(FsNode::Dir { entries }) => events_upto(
            entries@,
            entries@.len() as int,
            node_files(FsNode::Dir { entries }),
        ) + seq![ScanEvent::ScanOutcome],
        _ => seq![ScanEvent::ScanOutcome],
    }
}

/// The scanned tree behind an optional root reference.
pub open spec fn opt_node(root: Option<&FsNode>) -> Option<FsNode> {
    match root {
        Some(n) => Some(*n),
        None => None,
    }
}

/// One step of a streamed session: the events of a single immediate child,
/// with the running file count handed back. The shell can thus read, compute
/// and send child by child while the scan runs, instead of waiting for the
/// whole stream; the concatenation of the steps, closed by the terminal
/// marker, is exactly the session's stream.
pub fn scan_child(child: &FsEntry, done: u64, total: u64) -> (step: (Vec<ScanEvent>, u64))
    requires
        node_size(child.node) <= u64::MAX,
        done + node_files(child.node) <= total,
    ensures
        step.0@ == child_events(*child, done as nat, total as nat),
        step.1 == done + node_files(child.node),
{
    let mut events: Vec<ScanEvent> = Vec::new();
    let new_done: u64;
    match &child.node {
        FsNode::File { .. } => {
            proof {
                assert(child.node is File);
                assert(node_files(child.node) == 1);
            }
            new_done = done + 1;
            if total > 0 {
                let percent = (new_done as u128 * 100 / total as u128) as u64;
                events.push(ScanEvent::ProgressEvent { percent });
            }
        },
        FsNode::Dir { .. } => {
            let size = calculate_folder_size(&child.node);
            let name = child.name.clone();
            events.push(ScanEvent::FolderEntry { name, size_bytes: size });
            let files = count_files(&child.node);
            new_done = done + files;
            if total > 0 {
                let percent = (new_done as u128 * 100 / total as u128) as u64;
                events.push(ScanEvent::ProgressEvent { percent });
            }
        },
        FsNode::Unreadable => {
            new_done = done;
        },
    }
    proof {
        assert(events@ =~= child_events(*child, done as nat, total as nat));
    }
    (events, new_done)
}

/// Run one scan session over `root` and return its full event stream, in
/// emission order: the concatenated `scan_child` steps over the root's
/// children, closed by the terminal marker.
#[verifier::loop_isolation(false)]
pub fn run_scan(root: Option<&FsNode>) -> (events: Vec<ScanEvent>)
    requires
        root matches Some(n) ==> node_size(*n) <= u64::MAX && node_files(*n) <= u64::MAX,
    ensures
        events@ == scan_events(opt_node(root)),
{
    let mut events: Vec<ScanEvent> = Vec::new();
    if let Some(node) = root {
        if let FsNode::Dir { entries } = node {
            let total = count_files(node);
            let ghost total_files = node_files(*node);
            proof {
                assert(total_files == entries_files(entries@, entries@.len() as int));
            }
            let mut done: u64 = 0;
            let mut i: usize = 0;
            while i < entries.len()
                invariant
                    i <= entries@.len(),
                    done == entries_files(entries@, i as int),
                    events@ == events_upto(entries@, i as int, total_files),
                decreases entries@.len() - i,
            {
                proof {
                    lemma_entries_size_monotone(entries@, i + 1, entries@.len() as int);
                    lemma_entries_files_monotone(entries@, i + 1, entries@.len() as int);
                    assert(entries_size(entries@, i + 1) == entries_size(entries@, i as int)
                        + node_size(entries@[i as int].node));
                    assert(entries_files(entries@, i + 1) == done + node_files(
                        entries@[i as int].node,
                    ));
                }
                let (mut step_events, new_done) = scan_child(&entries[i], done, total);
                events.append(&mut step_events);
                done = new_done;
                proof {
                    assert(events@ =~= events_upto(entries@, i + 1, total_files));
                }
                i = i + 1;
            }
        }
    }
    events.push(ScanEvent::ScanOutcome);
    proof {
        assert(events@ =~= scan_events(opt_node(root)));
    }
    events
}

proof fn lemma_percent_bounds(done: nat, total: nat)
    requires
        done <= total,
        0 < total,
    ensures
        percent_of(done, total) == (done as int) * 100 / (total as int),
        percent_of(done, total) <= 100,
        done == total ==> percent_of(done, total) == 100,
{
    vstd::arithmetic::div_mod::lemma_div_multiples_vanish(100, total as int);
    vstd::arithmetic::div_mod::lemma_div_is_ordered(
        (done as int) * 100,
        (total as int) * 100,
        total as int,
    );
    vstd::arithmetic::div_mod::lemma_div_is_ordered(0, (done as int) * 100, total as int);
    vstd::arithmetic::div_mod::lemma_div_of0(total as int);
}

proof fn lemma_percent_monotone(d1: nat, d2: nat, total: nat)
    requires
        d1 <= d2 <= total,
        0 < total,
    ensures
        percent_of(d1, total) <= percent_of(d2, total),
{
    lemma_percent_bounds(d1, total);
    lemma_percent_bounds(d2, total);
    vstd::arithmetic::div_mod::lemma_div_is_ordered(
        (d1 as int) * 100,
        (d2 as int) * 100,
        total as int,
    );
}

proof fn lemma_events_upto_facts(s: Seq<FsEntry>, i: int, total: nat)
    requires
        0 <= i <= s.len(),
        total == entries_files(s, s.len() as int),
    ensures
        forall|k: int|
            0 <= k < events_upto(s, i, total).len() ==> !((#[trigger] events_upto(s, i, total)[k])
                is ScanOutcome),
        total == 0 ==> forall|k: int|
            0 <= k < events_upto(s, i, total).len() ==> !((#[trigger] events_upto(s, i, total)[k])
                is ProgressEvent),
        total > 0 ==> forall|k: int|
            0 <= k < events_upto(s, i, total).len() && (#[trigger] events_upto(s, i, total)[k])
                is ProgressEvent ==> events_upto(s, i, total)[k]->percent <= percent_of(
                entries_files(s, i),
                total,
            ),
        total > 0 ==> forall|k: int, l: int|
            0 <= k <= l < events_upto(s, i, total).len() && (#[trigger] events_upto(
                s,
                i,
                total,
            )[k]) is ProgressEvent && (#[trigger] events_upto(s, i, total)[l]) is ProgressEvent
                ==> events_upto(s, i, total)[k]->percent <= events_upto(s, i, total)[l]->percent,
        (total > 0 && (exists|k: int| 0 <= k < i && !((#[trigger] s[k].node) is Unreadable)))
            ==> (events_upto(s, i, total).len() > 0 && events_upto(s, i, total).last()
            is ProgressEvent && events_upto(s, i, total).last()->percent == percent_of(
            entries_files(s, i),
            total,
        )),
        entries_files(s, i) > 0 ==> (exists|k: int|
            0 <= k < i && !((#[trigger] s[k].node) is Unreadable)),
    decreases i,
{
    lemma_entries_files_monotone(s, i, s.len() as int);
    if 0 < i {
        lemma_events_upto_facts(s, i - 1, total);
        lemma_entries_files_monotone(s, i - 1, i);
        let prev = events_upto(s, i - 1, total);
        let ev = events_upto(s, i, total);
        let added = child_events(s[i - 1], entries_files(s, i - 1), total);
        assert(ev == prev + added);
        assert(entries_files(s, i) == entries_files(s, i - 1) + node_files(s[i - 1].node));
        assert forall|k: int| 0 <= k < ev.len() implies !((#[trigger] ev[k]) is ScanOutcome) by {
            if k < prev.len() {
                assert(ev[k] == prev[k]);
            } else {
                assert(ev[k] == added[k - prev.len()]);
            }
        }
        if total == 0 {
            assert forall|k: int| 0 <= k < ev.len() implies !((#[trigger] ev[k])
                is ProgressEvent) by {
                if k < prev.len() {
                    assert(ev[k] == prev[k]);
                } else {
                    assert(ev[k] == added[k - prev.len()]);
                }
            }
        } else {
            lemma_percent_monotone(entries_files(s, i - 1), entries_files(s, i), total);
            lemma_percent_bounds(entries_files(s, i), total);
            assert forall|k: int|
                0 <= k < ev.len() && (#[trigger] ev[k]) is ProgressEvent implies ev[k]->percent
                <= percent_of(entries_files(s, i), total) by {
                if k < prev.len() {
                    assert(ev[k] == prev[k]);
                } else {
                    assert(ev[k] == added[k - prev.len()]);
                }
            }
            assert forall|k: int, l: int|
                0 <= k <= l < ev.len() && (#[trigger] ev[k]) is ProgressEvent && (#[trigger] ev[l])
                    is ProgressEvent implies ev[k]->percent <= ev[l]->percent by {
                if l < prev.len() {
                    assert(ev[k] == prev[k] && ev[l] == prev[l]);
                } else {
                    assert(ev[l] == added[l - prev.len()]);
                    if k < prev.len() {
                        assert(ev[k] == prev[k]);
                        assert(prev[k]->percent <= percent_of(entries_files(s, i - 1), total));
                    } else {
                        assert(ev[k] == added[k - prev.len()]);
                    }
                }
            }
        }
        if s[i - 1].node is Unreadable {
            assert(ev =~= prev);
            assert(entries_files(s, i) == entries_files(s, i - 1));
            if exists|k: int| 0 <= k < i && !((#[trigger] s[k].node) is Unreadable) {
                let w = choose|k: int| 0 <= k < i && !((#[trigger] s[k].node) is Unreadable);
                assert(0 <= w < i - 1 && !(s[w].node is Unreadable));
            }
        } else {
            assert(!((s[i - 1].node) is Unreadable));
            if total > 0 {
                assert(added.len() > 0 && ev.last() == added.last());
            }
        }
    }
}

/// Exactly one terminal marker per scan session: the stream is nonempty, its
/// last event is the marker, and no earlier event is.
pub proof fn lemma_exactly_one_outcome(root: Option<FsNode>)
    ensures
        scan_events(root).len() > 0,
        scan_events(root).last() is ScanOutcome,
        forall|k: int|
            0 <= k < scan_events(root).len() - 1 ==> !((#[trigger] scan_events(root)[k])
                is ScanOutcome),
{
    match root {
        Some(FsNode::Dir { entries }) => {
            lemma_events_upto_facts(
                entries@,
                entries@.len() as int,
                node_files(FsNode::Dir { entries }),
            );
        },
        _ => {},
    }
}

/// Progress percentages never decrease across one session's stream.
pub proof fn lemma_progress_monotone(root: Option<FsNode>, k: int, l: int)
    requires
        0 <= k <= l < scan_events(root).len(),
        scan_events(root)[k] is ProgressEvent,
        scan_events(root)[l] is ProgressEvent,
    ensures
        scan_events(root)[k]->percent <= scan_events(root)[l]->percent,
{
    match root {
        Some(FsNode::Dir { entries }) => {
            let total = node_files(FsNode::Dir { entries });
            lemma_events_upto_facts(entries@, entries@.len() as int, total);
            let ev = events_upto(entries@, entries@.len() as int, total);
            assert(scan_events(root)[k] == ev[k]);
            assert(scan_events(root)[l] == ev[l]);
        },
        _ => {},
    }
}

/// When the pre-count found at least one file, the progress estimate just
/// before the terminal marker reads exactly one hundred percent.
pub proof fn lemma_final_progress_full(entries: Vec<FsEntry>)
    requires
        node_files(FsNode::Dir { entries }) > 0,
    ensures
        scan_events(Some(FsNode::Dir { entries })).len() >= 2,
        scan_events(Some(FsNode::Dir { entries }))[scan_events(Some(FsNode::Dir { entries })).len()
            - 2] is ProgressEvent,
        scan_events(Some(FsNode::Dir { entries }))[scan_events(Some(FsNode::Dir { entries })).len()
            - 2]->percent == 100,
{
    let total = node_files(FsNode::Dir { entries });
    lemma_events_upto_facts(entries@, entries@.len() as int, total);
    lemma_percent_bounds(total, total);
    let ev = events_upto(entries@, entries@.len() as int, total);
    assert(ev.len() > 0);
    assert(scan_events(Some(FsNode::Dir { entries }))[scan_events(
        Some(FsNode::Dir { entries }),
    ).len() - 2] == ev.last());
}

} // verus!
