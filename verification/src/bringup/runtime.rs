//! Runtime checkpoints must also work at DISPATCH_LEVEL and in the ISR, so they
//! only touch counters; the private adapter query, which remains reachable even
//! when device creation is blocked, publishes them. Snapshot fields are
//! independent observations, not a transaction across worker threads.

use crate::bringup::{Record, PASSIVE_LEVEL};
use crate::text::append_decimal;
use vstd::prelude::*;

verus! {

/// Number of checkpoints.
pub const STATS: usize = 19;

/// Number of phases that a fence goes through.
pub const PHASES: usize = 3;

/// Number of engine nodes whose fences are followed.
pub const NODES: usize = 64;

/// Revision of the published set of values.
pub const REVISION: u32 = 61;

/// A runtime checkpoint; `Count` is none, it is their number.
#[derive(Clone, Copy, PartialEq, Eq, Structural, Debug)]
pub enum Stat {
    CreateDeviceEnter,
    CreateDeviceOk,
    CreateProcessEnter,
    CreateProcessOk,
    EscapeEnter,
    EscapeReturn,
    SubmitEnter,
    SubmitReturn,
    IrqEnter,
    IrqHandled,
    DpcEnter,
    DpcReturn,
    ControlWake,
    ControlResponsesDone,
    ControlRequestsDone,
    DmaCompleteEnter,
    DmaCompleteReturn,
    NotifyEnter,
    NotifyReturn,
    Count,
}

impl Stat {
    /// Position in declaration order.
    pub open spec fn position(self) -> int {
        match self {
            Stat::CreateDeviceEnter => 0,
            Stat::CreateDeviceOk => 1,
            Stat::CreateProcessEnter => 2,
            Stat::CreateProcessOk => 3,
            Stat::EscapeEnter => 4,
            Stat::EscapeReturn => 5,
            Stat::SubmitEnter => 6,
            Stat::SubmitReturn => 7,
            Stat::IrqEnter => 8,
            Stat::IrqHandled => 9,
            Stat::DpcEnter => 10,
            Stat::DpcReturn => 11,
            Stat::ControlWake => 12,
            Stat::ControlResponsesDone => 13,
            Stat::ControlRequestsDone => 14,
            Stat::DmaCompleteEnter => 15,
            Stat::DmaCompleteReturn => 16,
            Stat::NotifyEnter => 17,
            Stat::NotifyReturn => 18,
            Stat::Count => 19,
        }
    }

    /// The counter that the checkpoint adds to.
    pub fn slot(self) -> (slot: usize)
        ensures
            slot == self.position(),
    {
        match self {
            Stat::CreateDeviceEnter => 0,
            Stat::CreateDeviceOk => 1,
            Stat::CreateProcessEnter => 2,
            Stat::CreateProcessOk => 3,
            Stat::EscapeEnter => 4,
            Stat::EscapeReturn => 5,
            Stat::SubmitEnter => 6,
            Stat::SubmitReturn => 7,
            Stat::IrqEnter => 8,
            Stat::IrqHandled => 9,
            Stat::DpcEnter => 10,
            Stat::DpcReturn => 11,
            Stat::ControlWake => 12,
            Stat::ControlResponsesDone => 13,
            Stat::ControlRequestsDone => 14,
            Stat::DmaCompleteEnter => 15,
            Stat::DmaCompleteReturn => 16,
            Stat::NotifyEnter => 17,
            Stat::NotifyReturn => 18,
            Stat::Count => 19,
        }
    }
}

/// What the checkpoints have seen: hits per checkpoint, and per phase and node
/// the fence value that passed last.
pub struct RuntimeStats {
    pub enabled: bool,
    pub counters: [u32; 19],
    pub fences: [[u32; 64]; 3],
}

impl RuntimeStats {
    /// Nothing seen yet.
    pub fn new(enabled: bool) -> (stats: Self)
        ensures
            stats.enabled == enabled,
            forall|i: int| 0 <= i < STATS ==> #[trigger] stats.counters@[i] == 0,
            forall|p: int, n: int|
                0 <= p < PHASES && 0 <= n < NODES ==> #[trigger] stats.fences@[p]@[n] == 0,
    {
        RuntimeStats { enabled, counters: [0; 19], fences: [[0; 64]; 3] }
    }
}

/// The counters after one more pass of the checkpoint; a full counter wraps.
pub open spec fn after_hit(counters: Seq<u32>, stat: Stat) -> Seq<u32> {
    counters.update(
        stat.position(),
        ((counters[stat.position()] + 1) % 0x1_0000_0000) as u32,
    )
}

/// Counts one pass of the checkpoint.
pub fn hit(stats: &mut RuntimeStats, stat: Stat)
    requires
        old(stats).enabled ==> stat != Stat::Count,
    ensures
        final(stats).enabled == old(stats).enabled,
        final(stats).fences == old(stats).fences,
        final(stats).counters@ == (if old(stats).enabled {
            after_hit(old(stats).counters@, stat)
        } else {
            old(stats).counters@
        }),
{
    if stats.enabled {
        let slot: usize = stat.slot();
        stats.counters[slot] = stats.counters[slot].wrapping_add(1);
    }
}

/// Where the fences of `node` in `phase` are kept, if both are followed.
pub fn fence_slot(phase: usize, node: u32) -> (slot: Option<(usize, usize)>)
    ensures
        slot == (if phase < PHASES && node < NODES {
            Some((phase, node as usize))
        } else {
            None::<(usize, usize)>
        }),
{
    if phase < PHASES && (node as usize) < NODES {
        Some((phase, node as usize))
    } else {
        None
    }
}

/// Notes the fence `value` of `node` in the phase: 0 submitted, 1 response
/// callback, 2 notify returned successfully. Unknown phases and nodes are
/// ignored.
pub fn fence(stats: &mut RuntimeStats, phase: usize, node: u32, value: u32)
    ensures
        final(stats).enabled == old(stats).enabled,
        final(stats).counters == old(stats).counters,
        forall|p: int, n: int|
            0 <= p < PHASES && 0 <= n < NODES ==> #[trigger] final(stats).fences@[p]@[n] == (
            if old(stats).enabled && p == phase && n == node {
                value
            } else {
                old(stats).fences@[p]@[n]
            }),
{
    if stats.enabled {
        if let Some((row, column)) = fence_slot(phase, node) {
            stats.fences[row][column] = value;
        }
    }
}

/// The value name of the checkpoint in the given position.
pub open spec fn stat_name(slot: int) -> Seq<char> {
    if slot == 0 {
        "RtCreateDeviceEnter"@
    } else if slot == 1 {
        "RtCreateDeviceOk"@
    } else if slot == 2 {
        "RtCreateProcessEnter"@
    } else if slot == 3 {
        "RtCreateProcessOk"@
    } else if slot == 4 {
        "RtEscapeEnter"@
    } else if slot == 5 {
        "RtEscapeReturn"@
    } else if slot == 6 {
        "RtSubmitEnter"@
    } else if slot == 7 {
        "RtSubmitReturn"@
    } else if slot == 8 {
        "RtIrqEnter"@
    } else if slot == 9 {
        "RtIrqHandled"@
    } else if slot == 10 {
        "RtDpcEnter"@
    } else if slot == 11 {
        "RtDpcReturn"@
    } else if slot == 12 {
        "RtControlWake"@
    } else if slot == 13 {
        "RtControlResponsesDone"@
    } else if slot == 14 {
        "RtControlRequestsDone"@
    } else if slot == 15 {
        "RtDmaCompleteEnter"@
    } else if slot == 16 {
        "RtDmaCompleteReturn"@
    } else if slot == 17 {
        "RtNotifyEnter"@
    } else {
        "RtNotifyReturn"@
    }
}

fn stat_text(slot: usize) -> (text: &'static str)
    requires
        slot < STATS,
    ensures
        text@ == stat_name(slot as int),
{
    match slot {
        0 => "RtCreateDeviceEnter",
        1 => "RtCreateDeviceOk",
        2 => "RtCreateProcessEnter",
        3 => "RtCreateProcessOk",
        4 => "RtEscapeEnter",
        5 => "RtEscapeReturn",
        6 => "RtSubmitEnter",
        7 => "RtSubmitReturn",
        8 => "RtIrqEnter",
        9 => "RtIrqHandled",
        10 => "RtDpcEnter",
        11 => "RtDpcReturn",
        12 => "RtControlWake",
        13 => "RtControlResponsesDone",
        14 => "RtControlRequestsDone",
        15 => "RtDmaCompleteEnter",
        16 => "RtDmaCompleteReturn",
        17 => "RtNotifyEnter",
        _ => "RtNotifyReturn",
    }
}

/// What the value name of a fence ends in.
pub open spec fn phase_name(phase: int) -> Seq<char> {
    if phase == 0 {
        "Submit"@
    } else if phase == 1 {
        "Response"@
    } else {
        "Notify"@
    }
}

fn phase_text(phase: usize) -> (text: &'static str)
    requires
        phase < PHASES,
    ensures
        text@ == phase_name(phase as int),
{
    match phase {
        0 => "Submit",
        1 => "Response",
        _ => "Notify",
    }
}

/// The value name of a node's fence in a phase.
pub open spec fn fence_name(node: int, phase: int) -> Seq<char> {
    "RtFence"@ + crate::text::decimal(node as nat, 2) + "_"@ + phase_name(phase)
}

/// The published counters, in checkpoint order.
pub open spec fn counter_records(stats: RuntimeStats) -> Seq<(Seq<char>, u32)> {
    Seq::new(STATS as nat, |i: int| (stat_name(i), stats.counters@[i]))
}

/// Whether any phase has seen a nonzero fence of the node.
pub open spec fn node_seen(stats: RuntimeStats, node: int) -> bool {
    ||| stats.fences@[0]@[node] != 0
    ||| stats.fences@[1]@[node] != 0
    ||| stats.fences@[2]@[node] != 0
}

/// The published fences of one node: all three phases, or none at all.
pub open spec fn node_records(stats: RuntimeStats, node: int) -> Seq<(Seq<char>, u32)> {
    if node_seen(stats, node) {
        Seq::new(PHASES as nat, |p: int| (fence_name(node, p), stats.fences@[p]@[node]))
    } else {
        Seq::empty()
    }
}

/// The published fences of the first `nodes` nodes.
pub open spec fn fence_records(stats: RuntimeStats, nodes: nat) -> Seq<(Seq<char>, u32)>
    decreases nodes,
{
    if nodes == 0 {
        Seq::empty()
    } else {
        fence_records(stats, (nodes - 1) as nat) + node_records(stats, nodes - 1)
    }
}

/// Everything that is published: the revision, the counters, then the fences.
pub open spec fn published(stats: RuntimeStats) -> Seq<(Seq<char>, u32)> {
    seq![("RuntimeDiagnosticsRevision"@, REVISION)] + counter_records(stats) + fence_records(
        stats,
        NODES as nat,
    )
}

/// The names and values of a list of records.
pub open spec fn records_view(records: Seq<Record>) -> Seq<(Seq<char>, u32)> {
    records.map_values(|r: Record| r@)
}

fn push_record(records: &mut Vec<Record>, name: String, value: u32)
    ensures
        records_view(final(records)@) == records_view(old(records)@).push((name@, value)),
{
    records.push(Record { name, value });
    assert(records_view(records@) =~= records_view(old(records)@).push((name@, value)));
}

fn push_node(records: &mut Vec<Record>, stats: &RuntimeStats, node: usize)
    requires
        node < NODES,
    ensures
        records_view(final(records)@) == records_view(old(records)@) + node_records(
            *stats,
            node as int,
        ),
{
    let ghost before = records_view(records@);
    if stats.fences[0][node] != 0 || stats.fences[1][node] != 0 || stats.fences[2][node] != 0 {
        let mut phase: usize = 0;
        while phase < PHASES
            invariant
                phase <= PHASES,
                node < NODES,
                node_seen(*stats, node as int),
                records_view(records@) == before + node_records(*stats, node as int).take(
                    phase as int,
                ),
            decreases PHASES - phase,
        {
            let mut name: String = "RtFence".to_owned();
            append_decimal(&mut name, node as u32, 2);
            name.append("_");
            name.append(phase_text(phase));
            push_record(records, name, stats.fences[phase][node]);
            assert(node_records(*stats, node as int).take(phase + 1) =~= node_records(
                *stats,
                node as int,
            ).take(phase as int).push(
                (fence_name(node as int, phase as int), stats.fences@[phase as int]@[node as int]),
            ));
            phase = phase + 1;
        }
        assert(node_records(*stats, node as int).take(PHASES as int) =~= node_records(
            *stats,
            node as int,
        ));
    }
    assert(records_view(records@) =~= before + node_records(*stats, node as int));
}

/// The values to record, in order, for what the checkpoints have seen; none
/// above PASSIVE_LEVEL, where the registry cannot be written.
pub fn publish(irql: u8, stats: &RuntimeStats) -> (records: Vec<Record>)
    ensures
        records_view(records@) == (if crate::bringup::may_write(stats.enabled, irql) {
            published(*stats)
        } else {
            Seq::empty()
        }),
{
    let mut records: Vec<Record> = Vec::new();
    assert(records_view(records@) =~= Seq::empty());
    if !stats.enabled || irql != PASSIVE_LEVEL {
        return records;
    }
    push_record(&mut records, "RuntimeDiagnosticsRevision".to_owned(), REVISION);
    let ghost head = seq![("RuntimeDiagnosticsRevision"@, REVISION)];
    let mut slot: usize = 0;
    assert(records_view(records@) =~= head + counter_records(*stats).take(0));
    while slot < STATS
        invariant
            slot <= STATS,
            records_view(records@) == head + counter_records(*stats).take(slot as int),
        decreases STATS - slot,
    {
        push_record(&mut records, stat_text(slot).to_owned(), stats.counters[slot]);
        assert(counter_records(*stats).take(slot + 1) =~= counter_records(*stats).take(
            slot as int,
        ).push((stat_name(slot as int), stats.counters@[slot as int])));
        assert(records_view(records@) =~= head + counter_records(*stats).take(slot + 1));
        slot = slot + 1;
    }
    assert(counter_records(*stats).take(STATS as int) =~= counter_records(*stats));
    let mut node: usize = 0;
    assert(records_view(records@) =~= head + counter_records(*stats) + fence_records(*stats, 0));
    while node < NODES
        invariant
            node <= NODES,
            records_view(records@) == head + counter_records(*stats) + fence_records(
                *stats,
                node as nat,
            ),
        decreases NODES - node,
    {
        push_node(&mut records, stats, node);
        assert(records_view(records@) =~= head + counter_records(*stats) + fence_records(
            *stats,
            (node + 1) as nat,
        ));
        node = node + 1;
    }
    records
}

/// Checkpoints are independent: passes count the same in any order.
pub proof fn law_hits_commute(counters: Seq<u32>, first: Stat, second: Stat)
    requires
        counters.len() == STATS,
        first != Stat::Count,
        second != Stat::Count,
    ensures
        after_hit(after_hit(counters, first), second) == after_hit(
            after_hit(counters, second),
            first,
        ),
{
    assert(after_hit(after_hit(counters, first), second) =~= after_hit(
        after_hit(counters, second),
        first,
    ));
}

/// No two checkpoints share a value name.
proof fn lemma_stat_names_differ(i: int, j: int)
    requires
        0 <= i < j < STATS,
    ensures
        stat_name(i) != stat_name(j),
{
    reveal_strlit("RtCreateDeviceEnter");
    reveal_strlit("RtCreateDeviceOk");
    reveal_strlit("RtCreateProcessEnter");
    reveal_strlit("RtCreateProcessOk");
    reveal_strlit("RtEscapeEnter");
    reveal_strlit("RtEscapeReturn");
    reveal_strlit("RtSubmitEnter");
    reveal_strlit("RtSubmitReturn");
    reveal_strlit("RtIrqEnter");
    reveal_strlit("RtIrqHandled");
    reveal_strlit("RtDpcEnter");
    reveal_strlit("RtDpcReturn");
    reveal_strlit("RtControlWake");
    reveal_strlit("RtControlResponsesDone");
    reveal_strlit("RtControlRequestsDone");
    reveal_strlit("RtDmaCompleteEnter");
    reveal_strlit("RtDmaCompleteReturn");
    reveal_strlit("RtNotifyEnter");
    reveal_strlit("RtNotifyReturn");
    assert(stat_name(i).len() != stat_name(j).len() || stat_name(i)[2] != stat_name(j)[2]);
}

/// No checkpoint has a value name that a fence or the revision could have.
proof fn lemma_stat_name_start(i: int)
    requires
        0 <= i < STATS,
    ensures
        stat_name(i).len() > 2,
        stat_name(i)[1] == 't',
        stat_name(i)[2] != 'F',
{
    reveal_strlit("RtCreateDeviceEnter");
    reveal_strlit("RtCreateDeviceOk");
    reveal_strlit("RtCreateProcessEnter");
    reveal_strlit("RtCreateProcessOk");
    reveal_strlit("RtEscapeEnter");
    reveal_strlit("RtEscapeReturn");
    reveal_strlit("RtSubmitEnter");
    reveal_strlit("RtSubmitReturn");
    reveal_strlit("RtIrqEnter");
    reveal_strlit("RtIrqHandled");
    reveal_strlit("RtDpcEnter");
    reveal_strlit("RtDpcReturn");
    reveal_strlit("RtControlWake");
    reveal_strlit("RtControlResponsesDone");
    reveal_strlit("RtControlRequestsDone");
    reveal_strlit("RtDmaCompleteEnter");
    reveal_strlit("RtDmaCompleteReturn");
    reveal_strlit("RtNotifyEnter");
    reveal_strlit("RtNotifyReturn");
}

/// Where the node and the phase stand in the value name of a fence.
proof fn lemma_fence_name_start(node: int, phase: int)
    requires
        0 <= node < NODES,
        0 <= phase < PHASES,
    ensures
        fence_name(node, phase).len() > 10,
        fence_name(node, phase)[1] == 't',
        fence_name(node, phase)[2] == 'F',
        fence_name(node, phase).subrange(7, 9) == crate::text::decimal(node as nat, 2),
        fence_name(node, phase)[10] == phase_name(phase)[0],
{
    reveal_strlit("RtFence");
    reveal_strlit("_");
    reveal_strlit("Submit");
    reveal_strlit("Response");
    reveal_strlit("Notify");
    crate::text::lemma_decimal_len(node as nat, 2);
    assert(fence_name(node, phase).subrange(7, 9) =~= crate::text::decimal(node as nat, 2));
}

/// No two fences share a value name.
proof fn lemma_fence_names_differ(node: int, phase: int, other_node: int, other_phase: int)
    requires
        0 <= node < NODES,
        0 <= phase < PHASES,
        0 <= other_node < NODES,
        0 <= other_phase < PHASES,
        node != other_node || phase != other_phase,
    ensures
        fence_name(node, phase) != fence_name(other_node, other_phase),
{
    reveal_strlit("Submit");
    reveal_strlit("Response");
    reveal_strlit("Notify");
    lemma_fence_name_start(node, phase);
    lemma_fence_name_start(other_node, other_phase);
    if node != other_node {
        assert(vstd::arithmetic::power::pow(10, 2) == 100) by {
            reveal_with_fuel(vstd::arithmetic::power::pow, 3);
        }
        if node < other_node {
            crate::text::law_decimal_keeps_order(node as nat, other_node as nat, 2);
        } else {
            crate::text::law_decimal_keeps_order(other_node as nat, node as nat, 2);
        }
    }
}

/// Whether `name` is that of a fence of one of the first `nodes` nodes.
spec fn names_fence(name: Seq<char>, nodes: int) -> bool {
    exists|node: int, phase: int|
        {
            &&& 0 <= node < nodes
            &&& 0 <= phase < PHASES
            &&& name == #[trigger] fence_name(node, phase)
        }
}

/// Every published fence is that of some node and phase, and no two share a
/// value name.
proof fn lemma_fence_records(stats: RuntimeStats, nodes: nat)
    requires
        nodes <= NODES,
    ensures
        forall|i: int|
            0 <= i < fence_records(stats, nodes).len() ==> names_fence(
                (#[trigger] fence_records(stats, nodes)[i]).0,
                nodes as int,
            ),
        forall|i: int, j: int|
            0 <= i < j < fence_records(stats, nodes).len() ==> (#[trigger] fence_records(
                stats,
                nodes,
            )[i]).0 != (#[trigger] fence_records(stats, nodes)[j]).0,
    decreases nodes,
{
    if nodes > 0 {
        let before = fence_records(stats, (nodes - 1) as nat);
        let last = node_records(stats, nodes - 1);
        let all = fence_records(stats, nodes);
        lemma_fence_records(stats, (nodes - 1) as nat);
        assert forall|i: int| 0 <= i < all.len() implies names_fence(
            (#[trigger] all[i]).0,
            nodes as int,
        ) by {
            if i >= before.len() {
                assert(all[i].0 == fence_name(nodes - 1, i - before.len()));
            } else {
                assert(all[i] == before[i]);
                assert(names_fence(before[i].0, nodes - 1));
            }
        }
        assert forall|i: int, j: int| 0 <= i < j < all.len() implies (#[trigger] all[i]).0 != (
        #[trigger] all[j]).0 by {
            if j < before.len() {
                assert(all[i] == before[i] && all[j] == before[j]);
            } else {
                assert(all[j].0 == fence_name(nodes - 1, j - before.len()));
                if i < before.len() {
                    assert(all[i] == before[i]);
                    assert(names_fence(before[i].0, nodes - 1));
                    let (node, phase) = choose|node: int, phase: int|
                        {
                            &&& 0 <= node < nodes - 1
                            &&& 0 <= phase < PHASES
                            &&& before[i].0 == #[trigger] fence_name(node, phase)
                        };
                    lemma_fence_names_differ(node, phase, nodes - 1, j - before.len());
                } else {
                    assert(all[i].0 == fence_name(nodes - 1, i - before.len()));
                    lemma_fence_names_differ(
                        nodes - 1,
                        i - before.len(),
                        nodes - 1,
                        j - before.len(),
                    );
                }
            }
        }
    }
}

/// A value is never overwritten by another of the same publication: all
/// published names differ.
pub proof fn law_published_names_differ(stats: RuntimeStats, i: int, j: int)
    requires
        0 <= i < j < published(stats).len(),
    ensures
        published(stats)[i].0 != published(stats)[j].0,
{
    reveal_strlit("RuntimeDiagnosticsRevision");
    let fences = fence_records(stats, NODES as nat);
    let all = published(stats);
    lemma_fence_records(stats, NODES as nat);
    let start = 1 + STATS;
    if j < start {
        lemma_stat_name_start(j - 1);
        assert(all[j].0 == stat_name(j - 1));
        if i > 0 {
            lemma_stat_names_differ(i - 1, j - 1);
            assert(all[i].0 == stat_name(i - 1));
        }
    } else {
        assert(all[j] == fences[j - start]);
        assert(names_fence(fences[j - start].0, NODES as int));
        let (node, phase) = choose|node: int, phase: int|
            {
                &&& 0 <= node < NODES
                &&& 0 <= phase < PHASES
                &&& fences[j - start].0 == #[trigger] fence_name(node, phase)
            };
        lemma_fence_name_start(node, phase);
        if i >= start {
            assert(all[i] == fences[i - start]);
        } else if i > 0 {
            lemma_stat_name_start(i - 1);
            assert(all[i].0 == stat_name(i - 1));
        }
    }
}

/// Checkpoints count in declaration order, each in a slot of its own.
pub proof fn law_checkpoint_slots(a: Stat, b: Stat)
    ensures
        Stat::CreateDeviceEnter.position() == 0,
        Stat::CreateDeviceOk.position() == 1,
        Stat::CreateProcessEnter.position() == 2,
        Stat::CreateProcessOk.position() == 3,
        Stat::EscapeEnter.position() == 4,
        Stat::EscapeReturn.position() == 5,
        Stat::SubmitEnter.position() == 6,
        Stat::SubmitReturn.position() == 7,
        Stat::IrqEnter.position() == 8,
        Stat::IrqHandled.position() == 9,
        Stat::DpcEnter.position() == 10,
        Stat::DpcReturn.position() == 11,
        Stat::ControlWake.position() == 12,
        Stat::ControlResponsesDone.position() == 13,
        Stat::ControlRequestsDone.position() == 14,
        Stat::DmaCompleteEnter.position() == 15,
        Stat::DmaCompleteReturn.position() == 16,
        Stat::NotifyEnter.position() == 17,
        Stat::NotifyReturn.position() == 18,
        Stat::Count.position() == 19,
        a.position() == b.position() ==> a == b,
{
}

/// A pass adds one to the counter of its own checkpoint, modulo 2^32, and
/// leaves every other counter as it was.
pub proof fn law_hit_counts_only_its_checkpoint(counters: Seq<u32>, stat: Stat, i: int)
    requires
        counters.len() == 19,
        stat != Stat::Count,
        0 <= i < 19,
    ensures
        after_hit(counters, stat).len() == 19,
        i == stat.position() ==> {
            &&& counters[i] < u32::MAX ==> after_hit(counters, stat)[i] == counters[i] + 1
            &&& counters[i] == u32::MAX ==> after_hit(counters, stat)[i] == 0
        },
        i != stat.position() ==> after_hit(counters, stat)[i] == counters[i],
{
}

/// The revision comes first; after it each checkpoint's counter appears under
/// that checkpoint's own name, in declaration order.
pub proof fn law_published_counters(stats: RuntimeStats)
    ensures
        published(stats).len() >= 20,
        published(stats)[0] == ("RuntimeDiagnosticsRevision"@, 61u32),
        published(stats)[1] == ("RtCreateDeviceEnter"@, stats.counters@[Stat::CreateDeviceEnter.position()]),
        published(stats)[2] == ("RtCreateDeviceOk"@, stats.counters@[Stat::CreateDeviceOk.position()]),
        published(stats)[3] == ("RtCreateProcessEnter"@, stats.counters@[Stat::CreateProcessEnter.position()]),
        published(stats)[4] == ("RtCreateProcessOk"@, stats.counters@[Stat::CreateProcessOk.position()]),
        published(stats)[5] == ("RtEscapeEnter"@, stats.counters@[Stat::EscapeEnter.position()]),
        published(stats)[6] == ("RtEscapeReturn"@, stats.counters@[Stat::EscapeReturn.position()]),
        published(stats)[7] == ("RtSubmitEnter"@, stats.counters@[Stat::SubmitEnter.position()]),
        published(stats)[8] == ("RtSubmitReturn"@, stats.counters@[Stat::SubmitReturn.position()]),
        published(stats)[9] == ("RtIrqEnter"@, stats.counters@[Stat::IrqEnter.position()]),
        published(stats)[10] == ("RtIrqHandled"@, stats.counters@[Stat::IrqHandled.position()]),
        published(stats)[11] == ("RtDpcEnter"@, stats.counters@[Stat::DpcEnter.position()]),
        published(stats)[12] == ("RtDpcReturn"@, stats.counters@[Stat::DpcReturn.position()]),
        published(stats)[13] == ("RtControlWake"@, stats.counters@[Stat::ControlWake.position()]),
        published(stats)[14] == ("RtControlResponsesDone"@, stats.counters@[Stat::ControlResponsesDone.position()]),
        published(stats)[15] == ("RtControlRequestsDone"@, stats.counters@[Stat::ControlRequestsDone.position()]),
        published(stats)[16] == ("RtDmaCompleteEnter"@, stats.counters@[Stat::DmaCompleteEnter.position()]),
        published(stats)[17] == ("RtDmaCompleteReturn"@, stats.counters@[Stat::DmaCompleteReturn.position()]),
        published(stats)[18] == ("RtNotifyEnter"@, stats.counters@[Stat::NotifyEnter.position()]),
        published(stats)[19] == ("RtNotifyReturn"@, stats.counters@[Stat::NotifyReturn.position()]),
{
}

/// Number of nodes below `nodes` of which a nonzero fence was seen in any phase.
pub open spec fn nodes_seen(stats: RuntimeStats, nodes: nat) -> nat
    decreases nodes,
{
    if nodes == 0 {
        0
    } else {
        nodes_seen(stats, (nodes - 1) as nat) + if exists|p: int|
            0 <= p < 3 && #[trigger] stats.fences@[p]@[nodes - 1] != 0 {
            1nat
        } else {
            0nat
        }
    }
}

/// Seen or not, in terms of the three phases.
proof fn lemma_node_seen(stats: RuntimeStats, node: int)
    ensures
        node_seen(stats, node) <==> exists|p: int|
            0 <= p < 3 && #[trigger] stats.fences@[p]@[node] != 0,
{
    if exists|p: int| 0 <= p < 3 && #[trigger] stats.fences@[p]@[node] != 0 {
        let p = choose|p: int| 0 <= p < 3 && #[trigger] stats.fences@[p]@[node] != 0;
        assert(p == 0 || p == 1 || p == 2);
    }
}

/// Where the fences of a seen node stand among the published ones.
proof fn lemma_fence_place(stats: RuntimeStats, nodes: nat, node: int, phase: int)
    requires
        nodes <= 64,
    ensures
        fence_records(stats, nodes).len() == 3 * nodes_seen(stats, nodes),
        0 <= node < nodes && 0 <= phase < 3 && (exists|p: int|
            0 <= p < 3 && #[trigger] stats.fences@[p]@[node] != 0) ==> {
            let at = 3 * nodes_seen(stats, node as nat) + phase;
            &&& at < fence_records(stats, nodes).len()
            &&& fence_records(stats, nodes)[at] == (
                fence_name(node, phase),
                stats.fences@[phase]@[node],
            )
        },
    decreases nodes,
{
    if nodes > 0 {
        let before = (nodes - 1) as nat;
        lemma_node_seen(stats, nodes - 1);
        lemma_fence_place(stats, before, node, phase);
        if node == nodes - 1 {
            assert(node as nat == before);
        }
    }
}

/// Fences follow the counters, node by node: a node of which any phase saw a
/// nonzero fence has all three phases published, one after the other with their
/// values, and nothing else is published.
pub proof fn law_published_fences(stats: RuntimeStats, node: int, phase: int)
    requires
        0 <= node < 64,
        0 <= phase < 3,
    ensures
        published(stats).len() == 20 + 3 * nodes_seen(stats, 64),
        (exists|p: int| 0 <= p < 3 && #[trigger] stats.fences@[p]@[node] != 0) ==> {
            let at = 20 + 3 * nodes_seen(stats, node as nat) + phase;
            &&& at < published(stats).len()
            &&& published(stats)[at] == (fence_name(node, phase), stats.fences@[phase]@[node])
        },
{
    lemma_fence_place(stats, 64, node, phase);
    let all = published(stats);
    let fences = fence_records(stats, 64);
    assert forall|i: int| 0 <= i < fences.len() implies all[20 + i] == #[trigger] fences[i] by {}
}

/// The value name of a fence is `RtFence`, the node in two digits, an underscore
/// and the phase.
pub proof fn law_fence_name_parts(node: int, phase: int)
    requires
        0 <= node < 100,
        0 <= phase < 3,
    ensures
        fence_name(node, phase) == "RtFence"@ + seq![
            (48 + node / 10) as char,
            (48 + node % 10) as char,
        ] + "_"@ + if phase == 0 {
            "Submit"@
        } else if phase == 1 {
            "Response"@
        } else {
            "Notify"@
        },
{
    reveal_with_fuel(crate::text::decimal, 3);
    assert(crate::text::decimal(node as nat, 2) =~= seq![
        (48 + node / 10) as char,
        (48 + node % 10) as char,
    ]);
}

/// The view of a list of records is the names and values, in order.
pub proof fn law_records_view(records: Seq<Record>, i: int)
    requires
        0 <= i < records.len(),
    ensures
        records_view(records).len() == records.len(),
        records_view(records)[i] == (records[i].name@, records[i].value),
{
}

} // verus!
