//! Filling volume usage data from the engine CLI.
//!
//! The engine's own endpoint reports usage unreliably, so after listing
//! volumes the shell runs the CLI's disk-usage report and decodes each line
//! into a plain entry. Depending on the CLI version an entry carries a
//! nested usage object or a top-level human-readable size and link count;
//! both shapes are merged here, the latter through the size parser. The
//! merge is best effort: entries that match no listed volume, and malformed
//! usage objects, change nothing.

use vstd::prelude::*;
use vstd::string::*;
use crate::size::{parse_docker_size, parse_size_spec};

verus! {

/// A volume's usage: bytes on disk and how many containers reference it.
#[derive(Clone, Copy, Debug, PartialEq, Eq, Structural)]
pub struct VolumeUsage {
    pub size: i64,
    pub ref_count: i64,
}

/// A listed volume: its name and, once known, its usage.
pub struct VolumeRecord {
    pub name: String,
    pub usage_data: Option<VolumeUsage>,
}

/// The usage object of one CLI report line: absent, present but
/// undecodable, or decoded.
pub enum CliUsage {
    Absent,
    Malformed,
    Parsed(VolumeUsage),
}

/// One decoded line of the CLI's volume report.
pub struct CliVolumeEntry {
    pub name: String,
    pub usage: CliUsage,
    pub size: Option<String>,
    pub links: Option<i64>,
}

/// Index of the first volume with this name, or -1 when none has it.
pub open spec fn find_volume(vols: Seq<VolumeRecord>, name: Seq<char>) -> int
    decreases vols.len(),
{
    if vols.len() == 0 {
        -1
    } else if vols[0].name@ == name {
        0
    } else {
        let r = find_volume(vols.drop_first(), name);
        if r == -1 {
            -1
        } else {
            1 + r
        }
    }
}

/// The usage a matched volume ends up with: a decoded usage object wins, a
/// malformed one changes nothing, and with no usage object at all a
/// top-level size is parsed and paired with the link count (missing link
/// counts become -1).
pub open spec fn merged_usage(prior: Option<VolumeUsage>, e: CliVolumeEntry) -> Option<
    VolumeUsage,
> {
    match e.usage {
        CliUsage::Parsed(u) => Some(u),
        CliUsage::Malformed => prior,
        CliUsage::Absent => match e.size {
            Some(s) => Some(
                VolumeUsage {
                    size: parse_size_spec(s@) as i64,
                    ref_count: match e.links {
                        Some(l) => l,
                        None => -1i64,
                    },
                },
            ),
            None => prior,
        },
    }
}

/// One report line applied to the volume list: only the first volume of
/// that name changes, and only its usage.
pub open spec fn apply_entry_spec(vols: Seq<VolumeRecord>, e: CliVolumeEntry) -> Seq<
    VolumeRecord,
> {
    let i = find_volume(vols, e.name@);
    if i == -1 {
        vols
    } else {
        vols.update(i, VolumeRecord { name: vols[i].name, usage_data: merged_usage(vols[i].usage_data, e) })
    }
}

/// The whole report applied, line by line, in order.
pub open spec fn apply_entries_spec(vols: Seq<VolumeRecord>, es: Seq<CliVolumeEntry>) -> Seq<
    VolumeRecord,
>
    decreases es.len(),
{
    if es.len() == 0 {
        vols
    } else {
        apply_entries_spec(apply_entry_spec(vols, es[0]), es.drop_first())
    }
}

proof fn lemma_find_volume_at(vols: Seq<VolumeRecord>, name: Seq<char>, i: int)
    requires
        0 <= i <= vols.len(),
        forall|j: int| 0 <= j < i ==> #[trigger] vols[j].name@ != name,
        i == vols.len() || vols[i].name@ == name,
    ensures
        i < vols.len() ==> find_volume(vols, name) == i,
        i == vols.len() ==> find_volume(vols, name) == -1,
    decreases i + 1, vols.len(),
{
    if vols.len() == 0 {
    } else if i == 0 {
        if vols[0].name@ != name {
            lemma_find_volume_at(vols.drop_first(), name, i);
        }
    } else {
        let rest = vols.drop_first();
        assert(forall|j: int| 0 <= j < i - 1 ==> #[trigger] rest[j].name@ != name);
        lemma_find_volume_at(rest, name, i - 1);
    }
}

proof fn lemma_apply_entries_push(
    vols: Seq<VolumeRecord>,
    es: Seq<CliVolumeEntry>,
    e: CliVolumeEntry,
)
    ensures
        apply_entries_spec(vols, es.push(e)) == apply_entry_spec(apply_entries_spec(vols, es), e),
    decreases es.len(),
{
    if es.len() == 0 {
        reveal_with_fuel(apply_entries_spec, 3);
        assert(es.push(e)[0] == e);
        assert(es.push(e).drop_first() =~= Seq::<CliVolumeEntry>::empty());
        assert(apply_entries_spec(vols, es) == vols);
        assert(apply_entries_spec(apply_entry_spec(vols, e), Seq::<CliVolumeEntry>::empty())
            == apply_entry_spec(vols, e));
    } else {
        assert(es.push(e)[0] == es[0]);
        assert(es.push(e).drop_first() =~= es.drop_first().push(e));
        lemma_apply_entries_push(apply_entry_spec(vols, es[0]), es.drop_first(), e);
    }
}

/// Apply one report line: find the first volume of that name and give it
/// the merged usage; a line that matches nothing changes nothing.
pub fn apply_usage_entry(volumes: &mut Vec<VolumeRecord>, entry: &CliVolumeEntry)
    ensures
        final(volumes)@ == apply_entry_spec(old(volumes)@, *entry),
{
    let n = volumes.len();
    let mut idx: Option<usize> = None;
    for i in 0..n
        invariant_except_break
            idx is None,
            forall|j: int| 0 <= j < i ==> #[trigger] volumes@[j].name@ != entry.name@,
        invariant
            n == volumes@.len(),
        ensures
            match idx {
                Some(i) => 0 <= i < volumes@.len() && volumes@[i as int].name@ == entry.name@
                    && (forall|j: int| 0 <= j < i ==> #[trigger] volumes@[j].name@ != entry.name@),
                None => forall|j: int|
                    0 <= j < volumes@.len() ==> #[trigger] volumes@[j].name@ != entry.name@,
            },
    {
        let hit = {
            let v: &VolumeRecord = &volumes[i];
            v.name.eq(&entry.name)
        };
        if hit {
            idx = Some(i);
            break;
        }
    }
    match idx {
        None => {
            proof {
                lemma_find_volume_at(volumes@, entry.name@, volumes@.len() as int);
            }
        },
        Some(i) => {
            proof {
                lemma_find_volume_at(volumes@, entry.name@, i as int);
            }
            let new_usage: Option<VolumeUsage> = match &entry.usage {
                CliUsage::Parsed(u) => Some(*u),
                CliUsage::Malformed => volumes[i].usage_data,
                CliUsage::Absent => {
                    match &entry.size {
                        Some(s) => {
                            let size = parse_docker_size(s.as_str());
                            let links = match entry.links {
                                Some(l) => l,
                                None => -1,
                            };
                            Some(VolumeUsage { size, ref_count: links })
                        },
                        None => volumes[i].usage_data,
                    }
                },
            };
            let slot: &mut VolumeRecord = &mut volumes[i];
            slot.usage_data = new_usage;
        },
    }
}

/// Apply the whole CLI report to the volume list, line by line.
pub fn augment_volumes(volumes: &mut Vec<VolumeRecord>, entries: &Vec<CliVolumeEntry>)
    ensures
        final(volumes)@ == apply_entries_spec(old(volumes)@, entries@),
{
    let n = entries.len();
    for i in 0..n
        invariant
            n == entries@.len(),
            volumes@ == apply_entries_spec(old(volumes)@, entries@.subrange(0, i as int)),
    {
        proof {
            assert(entries@.subrange(0, i + 1) =~= entries@.subrange(0, i as int).push(
                entries@[i as int],
            ));
            lemma_apply_entries_push(old(volumes)@, entries@.subrange(0, i as int), entries@[i as int]);
        }
        let e: &CliVolumeEntry = &entries[i];
        apply_usage_entry(volumes, e);
    }
    proof {
        assert(entries@.subrange(0, entries@.len() as int) =~= entries@);
    }
}

} // verus!
