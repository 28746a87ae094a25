//! The state of a worker's machine.
use crate::command::worker_protocol::HeartbeatPayload;
use crate::float::Single;
use crate::path;
use vstd::prelude::*;
use vstd::utf8::*;

verus! {

broadcast use vstd::string::group_string_axioms;

/// A disk and where it is mounted.
#[derive(Debug, PartialEq, Eq)]
pub struct DiskInfo {
    pub mount_point: String,
    pub available_space: u64,
    pub total_space: u64,
}

/// The place of the disk that holds a path: of those mounted above it the one
/// with the longest mount point, the last of several.
pub open spec fn holder(disks: Seq<DiskInfo>, p: Seq<char>) -> Option<int>
    decreases disks.len(),
{
    if disks.len() == 0 {
        None
    } else {
        let front = holder(disks.drop_last(), p);
        let last = disks.last();
        if path::is_under(p, last.mount_point@) && (front is None || encode_utf8(
            last.mount_point@,
        ).len() >= encode_utf8(disks[front->0].mount_point@).len()) {
            Some(disks.len() - 1)
        } else {
            front
        }
    }
}

/// The place of the disk that holds a path.
pub fn find_disk(disks: &[DiskInfo], p: &str) -> (r: Option<usize>)
    ensures
        match r {
            Some(i) => i < disks@.len() && holder(disks@, p@) == Some(i as int),
            None => holder(disks@, p@) is None,
        },
{
    let mut best: Option<usize> = None;
    let mut i: usize = 0;
    while i < disks.len()
        invariant
            i <= disks.len(),
            match best {
                Some(b) => b < i && holder(disks@.take(i as int), p@) == Some(b as int),
                None => holder(disks@.take(i as int), p@) is None,
            },
        decreases disks.len() - i,
    {
        proof {
            assert(disks@.take(i + 1).drop_last() =~= disks@.take(i as int));
            assert(disks@.take(i + 1).last() == disks@[i as int]);
            assert(forall|j: int| 0 <= j <= i ==> disks@.take(i + 1)[j] == disks@[j]);
        }
        let len: usize = disks[i].mount_point.as_str().as_bytes().len();
        let longer = match best {
            Some(b) => len >= disks[b].mount_point.as_str().as_bytes().len(),
            None => true,
        };
        if path::path_is_under(p, disks[i].mount_point.as_str()) && longer {
            best = Some(i);
        }
        i += 1;
    }
    assert(disks@.take(i as int) =~= disks@);
    best
}

/// What is measured of a machine and of the process.
#[derive(Debug, PartialEq, Eq)]
pub struct Measured {
    pub cpu_percent: Single,
    pub memory_rss_bytes: Option<u64>,
    pub memory_total_bytes: u64,
}

/// A sign of life, with the space on the disk that holds `p`.
pub fn heartbeat_payload(
    measured: &Measured,
    disks: &[DiskInfo],
    p: &str,
    active_video_id: Option<u64>,
) -> (r: HeartbeatPayload)
    ensures
        r.cpu_percent == Some(measured.cpu_percent),
        r.memory_rss_bytes == measured.memory_rss_bytes,
        r.memory_total_bytes == Some(measured.memory_total_bytes),
        r.active_video_id == active_video_id,
        match holder(disks@, p@) {
            Some(i) => r.disk_free_bytes == Some(disks@[i].available_space) && r.disk_total_bytes
                == Some(disks@[i].total_space),
            None => r.disk_free_bytes is None && r.disk_total_bytes is None,
        },
{
    let (free, total): (Option<u64>, Option<u64>) = match find_disk(disks, p) {
        Some(i) => (Some(disks[i].available_space), Some(disks[i].total_space)),
        None => (None, None),
    };
    HeartbeatPayload {
        cpu_percent: Some(measured.cpu_percent),
        memory_rss_bytes: measured.memory_rss_bytes,
        memory_total_bytes: Some(measured.memory_total_bytes),
        disk_free_bytes: free,
        disk_total_bytes: total,
        active_video_id,
    }
}

/// The disk that holds a path is the one whose mount point is the nearest above
/// it: no other one above it has a longer path. There is none only where no
/// mount point lies above it.
pub proof fn law_disk_is_the_nearest_mount(disks: Seq<DiskInfo>, p: Seq<char>)
    ensures
        match holder(disks, p) {
            Some(k) => {
                &&& 0 <= k < disks.len()
                &&& path::is_under(p, disks[k].mount_point@)
                &&& forall|i: int|
                    0 <= i < disks.len() && path::is_under(p, (#[trigger] disks[i]).mount_point@)
                        ==> encode_utf8(disks[i].mount_point@).len() <= encode_utf8(
                        disks[k].mount_point@,
                    ).len()
            },
            None => forall|i: int|
                0 <= i < disks.len() ==> !path::is_under(p, (#[trigger] disks[i]).mount_point@),
        },
    decreases disks.len(),
{
    if disks.len() > 0 {
        let front = disks.drop_last();
        law_disk_is_the_nearest_mount(front, p);
        assert forall|i: int| 0 <= i < front.len() implies #[trigger] disks[i] == front[i] by {}
        assert(disks[disks.len() - 1] == disks.last());
    }
}

} // verus!
