//! The display-mirror side: the lock-guarded single-slot exchange of the
//! composed debug canvas through a shared segment, and the bounding
//! rectangle of what changed between two frames of that canvas.

use vstd::prelude::*;

verus! {

use crate::shared_memory::{
    lemma_words_roundtrip, word_at, words_to_bytes, SegmentModel, SharedMemory, ShmNamespace,
    with_lock_state,
};

/// Whether the two canvases differ at flat pixel index `k`.
pub open spec fn pixel_diff(previous: Seq<u32>, current: Seq<u32>, k: int) -> bool {
    previous[k] != current[k]
}

/// The smallest rectangle covering every changed pixel between two frames
/// of the same dimensions, as `(x1, y1, x2, y2)` with exclusive right and
/// bottom edges; nothing when the frames are identical.
pub fn change_rect(previous: &Vec<u32>, current: &Vec<u32>, width: u32, height: u32) -> (r: Option<
    (i32, i32, i32, i32),
>)
    requires
        previous@.len() == current@.len(),
        current@.len() == width * height,
        width <= 0x7FFF_FFFF,
        height <= 0x7FFF_FFFF,
    ensures
        r is None <==> (forall|k: int|
            0 <= k < current@.len() ==> !pixel_diff(previous@, current@, k)),
        r matches Some((x1, y1, x2, y2)) ==> ({
            &&& 0 <= x1 < x2 <= width
            &&& 0 <= y1 < y2 <= height
            &&& (forall|k: int| 0 <= k < current@.len() && pixel_diff(previous@, current@, k)
                ==> x1 <= k % (width as int) < x2 && y1 <= k / (width as int) < y2)
            &&& (exists|k: int| 0 <= k < current@.len() && pixel_diff(previous@, current@, k)
                && k % (width as int) == x1)
            &&& (exists|k: int| 0 <= k < current@.len() && pixel_diff(previous@, current@, k)
                && k % (width as int) == x2 - 1)
            &&& (exists|k: int| 0 <= k < current@.len() && pixel_diff(previous@, current@, k)
                && k / (width as int) == y1)
            &&& (exists|k: int| 0 <= k < current@.len() && pixel_diff(previous@, current@, k)
                && k / (width as int) == y2 - 1)
        }),
{
    let pixel_count = current.len();
    let mut min_x: u32 = 0;
    let mut max_x: u32 = 0;
    let mut min_y: u32 = 0;
    let mut max_y: u32 = 0;
    let mut has_changes = false;
    let ghost w = width as int;
    let ghost mut wit_min_x: int = 0;
    let ghost mut wit_max_x: int = 0;
    let ghost mut wit_min_y: int = 0;
    let ghost mut wit_max_y: int = 0;
    for pixel_index in 0..pixel_count
        invariant
            previous@.len() == current@.len(),
            pixel_count == current@.len(),
            current@.len() == width * height,
            width <= 0x7FFF_FFFF,
            height <= 0x7FFF_FFFF,
            w == width as int,
            !has_changes ==> (forall|k: int|
                0 <= k < pixel_index ==> !pixel_diff(previous@, current@, k)),
            has_changes ==> ({
                &&& min_x <= max_x < width
                &&& min_y <= max_y < height
                &&& (forall|k: int| 0 <= k < pixel_index && pixel_diff(previous@, current@, k)
                    ==> min_x <= k % w <= max_x && min_y <= k / w <= max_y)
                &&& 0 <= wit_min_x < pixel_index && pixel_diff(previous@, current@, wit_min_x)
                    && wit_min_x % w == min_x
                &&& 0 <= wit_max_x < pixel_index && pixel_diff(previous@, current@, wit_max_x)
                    && wit_max_x % w == max_x
                &&& 0 <= wit_min_y < pixel_index && pixel_diff(previous@, current@, wit_min_y)
                    && wit_min_y / w == min_y
                &&& 0 <= wit_max_y < pixel_index && pixel_diff(previous@, current@, wit_max_y)
                    && wit_max_y / w == max_y
            }),
    {
        let new_pixel = current[pixel_index];
        let old_pixel = previous[pixel_index];
        if new_pixel != old_pixel {
            proof {
                assert(width > 0) by (nonlinear_arith)
                    requires
                        current@.len() == width * height,
                        pixel_index < current@.len(),
                ;
                assert(pixel_index as int % w < w && pixel_index as int / w < height)
                    by (nonlinear_arith)
                    requires
                        w == width as int,
                        width > 0,
                        height > 0,
                        0 <= pixel_index < width * height,
                ;
            }
            let x = (pixel_index % (width as usize)) as u32;
            let y = (pixel_index / (width as usize)) as u32;
            if !has_changes {
                min_x = x;
                max_x = x;
                min_y = y;
                max_y = y;
                has_changes = true;
                proof {
                    wit_min_x = pixel_index as int;
                    wit_max_x = pixel_index as int;
                    wit_min_y = pixel_index as int;
                    wit_max_y = pixel_index as int;
                }
            } else {
                if x < min_x {
                    min_x = x;
                    proof {
                        wit_min_x = pixel_index as int;
                    }
                }
                if x > max_x {
                    max_x = x;
                    proof {
                        wit_max_x = pixel_index as int;
                    }
                }
                if y < min_y {
                    min_y = y;
                    proof {
                        wit_min_y = pixel_index as int;
                    }
                }
                if y > max_y {
                    max_y = y;
                    proof {
                        wit_max_y = pixel_index as int;
                    }
                }
            }
        }
    }
    if has_changes {
        Some((min_x as i32, min_y as i32, max_x as i32 + 1, max_y as i32 + 1))
    } else {
        None
    }
}

/// The writer's half of the display exchange: under the advisory lock, the
/// whole composed canvas is copied into the segment's word view, then the
/// lock is released.  The reader's contract below guarantees it never sees
/// this copy half-written.
pub fn publish_canvas(
    shared_memory: &SharedMemory,
    ns: &mut ShmNamespace,
    canvas: &Vec<u32>,
)
    requires
        shared_memory.attached(old(ns)),
        4 * canvas@.len() == shared_memory.size_spec(),
        !old(ns).segment(shared_memory.id_spec())->Some_0.locked,
    ensures
        final(ns).segment(shared_memory.id_spec()) == Some(
            SegmentModel { data: words_to_bytes(canvas@), locked: false },
        ),
        forall|other: u32| other != shared_memory.id_spec() ==> final(ns).segment(other) == old(
            ns,
        ).segment(other),
{
    shared_memory.lock(ns);
    shared_memory.write_words(ns, canvas);
    shared_memory.unlock(ns);
}

/// The reader's half of the display exchange: under the advisory lock, the
/// whole word view is copied out, then the lock is released; the segment
/// is left exactly as found.  Polling faster than the writer publishes
/// only re-reads the same canvas.
pub fn fetch_canvas(shared_memory: &SharedMemory, ns: &mut ShmNamespace) -> (r: Vec<u32>)
    requires
        shared_memory.attached(old(ns)),
        !old(ns).segment(shared_memory.id_spec())->Some_0.locked,
    ensures
        r@.len() == shared_memory.size_spec() / 4,
        forall|i: int| 0 <= i < r@.len() ==> r@[i] == word_at(
            old(ns).segment(shared_memory.id_spec())->Some_0.data,
            i,
        ),
        final(ns).segment(shared_memory.id_spec()) == old(ns).segment(shared_memory.id_spec()),
        forall|other: u32| other != shared_memory.id_spec() ==> final(ns).segment(other) == old(
            ns,
        ).segment(other),
{
    let ghost before = old(ns).segment(shared_memory.id_spec())->Some_0;
    shared_memory.lock(ns);
    let r = shared_memory.read_words(ns);
    shared_memory.unlock(ns);
    proof {
        assert(ns.segment(shared_memory.id_spec())->Some_0 =~= before);
    }
    r
}

/// LAW (single-slot display exchange): a fetch that runs after a publish
/// returns exactly the published canvas, word for word -- the reader may
/// see the same canvas twice across polls, but never a half-written one.
pub proof fn lemma_fetch_sees_published_canvas(m: SegmentModel, canvas: Seq<u32>)
    requires
        m.data == words_to_bytes(canvas),
    ensures
        forall|i: int| 0 <= i < canvas.len() ==> word_at(m.data, i) == canvas[i],
{
    assert forall|i: int| 0 <= i < canvas.len() implies word_at(m.data, i) == canvas[i] by {
        lemma_words_roundtrip(canvas, i);
    }
}

} // verus!
