//! Layout of sprite atlases: the images are packed into the smallest bin of a growing
//! sequence of bin sizes that the rectangle packer accepts.
use vstd::prelude::*;
use std::collections::BTreeMap;
use rectangle_pack::{contains_smallest_box, pack_rects, volume_heuristic, GroupedRectsToPlace, RectToInsert, TargetBin};

verus! {

/// Where the packer put one image: its index in the input, then `x`, `y`, width and height.
pub type Placement = (usize, u32, u32, u32, u32);

/// What `rectangle_pack::pack_rects` answers for images of the given sizes (each of depth 1)
/// in one bin of the given size and depth 1: the placements in increasing image index, or
/// nothing when the images do not fit. `group` puts all images in that one group; without
/// it each image is a group of its own.
pub uninterp spec fn pack_layout(sizes: Seq<(u32, u32)>, group: Option<u8>, width: u32, height: u32) -> Option<Seq<Placement>>;

/// Calls `rectangle_pack::pack_rects` with the volume heuristic and the smallest-box
/// comparison. Claimed: the answer is the one `pack_layout` names for these arguments
/// (the packer keeps its results in ordered maps, so the answer depends on them alone).
#[verifier::external_body]
fn pack_into_bin(sizes: &Vec<(u32, u32)>, group: Option<u8>, width: u32, height: u32) -> (r: Option<Vec<Placement>>)
    ensures
        r matches Some(v) ==> pack_layout(sizes@, group, width, height) == Some(v@),
        r is None ==> pack_layout(sizes@, group, width, height) is None,
{
    let mut rects = GroupedRectsToPlace::<usize, u8>::new();
    for (id, (w, h)) in sizes.iter().enumerate() {
        rects.push_rect(id, group.map(|g| vec![g]), RectToInsert::new(*w, *h, 1));
    }
    let mut bins = BTreeMap::new();
    bins.insert(0u8, TargetBin::new(width, height, 1));
    let packed = pack_rects(&rects, &mut bins, &volume_heuristic, &contains_smallest_box).ok()?;
    Some(packed.packed_locations().iter().map(|(id, (_, l))| (*id, l.x(), l.y(), l.width(), l.height())).collect())
}

/// The bin sizes that the wgpu atlas tries: 128 x 128 first, then the smaller side
/// doubles, the width when the height is larger, else the height.
pub open spec fn alternating_size(k: nat) -> (int, int)
    decreases k,
{
    if k == 0 {
        (128, 128)
    } else {
        let (w, h) = alternating_size((k - 1) as nat);
        if h > w {
            (2 * w, h)
        } else {
            (w, 2 * h)
        }
    }
}

/// The bin sizes that the OpenGL atlas tries: 16 x 16 first, then both sides double.
pub open spec fn square_size(k: nat) -> (int, int)
    decreases k,
{
    if k == 0 {
        (16, 16)
    } else {
        let (w, h) = square_size((k - 1) as nat);
        (2 * w, 2 * h)
    }
}

/// Whether a bin size can be given to the packer.
pub open spec fn size_fits(d: (int, int)) -> bool {
    0 <= d.0 <= u32::MAX && 0 <= d.1 <= u32::MAX
}

/// The packer's answer for the `k`-th size of a sequence.
pub open spec fn try_size(sizes: Seq<(u32, u32)>, group: Option<u8>, size: spec_fn(nat) -> (int, int), k: nat) -> Option<Seq<Placement>> {
    pack_layout(sizes, group, size(k).0 as u32, size(k).1 as u32)
}

/// `r` is the packing in the first size of the sequence that the packer accepts, and
/// without a packing no size of the sequence that fits in `u32` is accepted.
pub open spec fn first_accepted(
    sizes: Seq<(u32, u32)>,
    group: Option<u8>,
    size: spec_fn(nat) -> (int, int),
    r: Option<(Seq<Placement>, u32, u32)>,
) -> bool {
    match r {
        Some((p, w, h)) => exists|k: nat| {
            &&& #[trigger] size(k) == (w as int, h as int)
            &&& try_size(sizes, group, size, k) == Some(p)
            &&& forall|j: nat| j < k ==> #[trigger] try_size(sizes, group, size, j) is None
        },
        None => forall|k: nat| size_fits(#[trigger] size(k)) ==> try_size(sizes, group, size, k) is None,
    }
}

/// A packing result with its placements taken by view.
pub open spec fn packing_view(r: Option<(Vec<Placement>, u32, u32)>) -> Option<(Seq<Placement>, u32, u32)> {
    match r {
        Some((p, w, h)) => Some((p@, w, h)),
        None => None,
    }
}

/// An atlas layout as placements, width and height.
pub open spec fn layout_view(r: Option<AtlasLayout>) -> Option<(Seq<Placement>, u32, u32)> {
    match r {
        Some(l) => Some((l.placements@, l.width, l.height)),
        None => None,
    }
}

proof fn lemma_alternating_grows(k: nat, j: nat)
    requires
        k <= j,
    ensures
        alternating_size(k).0 <= alternating_size(j).0,
        alternating_size(k).1 <= alternating_size(j).1,
        alternating_size(j).0 >= 128,
        alternating_size(j).1 >= 128,
    decreases j,
{
    if j > 0 {
        if k < j {
            lemma_alternating_grows(k, (j - 1) as nat);
        } else {
            lemma_alternating_grows((j - 1) as nat, (j - 1) as nat);
        }
    }
}

proof fn lemma_square_grows(k: nat, j: nat)
    requires
        k <= j,
    ensures
        square_size(k).0 <= square_size(j).0,
        square_size(k).1 <= square_size(j).1,
        square_size(j).0 >= 16,
        square_size(j).0 == square_size(j).1,
    decreases j,
{
    if j > 0 {
        if k < j {
            lemma_square_grows(k, (j - 1) as nat);
        } else {
            lemma_square_grows((j - 1) as nat, (j - 1) as nat);
        }
    }
}

/// What to do after the packer answered for one bin size.
pub enum PackStep {
    /// The images fit: the placements, and the bin's width and height.
    Packed(Vec<Placement>, u32, u32),
    /// Try again with this width and height.
    Grow(u32, u32),
    /// The next bin size would not fit in `u32`.
    GiveUp,
}

/// After a refusal in a `w` x `h` bin: double the smaller side, the width when the height
/// is larger, else the height.
pub open spec fn alternating_next(w: u32, h: u32) -> PackStep {
    if h > w {
        if w > u32::MAX / 2 { PackStep::GiveUp } else { PackStep::Grow((2 * w) as u32, h) }
    } else {
        if h > u32::MAX / 2 { PackStep::GiveUp } else { PackStep::Grow(w, (2 * h) as u32) }
    }
}

/// After a refusal in a `w` x `h` bin: double both sides.
pub open spec fn square_next(w: u32, h: u32) -> PackStep {
    if w > u32::MAX / 2 || h > u32::MAX / 2 { PackStep::GiveUp } else { PackStep::Grow((2 * w) as u32, (2 * h) as u32) }
}

/// The step of the wgpu atlas after the packer's `answer` for a `w` x `h` bin.
pub fn alternating_step(answer: Option<Vec<Placement>>, w: u32, h: u32) -> (r: PackStep)
    ensures
        answer matches Some(p) ==> (r matches PackStep::Packed(q, rw, rh) && q@ == p@ && rw == w && rh == h),
        answer is None ==> r == alternating_next(w, h),
{
    match answer {
        Some(p) => PackStep::Packed(p, w, h),
        None => {
            if h > w {
                if w > u32::MAX / 2 { PackStep::GiveUp } else { PackStep::Grow(w * 2, h) }
            } else {
                if h > u32::MAX / 2 { PackStep::GiveUp } else { PackStep::Grow(w, h * 2) }
            }
        },
    }
}

/// The step of the OpenGL atlas after the packer's `answer` for a `w` x `h` bin.
pub fn square_step(answer: Option<Vec<Placement>>, w: u32, h: u32) -> (r: PackStep)
    ensures
        answer matches Some(p) ==> (r matches PackStep::Packed(q, rw, rh) && q@ == p@ && rw == w && rh == h),
        answer is None ==> r == square_next(w, h),
{
    match answer {
        Some(p) => PackStep::Packed(p, w, h),
        None => {
            if w > u32::MAX / 2 || h > u32::MAX / 2 { PackStep::GiveUp } else { PackStep::Grow(w * 2, h * 2) }
        },
    }
}

/// Packs images of the given sizes into the first bin size of [`alternating_size`] that
/// holds them all. Gives nothing when no bin size up to the largest `u32` sides does.
pub fn pack_images(sizes: &Vec<(u32, u32)>) -> (r: Option<(Vec<Placement>, u32, u32)>)
    ensures
        first_accepted(sizes@, None, |k: nat| alternating_size(k), packing_view(r)),
{
    let ghost size = |k: nat| alternating_size(k);
    let mut atlas_w: u32 = 128;
    let mut atlas_h: u32 = 128;
    let ghost mut k: nat = 0;
    loop
        invariant
            size == (|k: nat| alternating_size(k)),
            alternating_size(k) == (atlas_w as int, atlas_h as int),
            forall|j: nat| j < k ==> #[trigger] try_size(sizes@, None, size, j) is None,
        decreases u32::MAX - atlas_w + u32::MAX - atlas_h,
    {
        let answer = pack_into_bin(sizes, None, atlas_w, atlas_h);
        assert(size(k) == (atlas_w as int, atlas_h as int));
        proof {
            lemma_alternating_grows(k, k);
        }
        match alternating_step(answer, atlas_w, atlas_h) {
            PackStep::Packed(placement, w, h) => {
                assert(try_size(sizes@, None, size, k) == Some(placement@));
                return Some((placement, w, h));
            },
            PackStep::Grow(w, h) => {
                assert(try_size(sizes@, None, size, k) is None);
                atlas_w = w;
                atlas_h = h;
                proof {
                    k = k + 1;
                }
            },
            PackStep::GiveUp => {
                assert(try_size(sizes@, None, size, k) is None);
                proof {
                    assert forall|j: nat| size_fits(#[trigger] size(j)) implies try_size(sizes@, None, size, j) is None by {
                        if j > k {
                            lemma_alternating_grows(k + 1, j);
                        }
                    }
                }
                return None;
            },
        }
    }
}

/// The bin size and placements of an OpenGL sprite atlas.
pub struct AtlasLayout {
    pub width: u32,
    pub height: u32,
    pub placements: Vec<Placement>,
}

/// Packs images of the given sizes, all in one group, into the first square bin of
/// [`square_size`] that holds them all. Gives nothing when no square bin up to the
/// largest `u32` side does.
pub fn export_layout(sizes: &Vec<(u32, u32)>) -> (r: Option<AtlasLayout>)
    ensures
        first_accepted(sizes@, Some(0u8), |k: nat| square_size(k), layout_view(r)),
{
    let ghost size = |k: nat| square_size(k);
    let mut max_width: u32 = 16;
    let mut max_height: u32 = 16;
    let ghost mut k: nat = 0;
    loop
        invariant
            size == (|k: nat| square_size(k)),
            square_size(k) == (max_width as int, max_height as int),
            forall|j: nat| j < k ==> #[trigger] try_size(sizes@, Some(0u8), size, j) is None,
        decreases u32::MAX - max_width,
    {
        let answer = pack_into_bin(sizes, Some(0u8), max_width, max_height);
        assert(size(k) == (max_width as int, max_height as int));
        proof {
            lemma_square_grows(k, k);
        }
        match square_step(answer, max_width, max_height) {
            PackStep::Packed(placements, w, h) => {
                return Some(AtlasLayout { width: w, height: h, placements });
            },
            PackStep::Grow(w, h) => {
                assert(try_size(sizes@, Some(0u8), size, k) is None);
                max_width = w;
                max_height = h;
                proof {
                    k = k + 1;
                }
            },
            PackStep::GiveUp => {
                assert(try_size(sizes@, Some(0u8), size, k) is None);
                proof {
                    assert forall|j: nat| size_fits(#[trigger] size(j)) implies try_size(sizes@, Some(0u8), size, j) is None by {
                        if j > k {
                            lemma_square_grows(k + 1, j);
                        }
                    }
                }
                return None;
            },
        }
    }
}

/// The sizes of the mipmap levels `0..levels` of an image: each level halves the previous one.
pub fn mip_sizes(width: u32, height: u32, levels: u8) -> (r: Vec<(u32, u32)>)
    requires
        levels <= 32,
    ensures
        r@.len() == levels,
        forall|l: int| 0 <= l < levels ==> #[trigger] r@[l] == (width >> (l as u32), height >> (l as u32)),
{
    let mut images: Vec<(u32, u32)> = Vec::new();
    let mut level: u8 = 0;
    while level < levels
        invariant
            level <= levels <= 32,
            images@.len() == level,
            forall|l: int| 0 <= l < level ==> #[trigger] images@[l] == (width >> (l as u32), height >> (l as u32)),
        decreases levels - level,
    {
        let shift: u32 = level as u32;
        images.push((width >> shift, height >> shift));
        level = level + 1;
    }
    images
}

} // verus!
