//! Damage: the rectangles that must be redrawn because two consecutive
//! frames differ there.

use vstd::prelude::*;
use crate::geometry::Rect;
use crate::layer::Layer;
use crate::layer::LayerView;
use crate::quad::Quad;

verus! {

/// The values of a run of layers.
pub open spec fn views(layers: Seq<Layer>) -> Seq<LayerView> {
    Seq::new(layers.len(), |i: int| layers[i]@)
}

/// Whether one of the rectangles holds the pixel `(px, py)`.
pub open spec fn covered(rects: Seq<Rect>, px: int, py: int) -> bool {
    exists|i: int| 0 <= i < rects.len() && (#[trigger] rects[i]).contains(px, py)
}

/// The damage of one position at which both frames have a layer: nothing if
/// the layers have the same clip and the same quads, both clips otherwise.
pub open spec fn layer_damage(previous: LayerView, current: LayerView) -> Seq<Rect> {
    if previous == current {
        Seq::empty()
    } else {
        seq![previous.bounds, current.bounds]
    }
}

/// The damage between two frames, compared layer by layer at equal
/// positions. A layer that only one frame has damages its whole clip.
pub open spec fn diff_frames(previous: Seq<LayerView>, current: Seq<LayerView>) -> Seq<Rect>
    decreases previous.len() + current.len(),
{
    if previous.len() == 0 && current.len() == 0 {
        Seq::empty()
    } else if previous.len() > current.len() {
        diff_frames(previous.drop_last(), current).push(previous.last().bounds)
    } else if current.len() > previous.len() {
        diff_frames(previous, current.drop_last()).push(current.last().bounds)
    } else {
        diff_frames(previous.drop_last(), current.drop_last()) + layer_damage(
            previous.last(),
            current.last(),
        )
    }
}

/// The quads of `quads` that may paint the pixel `(px, py)`, in paint order.
pub open spec fn quads_at(quads: Seq<Quad>, px: int, py: int) -> Seq<Quad>
    decreases quads.len(),
{
    if quads.len() == 0 {
        Seq::empty()
    } else if quads.last().bounds().contains(px, py) {
        quads_at(quads.drop_last(), px, py).push(quads.last())
    } else {
        quads_at(quads.drop_last(), px, py)
    }
}

/// What a layer paints at `(px, py)`: nothing outside its clip.
pub open spec fn layer_at(layer: LayerView, px: int, py: int) -> Seq<Quad> {
    if layer.bounds.contains(px, py) {
        quads_at(layer.quads, px, py)
    } else {
        Seq::empty()
    }
}

/// What a frame paints at `(px, py)`: the quads that decide the colour of
/// that pixel, first painted first.
pub open spec fn frame_at(frame: Seq<LayerView>, px: int, py: int) -> Seq<Quad>
    decreases frame.len(),
{
    if frame.len() == 0 {
        Seq::empty()
    } else {
        frame_at(frame.drop_last(), px, py) + layer_at(frame.last(), px, py)
    }
}

/// Joined runs of rectangles cover what either run covers.
pub proof fn lemma_covered_add(a: Seq<Rect>, b: Seq<Rect>, px: int, py: int)
    ensures
        covered(a + b, px, py) <==> covered(a, px, py) || covered(b, px, py),
{
    if covered(a, px, py) {
        let i = choose|i: int| 0 <= i < a.len() && (#[trigger] a[i]).contains(px, py);
        assert((a + b)[i] == a[i]);
    }
    if covered(b, px, py) {
        let i = choose|i: int| 0 <= i < b.len() && (#[trigger] b[i]).contains(px, py);
        assert((a + b)[a.len() + i] == b[i]);
    }
    if covered(a + b, px, py) {
        let i = choose|i: int| 0 <= i < (a + b).len() && (#[trigger] (a + b)[i]).contains(px, py);
        if i < a.len() {
            assert(a[i].contains(px, py));
        } else {
            assert(b[i - a.len()].contains(px, py));
        }
    }
}

/// Where the damage between two frames does not reach, both frames paint
/// the same quads in the same order.
pub proof fn lemma_diff_complete(
    previous: Seq<LayerView>,
    current: Seq<LayerView>,
    px: int,
    py: int,
)
    requires
        !covered(diff_frames(previous, current), px, py),
    ensures
        frame_at(previous, px, py) == frame_at(current, px, py),
    decreases previous.len() + current.len(),
{
    if previous.len() == 0 && current.len() == 0 {
    } else if previous.len() > current.len() {
        let rest = diff_frames(previous.drop_last(), current);
        assert(rest.push(previous.last().bounds) =~= rest + seq![previous.last().bounds]);
        lemma_covered_add(rest, seq![previous.last().bounds], px, py);
        assert(seq![previous.last().bounds][0] == previous.last().bounds);
        lemma_diff_complete(previous.drop_last(), current, px, py);
    } else if current.len() > previous.len() {
        let rest = diff_frames(previous, current.drop_last());
        assert(rest.push(current.last().bounds) =~= rest + seq![current.last().bounds]);
        lemma_covered_add(rest, seq![current.last().bounds], px, py);
        assert(seq![current.last().bounds][0] == current.last().bounds);
        lemma_diff_complete(previous, current.drop_last(), px, py);
    } else {
        let rest = diff_frames(previous.drop_last(), current.drop_last());
        let here = layer_damage(previous.last(), current.last());
        lemma_covered_add(rest, here, px, py);
        lemma_diff_complete(previous.drop_last(), current.drop_last(), px, py);
        if previous.last() != current.last() {
            assert(here[0] == previous.last().bounds);
            assert(here[1] == current.last().bounds);
        }
    }
}

/// A frame compared with itself has no damage.
pub proof fn lemma_diff_same(frame: Seq<LayerView>)
    ensures
        diff_frames(frame, frame) == Seq::<Rect>::empty(),
    decreases frame.len(),
{
    if frame.len() > 0 {
        lemma_diff_same(frame.drop_last());
    }
}

/// The damage between the previous frame and the current one: for each
/// position that both have, both clips if the two layers differ; for each
/// layer that only one of them has, its clip.
pub fn diff(previous: &[Layer], current: &[Layer]) -> (damage: Vec<Rect>)
    ensures
        damage@ == diff_frames(views(previous@), views(current@)),
{
    let ghost p = views(previous@);
    let ghost c = views(current@);
    let common = if previous.len() < current.len() {
        previous.len()
    } else {
        current.len()
    };
    let mut damage: Vec<Rect> = Vec::new();
    let mut i: usize = 0;
    while i < common
        invariant
            i <= common,
            common <= previous@.len(),
            common <= current@.len(),
            p == views(previous@),
            c == views(current@),
            damage@ == diff_frames(p.take(i as int), c.take(i as int)),
        decreases common - i,
    {
        proof {
            assert(p.take(i + 1).drop_last() =~= p.take(i as int));
            assert(c.take(i + 1).drop_last() =~= c.take(i as int));
        }
        if !previous[i].same_content(&current[i]) {
            damage.push(previous[i].bounds);
            damage.push(current[i].bounds);
            assert(damage@ =~= diff_frames(p.take(i as int), c.take(i as int)) + layer_damage(
                p[i as int],
                c[i as int],
            ));
        } else {
            assert(damage@ =~= diff_frames(p.take(i as int), c.take(i as int)) + layer_damage(
                p[i as int],
                c[i as int],
            ));
        }
        i += 1;
    }
    while i < previous.len()
        invariant
            common <= i <= previous@.len(),
            common == current@.len() || common == previous@.len(),
            common <= current@.len(),
            p == views(previous@),
            c == views(current@),
            damage@ == diff_frames(p.take(i as int), c.take(common as int)),
        decreases previous.len() - i,
    {
        proof {
            assert(p.take(i + 1).drop_last() =~= p.take(i as int));
            assert(c.take(common as int) =~= c);
        }
        damage.push(previous[i].bounds);
        i += 1;
    }
    let mut k: usize = common;
    proof {
        assert(p.take(i as int) =~= p);
    }
    while k < current.len()
        invariant
            common <= k <= current@.len(),
            common == previous@.len() || k == current@.len(),
            p == views(previous@),
            c == views(current@),
            damage@ == diff_frames(p, c.take(k as int)),
        decreases current.len() - k,
    {
        proof {
            assert(c.take(k + 1).drop_last() =~= c.take(k as int));
        }
        damage.push(current[k].bounds);
        k += 1;
    }
    proof {
        assert(c.take(k as int) =~= c);
    }
    damage
}

/// The most regions that grouping hands out. Beyond it the damage is one
/// rectangle around everything.
pub const MAX_REGIONS: usize = 16;

/// The first position at or after `from` whose region touches `r`; the
/// length of `regions` if there is none.
pub open spec fn first_touching(regions: Seq<Rect>, r: Rect, from: int) -> int
    decreases regions.len() - from,
{
    if from < 0 || from >= regions.len() {
        regions.len() as int
    } else if regions[from].touches(r) {
        from
    } else {
        first_touching(regions, r, from + 1)
    }
}

/// Adds `r` to `regions`: as long as a region touches it, the first such
/// region leaves and `r` grows to the rectangle around both.
pub open spec fn absorb(regions: Seq<Rect>, r: Rect) -> Seq<Rect>
    decreases regions.len(),
{
    let i = first_touching(regions, r, 0);
    if 0 <= i < regions.len() {
        absorb(regions.remove(i), regions[i].spec_union(r))
    } else {
        regions.push(r)
    }
}

/// The damage merged rectangle by rectangle, in order; what lies outside
/// `bounds` is cut off first.
pub open spec fn merged(damage: Seq<Rect>, bounds: Rect) -> Seq<Rect>
    decreases damage.len(),
{
    if damage.len() == 0 {
        Seq::empty()
    } else {
        let before = merged(damage.drop_last(), bounds);
        match damage.last().spec_intersection(bounds) {
            Some(part) => absorb(before, part),
            None => before,
        }
    }
}

/// The rectangle around all of `regions`.
pub open spec fn hull(regions: Seq<Rect>) -> Rect
    decreases regions.len(),
{
    if regions.len() == 0 {
        Rect { x: 0, y: 0, width: 0, height: 0 }
    } else if regions.len() == 1 {
        regions[0]
    } else {
        hull(regions.drop_last()).spec_union(regions.last())
    }
}

/// The regions to redraw for `damage` inside `bounds`: the merged damage,
/// or one rectangle around it when there are more than `MAX_REGIONS`.
pub open spec fn grouped(damage: Seq<Rect>, bounds: Rect) -> Seq<Rect> {
    let regions = merged(damage, bounds);
    if regions.len() <= MAX_REGIONS {
        regions
    } else {
        seq![hull(regions)]
    }
}

/// Whether each region holds a pixel and lies within `bounds`, and no two
/// of them touch.
pub open spec fn separated(regions: Seq<Rect>, bounds: Rect) -> bool {
    &&& forall|i: int| 0 <= i < regions.len() ==> !(#[trigger] regions[i]).is_empty() && regions[i].within(bounds)
    &&& forall|i: int, j: int|
        0 <= i < regions.len() && 0 <= j < regions.len() && i != j ==> !(#[trigger] regions[i]).touches(
            #[trigger] regions[j],
        )
}

/// Between `from` and the first region that touches `r`, no region does.
proof fn lemma_first_touching(regions: Seq<Rect>, r: Rect, from: int)
    requires
        0 <= from <= regions.len(),
    ensures
        from <= first_touching(regions, r, from) <= regions.len(),
        first_touching(regions, r, from) < regions.len() ==> regions[first_touching(regions, r, from)].touches(r),
        forall|k: int| from <= k < first_touching(regions, r, from) ==> !(#[trigger] regions[k]).touches(r),
    decreases regions.len() - from,
{
    if from < regions.len() && !regions[from].touches(r) {
        lemma_first_touching(regions, r, from + 1);
    }
}

/// If no region before `upto` touches `r`, the search may start at `upto`.
proof fn lemma_first_touching_skip(regions: Seq<Rect>, r: Rect, from: int, upto: int)
    requires
        0 <= from <= upto <= regions.len(),
        forall|k: int| from <= k < upto ==> !(#[trigger] regions[k]).touches(r),
    ensures
        first_touching(regions, r, from) == first_touching(regions, r, upto),
    decreases upto - from,
{
    if from < upto {
        lemma_first_touching_skip(regions, r, from + 1, upto);
    }
}

/// Regions that are apart and inside the bounds stay so when one of them
/// leaves.
proof fn lemma_remove_separated(regions: Seq<Rect>, i: int, bounds: Rect)
    requires
        separated(regions, bounds),
        0 <= i < regions.len(),
    ensures
        separated(regions.remove(i), bounds),
{
    let rest = regions.remove(i);
    assert forall|a: int| 0 <= a < rest.len() implies !(#[trigger] rest[a]).is_empty() && rest[a].within(
        bounds,
    ) by {
        if a < i {
            assert(rest[a] == regions[a]);
        } else {
            assert(rest[a] == regions[a + 1]);
        }
    }
    assert forall|a: int, b: int| 0 <= a < rest.len() && 0 <= b < rest.len() && a != b implies !(
    #[trigger] rest[a]).touches(#[trigger] rest[b]) by {
        let a0 = if a < i { a } else { a + 1 };
        let b0 = if b < i { b } else { b + 1 };
        assert(rest[a] == regions[a0]);
        assert(rest[b] == regions[b0]);
    }
}

/// Absorbing a rectangle keeps the regions apart and inside the bounds.
pub proof fn lemma_absorb_separated(regions: Seq<Rect>, r: Rect, bounds: Rect)
    requires
        separated(regions, bounds),
        !r.is_empty(),
        r.within(bounds),
    ensures
        separated(absorb(regions, r), bounds),
        absorb(regions, r).len() >= 1,
    decreases regions.len(),
{
    lemma_first_touching(regions, r, 0);
    let i = first_touching(regions, r, 0);
    if i < regions.len() {
        let rest = regions.remove(i);
        let grown = regions[i].spec_union(r);
        lemma_remove_separated(regions, i, bounds);
        lemma_absorb_separated(rest, grown, bounds);
    } else {
        let out = regions.push(r);
        assert forall|a: int, b: int| 0 <= a < out.len() && 0 <= b < out.len() && a != b implies !(
        #[trigger] out[a]).touches(#[trigger] out[b]) by {
            if a < regions.len() && b < regions.len() {
                assert(out[a] == regions[a]);
                assert(out[b] == regions[b]);
            } else if a < regions.len() {
                assert(!regions[a].touches(r));
            } else {
                assert(!regions[b].touches(r));
            }
        }
    }
}

/// Absorbing a rectangle loses no pixel: what the regions or the rectangle
/// held is held afterwards.
pub proof fn lemma_absorb_covers(regions: Seq<Rect>, r: Rect, bounds: Rect, px: int, py: int)
    requires
        separated(regions, bounds),
        !r.is_empty(),
        r.within(bounds),
        covered(regions, px, py) || r.contains(px, py),
    ensures
        covered(absorb(regions, r), px, py),
    decreases regions.len(),
{
    lemma_first_touching(regions, r, 0);
    let i = first_touching(regions, r, 0);
    if i < regions.len() {
        let rest = regions.remove(i);
        let grown = regions[i].spec_union(r);
        lemma_remove_separated(regions, i, bounds);
        if !grown.contains(px, py) {
            let k = choose|k: int| 0 <= k < regions.len() && (#[trigger] regions[k]).contains(px, py);
            if k < i {
                assert(rest[k] == regions[k]);
            } else {
                assert(rest[k - 1] == regions[k]);
            }
            assert(covered(rest, px, py));
        }
        lemma_absorb_covers(rest, grown, bounds, px, py);
    } else {
        let out = regions.push(r);
        if r.contains(px, py) {
            assert(out[regions.len() as int] == r);
        } else {
            let k = choose|k: int| 0 <= k < regions.len() && (#[trigger] regions[k]).contains(px, py);
            assert(out[k] == regions[k]);
        }
    }
}

/// The merged damage is a set of regions inside the bounds of which no two
/// touch.
pub proof fn lemma_merged_separated(damage: Seq<Rect>, bounds: Rect)
    ensures
        separated(merged(damage, bounds), bounds),
    decreases damage.len(),
{
    if damage.len() > 0 {
        lemma_merged_separated(damage.drop_last(), bounds);
        match damage.last().spec_intersection(bounds) {
            Some(part) => {
                lemma_absorb_separated(merged(damage.drop_last(), bounds), part, bounds);
            },
            None => {},
        }
    }
}

/// Merging loses no damaged pixel inside the bounds.
pub proof fn lemma_merged_covers(damage: Seq<Rect>, bounds: Rect, px: int, py: int)
    requires
        covered(damage, px, py),
        bounds.contains(px, py),
    ensures
        covered(merged(damage, bounds), px, py),
    decreases damage.len(),
{
    let k = choose|k: int| 0 <= k < damage.len() && (#[trigger] damage[k]).contains(px, py);
    let front = damage.drop_last();
    let before = merged(front, bounds);
    lemma_merged_separated(front, bounds);
    if k < damage.len() - 1 {
        assert(front[k] == damage[k]);
        lemma_merged_covers(front, bounds, px, py);
    }
    match damage.last().spec_intersection(bounds) {
        Some(part) => {
            lemma_absorb_covers(before, part, bounds, px, py);
        },
        None => {},
    }
}

/// The rectangle around regions inside the bounds lies inside the bounds
/// and holds every pixel of every region.
proof fn lemma_hull(regions: Seq<Rect>, bounds: Rect)
    requires
        regions.len() >= 1,
        forall|i: int| 0 <= i < regions.len() ==> !(#[trigger] regions[i]).is_empty() && regions[i].within(bounds),
    ensures
        !hull(regions).is_empty(),
        hull(regions).within(bounds),
        forall|i: int| 0 <= i < regions.len() ==> (#[trigger] regions[i]).within(hull(regions)),
    decreases regions.len(),
{
    if regions.len() > 1 {
        let front = regions.drop_last();
        assert forall|i: int| 0 <= i < front.len() implies !(#[trigger] front[i]).is_empty() && front[i].within(
            bounds,
        ) by {
            assert(front[i] == regions[i]);
        }
        lemma_hull(front, bounds);
        assert forall|i: int| 0 <= i < regions.len() implies (#[trigger] regions[i]).within(hull(regions)) by {
            if i < front.len() {
                assert(front[i] == regions[i]);
                assert(front[i].within(hull(front)));
            }
        }
    }
}

/// The grouped damage is at most `MAX_REGIONS` regions, each with a pixel
/// and inside the bounds, of which no two touch or overlap.
pub proof fn lemma_grouped_separated(damage: Seq<Rect>, bounds: Rect)
    ensures
        separated(grouped(damage, bounds), bounds),
        grouped(damage, bounds).len() <= MAX_REGIONS,
        forall|i: int, j: int|
            0 <= i < grouped(damage, bounds).len() && 0 <= j < grouped(damage, bounds).len() && i != j ==> !(
            #[trigger] grouped(damage, bounds)[i]).overlaps(#[trigger] grouped(damage, bounds)[j]),
{
    lemma_merged_separated(damage, bounds);
    let regions = merged(damage, bounds);
    if regions.len() > MAX_REGIONS {
        lemma_hull(regions, bounds);
    }
}

/// Grouping loses no damaged pixel inside the bounds.
pub proof fn lemma_grouped_covers(damage: Seq<Rect>, bounds: Rect, px: int, py: int)
    requires
        covered(damage, px, py),
        bounds.contains(px, py),
    ensures
        covered(grouped(damage, bounds), px, py),
{
    lemma_merged_covers(damage, bounds, px, py);
    lemma_merged_separated(damage, bounds);
    let regions = merged(damage, bounds);
    if regions.len() > MAX_REGIONS {
        lemma_hull(regions, bounds);
        let k = choose|k: int| 0 <= k < regions.len() && (#[trigger] regions[k]).contains(px, py);
        assert(regions[k].within(hull(regions)));
        assert(seq![hull(regions)][0].contains(px, py));
    }
}

/// Damage that lies outside the bounds, or holds no pixel, groups to
/// nothing; any other damage groups to at least one region.
pub proof fn lemma_grouped_empty(damage: Seq<Rect>, bounds: Rect)
    ensures
        grouped(damage, bounds).len() == 0 <==> forall|i: int|
            0 <= i < damage.len() ==> !(#[trigger] damage[i]).overlaps(bounds),
    decreases damage.len(),
{
    if damage.len() > 0 {
        let front = damage.drop_last();
        lemma_grouped_empty(front, bounds);
        lemma_merged_separated(front, bounds);
        match damage.last().spec_intersection(bounds) {
            Some(part) => {
                lemma_absorb_separated(merged(front, bounds), part, bounds);
                assert(damage[damage.len() - 1].overlaps(bounds));
            },
            None => {
                assert forall|i: int| 0 <= i < front.len() implies front[i] == damage[i] by {}
                if forall|i: int| 0 <= i < front.len() ==> !(#[trigger] front[i]).overlaps(bounds) {
                    assert forall|i: int| 0 <= i < damage.len() implies !(#[trigger] damage[i]).overlaps(
                        bounds,
                    ) by {
                        if i < front.len() {
                            assert(front[i] == damage[i]);
                        }
                    }
                } else {
                    let k = choose|k: int| 0 <= k < front.len() && (#[trigger] front[k]).overlaps(bounds);
                    assert(damage[k] == front[k]);
                }
            },
        }
    }
}

/// Adds `r` to the regions, merging it with every region it comes to touch.
fn absorb_region(regions: &mut Vec<Rect>, r: Rect, Ghost(bounds): Ghost<Rect>)
    requires
        separated(old(regions)@, bounds),
        !r.is_empty(),
        r.within(bounds),
    ensures
        final(regions)@ == absorb(old(regions)@, r),
{
    let mut grown = r;
    let mut i: usize = 0;
    while i < regions.len()
        invariant
            i <= regions@.len(),
            separated(regions@, bounds),
            !grown.is_empty(),
            grown.within(bounds),
            absorb(regions@, grown) == absorb(old(regions)@, r),
            forall|k: int| 0 <= k < i ==> !(#[trigger] regions@[k]).touches(grown),
        decreases regions@.len(), regions@.len() - i,
    {
        if regions[i].is_touching(&grown) {
            proof {
                lemma_first_touching_skip(regions@, grown, 0, i as int);
                lemma_remove_separated(regions@, i as int, bounds);
            }
            let taken = regions.remove(i);
            grown = taken.union(&grown);
            i = 0;
        } else {
            i += 1;
        }
    }
    proof {
        lemma_first_touching_skip(regions@, grown, 0, regions@.len() as int);
    }
    regions.push(grown);
}

/// Groups damage into the regions to redraw inside `bounds`: each
/// rectangle is cut to the bounds and merged with the regions it touches;
/// more than `MAX_REGIONS` regions become one rectangle around them all.
pub fn group(damage: Vec<Rect>, bounds: Rect) -> (regions: Vec<Rect>)
    ensures
        regions@ == grouped(damage@, bounds),
{
    let mut regions: Vec<Rect> = Vec::new();
    let mut i: usize = 0;
    while i < damage.len()
        invariant
            i <= damage@.len(),
            regions@ == merged(damage@.take(i as int), bounds),
        decreases damage@.len() - i,
    {
        proof {
            assert(damage@.take(i + 1).drop_last() =~= damage@.take(i as int));
            lemma_merged_separated(damage@.take(i as int), bounds);
        }
        match damage[i].intersection(&bounds) {
            Some(part) => {
                absorb_region(&mut regions, part, Ghost(bounds));
            },
            None => {},
        }
        i += 1;
    }
    proof {
        assert(damage@.take(i as int) =~= damage@);
        lemma_merged_separated(damage@, bounds);
    }
    if regions.len() <= MAX_REGIONS {
        return regions;
    }
    let mut around = regions[0];
    let mut k: usize = 1;
    while k < regions.len()
        invariant
            1 <= k <= regions@.len(),
            separated(regions@, bounds),
            around == hull(regions@.take(k as int)),
            !around.is_empty(),
            around.within(bounds),
        decreases regions@.len() - k,
    {
        proof {
            assert(regions@.take(k + 1).drop_last() =~= regions@.take(k as int));
        }
        around = around.union(&regions[k]);
        k += 1;
    }
    proof {
        assert(regions@.take(k as int) =~= regions@);
    }
    let mut one: Vec<Rect> = Vec::new();
    one.push(around);
    one
}

/// The regions to redraw reach every pixel of the viewport at which the
/// two frames paint differently, and none of them leaves the viewport.
pub proof fn lemma_damage_complete(
    previous: Seq<LayerView>,
    current: Seq<LayerView>,
    viewport: Rect,
    px: int,
    py: int,
)
    requires
        viewport.contains(px, py),
        frame_at(previous, px, py) != frame_at(current, px, py),
    ensures
        covered(grouped(diff_frames(previous, current), viewport), px, py),
        forall|i: int|
            0 <= i < grouped(diff_frames(previous, current), viewport).len() ==> (#[trigger] grouped(
                diff_frames(previous, current),
                viewport,
            )[i]).within(viewport),
{
    let damage = diff_frames(previous, current);
    if !covered(damage, px, py) {
        lemma_diff_complete(previous, current, px, py);
    }
    lemma_grouped_covers(damage, viewport, px, py);
    lemma_grouped_separated(damage, viewport);
}

} // verus!
