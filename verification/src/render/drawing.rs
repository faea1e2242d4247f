use vstd::prelude::*;

verus! {

/// The line segments of a polyline whose points may be off screen: one segment
/// `(i, i + 1)` for every pair of neighbouring points that are both visible, in
/// order. An off-screen point breaks the line.
pub open spec fn visible_segments_spec(visible: Seq<bool>) -> Seq<(usize, usize)>
    decreases visible.len(),
{
    if visible.len() < 2 {
        Seq::empty()
    } else {
        let before = visible_segments_spec(visible.drop_last());
        let i = visible.len() - 2;
        if visible[i] && visible[i + 1] {
            before.push((i as usize, (i + 1) as usize))
        } else {
            before
        }
    }
}

/// Which consecutive points of a projected trajectory are joined by a line:
/// `visible[i]` tells whether point `i` landed on the screen.
pub fn visible_segments(visible: &[bool]) -> (segments: Vec<(usize, usize)>)
    ensures
        segments@ == visible_segments_spec(visible@),
{
    let len = visible.len();
    let mut segments: Vec<(usize, usize)> = Vec::new();
    if len < 2 {
        return segments;
    }
    let mut i: usize = 1;
    assert(visible_segments_spec(visible@.take(1)) =~= segments@);
    while i < len
        invariant
            len == visible@.len(),
            1 <= i <= len,
            segments@ == visible_segments_spec(visible@.take(i as int)),
        decreases len - i,
    {
        let ghost prefix = visible@.take(i + 1);
        assert(prefix.drop_last() =~= visible@.take(i as int));
        if visible[i - 1] && visible[i] {
            segments.push((i - 1, i));
        }
        i = i + 1;
    }
    assert(visible@.take(len as int) =~= visible@);
    segments
}

/// Every segment joins two neighbouring visible points, segments come in increasing
/// order, and every pair of neighbouring visible points is joined by a segment.
pub proof fn lemma_visible_segments_exact(visible: Seq<bool>)
    requires
        visible.len() <= usize::MAX,
    ensures
        forall|k: int|
            0 <= k < visible_segments_spec(visible).len() ==> {
                let (a, b) = #[trigger] visible_segments_spec(visible)[k];
                &&& b == a + 1
                &&& b < visible.len()
                &&& visible[a as int]
                &&& visible[b as int]
            },
        forall|k: int, l: int|
            0 <= k < l < visible_segments_spec(visible).len() ==> (
            #[trigger] visible_segments_spec(visible)[k]).0 < (
            #[trigger] visible_segments_spec(visible)[l]).0,
        forall|i: int|
            0 <= i && i + 1 < visible.len() && #[trigger] visible[i] && visible[i + 1]
                ==> visible_segments_spec(visible).contains((i as usize, (i + 1) as usize)),
    decreases visible.len(),
{
    if visible.len() >= 2 {
        let shorter = visible.drop_last();
        lemma_visible_segments_exact(shorter);
        let before = visible_segments_spec(shorter);
        let segs = visible_segments_spec(visible);
        let last = visible.len() - 2;
        assert forall|k: int| 0 <= k < before.len() implies (#[trigger] before[k]).0 < last by {
            let (a, b) = before[k];
            assert(b < shorter.len());
        }
        assert forall|k: int| 0 <= k < segs.len() implies {
            let (a, b) = #[trigger] segs[k];
            &&& b == a + 1
            &&& b < visible.len()
            &&& visible[a as int]
            &&& visible[b as int]
        } by {
            if k < before.len() {
                let (a, b) = before[k];
                assert(segs[k] == before[k]);
                assert(shorter[a as int] == visible[a as int]);
                assert(shorter[b as int] == visible[b as int]);
            }
        }
        assert forall|k: int, l: int| 0 <= k < l < segs.len() implies (#[trigger] segs[k]).0 < (
        #[trigger] segs[l]).0 by {
            assert(segs[k] == before[k]);
            if l < before.len() {
                assert(segs[l] == before[l]);
            }
        }
        assert forall|i: int|
            0 <= i && i + 1 < visible.len() && #[trigger] visible[i] && visible[i + 1]
            implies segs.contains((i as usize, (i + 1) as usize)) by {
            if i < last {
                assert(shorter[i] == visible[i] && shorter[i + 1] == visible[i + 1]);
                assert(before.contains((i as usize, (i + 1) as usize)));
                let k = choose|k: int| 0 <= k < before.len() && before[k] == (i as usize, (i + 1) as usize);
                assert(segs[k] == before[k]);
            } else {
                assert(segs[before.len() as int] == (i as usize, (i + 1) as usize));
            }
        }
    }
}

} // verus!
