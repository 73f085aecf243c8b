use vstd::prelude::*;

use crate::contour::{combine_model, ends_in_range, Contour, ContourModel};
use crate::segment::{lemma_endpoints_in_range, segment_in_range, Segment};

verus! {

/// The models of a run of contours, in order.
pub open spec fn views_of(cs: Seq<Contour>) -> Seq<ContourModel> {
    cs.map_values(|c: Contour| c@)
}

/// One merging step of the working set: the pivot `head` is held against the
/// tail contours in order, and the first one it joins with is replaced — the
/// joined contour goes to the end of the tail, everything else keeps its
/// place.  `None` when the pivot joins with nothing.
pub open spec fn collapse_once_model(
    head: ContourModel,
    tail: Seq<ContourModel>,
) -> Option<Seq<ContourModel>>
    decreases tail.len(),
{
    if tail.len() == 0 {
        None
    } else {
        match combine_model(head, tail[0]) {
            Some(c) => Some(tail.drop_first().push(c)),
            None => match collapse_once_model(head, tail.drop_first()) {
                Some(rest) => Some(seq![tail[0]] + rest),
                None => None,
            },
        }
    }
}

pub proof fn lemma_collapse_once_len(head: ContourModel, tail: Seq<ContourModel>)
    ensures
        match collapse_once_model(head, tail) {
            Some(nt) => nt.len() == tail.len(),
            None => true,
        },
    decreases tail.len(),
{
    if tail.len() > 0 {
        lemma_collapse_once_len(head, tail.drop_first());
    }
}

/// Exhausts the working set: the first contour is taken as pivot; if it joins
/// with a later one the merged set is worked on afresh, otherwise the pivot
/// is finished — either irreducibly open or closed — and set aside.  Every
/// step shrinks the set by one, so the process ends with all of them set
/// aside, in the order they became irreducible.
pub open spec fn collapse_model(cs: Seq<ContourModel>) -> Seq<ContourModel>
    decreases cs.len(),
    via collapse_model_decreases
{
    if cs.len() == 0 {
        Seq::empty()
    } else {
        match collapse_once_model(cs[0], cs.drop_first()) {
            Some(nc) => collapse_model(nc),
            None => seq![cs[0]] + collapse_model(cs.drop_first()),
        }
    }
}

#[via_fn]
proof fn collapse_model_decreases(cs: Seq<ContourModel>) {
    if cs.len() > 0 {
        lemma_collapse_once_len(cs[0], cs.drop_first());
    }
}

/// The contours of the run whose endpoint lookup found free ends, in order.
pub open spec fn open_part(cs: Seq<ContourModel>) -> Seq<ContourModel>
    decreases cs.len(),
{
    if cs.len() == 0 {
        Seq::empty()
    } else {
        let rest = open_part(cs.drop_last());
        if cs.last().end_points is Some {
            rest.push(cs.last())
        } else {
            rest
        }
    }
}

/// The contours of the run that are already closed, in order.
pub open spec fn closed_part(cs: Seq<ContourModel>) -> Seq<ContourModel>
    decreases cs.len(),
{
    if cs.len() == 0 {
        Seq::empty()
    } else {
        let rest = closed_part(cs.drop_last());
        if cs.last().end_points is Some {
            rest
        } else {
            rest.push(cs.last())
        }
    }
}

/// Each raw segment wrapped as a contour of its own.
pub open spec fn single_models_of(segs: Seq<Segment>) -> Seq<ContourModel> {
    segs.map_values(|s: Segment| crate::offset::single_segment_model(s))
}

/// What assembling a flat run of segments yields: every segment becomes a
/// one-segment contour; those born closed (circles, shapes with no free
/// ends) pass straight to the output, and the open ones are merged until no
/// further join is possible.  Fragments that never find a partner come out
/// still open rather than being dropped.
pub open spec fn assemble_model(segs: Seq<Segment>) -> Seq<ContourModel> {
    let ms = single_models_of(segs);
    closed_part(ms) + collapse_model(open_part(ms))
}

/// If the pivot joins nothing of the tail, one merging step yields nothing.
pub proof fn lemma_collapse_once_no_match(head: ContourModel, tail: Seq<ContourModel>)
    requires
        forall|j: int| 0 <= j < tail.len() ==> combine_model(head, #[trigger] tail[j]) is None,
    ensures
        collapse_once_model(head, tail) is None,
    decreases tail.len(),
{
    if tail.len() > 0 {
        assert(forall|j: int|
            0 <= j < tail.drop_first().len() ==> combine_model(
                head,
                #[trigger] tail.drop_first()[j],
            ) is None);
        lemma_collapse_once_no_match(head, tail.drop_first());
    }
}

/// If the first tail contour the pivot joins with stands at `k`, one merging
/// step removes it and appends the joined contour.
pub proof fn lemma_collapse_once_first_match(
    head: ContourModel,
    tail: Seq<ContourModel>,
    k: int,
    c: ContourModel,
)
    requires
        0 <= k < tail.len(),
        forall|j: int| 0 <= j < k ==> combine_model(head, #[trigger] tail[j]) is None,
        combine_model(head, tail[k]) == Some(c),
    ensures
        collapse_once_model(head, tail) == Some(tail.remove(k).push(c)),
    decreases k,
{
    if k == 0 {
        assert(tail.remove(0) =~= tail.drop_first());
    } else {
        assert(forall|j: int|
            0 <= j < k - 1 ==> combine_model(head, #[trigger] tail.drop_first()[j]) is None);
        lemma_collapse_once_first_match(head, tail.drop_first(), k - 1, c);
        assert(seq![tail[0]] + tail.drop_first().remove(k - 1).push(c) =~= tail.remove(k).push(
            c,
        ));
    }
}

/// Moves the contours of `b` onto the end of `a`.
fn append_contours(a: Vec<Contour>, b: Vec<Contour>) -> (r: Vec<Contour>)
    ensures
        r@ == a@ + b@,
{
    let ghost a0 = a@;
    let ghost b0 = b@;
    let mut r = a;
    let mut b = b;
    while b.len() > 0
        invariant
            r@ + b@ == a0 + b0,
        decreases b@.len(),
    {
        let x = b.remove(0);
        r.push(x);
        proof {
            assert(r@ + b@ =~= a0 + b0);
        }
    }
    proof {
        assert(r@ =~= r@ + b@);
    }
    r
}

/// One merging step over owned contours: scans the tail in order for the
/// first contour the pivot joins with.  On success the new tail comes back
/// (partner replaced by the joined contour at the end); otherwise pivot and
/// tail come back unchanged.
fn collapse_contours_once(head: Contour, tail: Vec<Contour>) -> (r: Result<
    Vec<Contour>,
    (Contour, Vec<Contour>),
>)
    requires
        ends_in_range(head@),
        forall|j: int| 0 <= j < tail@.len() ==> ends_in_range(#[trigger] tail@[j]@),
    ensures
        match r {
            Ok(nt) => collapse_once_model(head@, views_of(tail@)) == Some(views_of(nt@))
                && (forall|j: int| 0 <= j < nt@.len() ==> ends_in_range(#[trigger] nt@[j]@)),
            Err((h, t)) => h == head && t@ == tail@ && collapse_once_model(
                head@,
                views_of(tail@),
            ) is None,
        },
{
    let ghost tail0 = tail@;
    let ghost head0 = head;
    let mut pivot = head;
    let mut checked: Vec<Contour> = Vec::new();
    let mut rest = tail;
    while rest.len() > 0
        invariant
            head0 == head,
            tail0 == tail@,
            checked@ + rest@ == tail0,
            pivot == head0,
            ends_in_range(head0@),
            forall|j: int| 0 <= j < tail0.len() ==> ends_in_range(#[trigger] tail0[j]@),
            forall|j: int|
                0 <= j < checked@.len() ==> combine_model(
                    head0@,
                    #[trigger] views_of(tail0)[j],
                ) is None,
        decreases rest@.len(),
    {
        let ghost k = checked@.len() as int;
        let other = rest.remove(0);
        proof {
            assert(other == tail0[k]);
            assert(ends_in_range(other@));
        }
        match pivot.combine_attempt(other) {
            Ok(c) => {
                proof {
                    assert(views_of(tail0)[k] == other@);
                    lemma_collapse_once_first_match(head0@, views_of(tail0), k, c@);
                    crate::contour::lemma_combine_ends_in_range(head0@, other@);
                    assert(checked@ + rest@ =~= tail0.remove(k));
                }
                let ghost checked0 = checked@;
                let ghost rest0 = rest@;
                let mut out = append_contours(checked, rest);
                out.push(c);
                proof {
                    assert(views_of(out@) =~= views_of(tail0).remove(k).push(c@));
                    assert forall|j: int| 0 <= j < out@.len() implies ends_in_range(
                        #[trigger] out@[j]@,
                    ) by {
                        if j < k {
                            assert(out@[j] == checked0[j]);
                            assert(checked0[j] == tail0[j]);
                        } else if j < out@.len() - 1 {
                            assert(out@[j] == rest0[j - k]);
                            assert(rest0[j - k] == tail0[j + 1]);
                        } else {
                            assert(out@[j] == c);
                        }
                    }
                }
                return Ok(out);
            },
            Err((h, o)) => {
                pivot = h;
                checked.push(o);
                proof {
                    assert(checked@ + rest@ =~= tail0);
                    assert(views_of(tail0)[k] == o@);
                }
            },
        }
    }
    proof {
        assert(checked@ =~= tail0);
        assert(forall|j: int|
            0 <= j < views_of(tail0).len() ==> combine_model(
                head0@,
                #[trigger] views_of(tail0)[j],
            ) is None);
        lemma_collapse_once_no_match(head0@, views_of(tail0));
    }
    Err((pivot, checked))
}

/// Merges open contours until no further join is possible, yielding the
/// finished contours — closed ones and irreducibly open leftovers — in the
/// order they became irreducible.
fn collapse_contours(contours: Vec<Contour>) -> (r: Vec<Contour>)
    requires
        forall|j: int| 0 <= j < contours@.len() ==> ends_in_range(#[trigger] contours@[j]@),
    ensures
        views_of(r@) == collapse_model(views_of(contours@)),
{
    let ghost cs0 = views_of(contours@);
    let mut work = contours;
    let mut finals: Vec<Contour> = Vec::new();
    while work.len() > 0
        invariant
            forall|j: int| 0 <= j < work@.len() ==> ends_in_range(#[trigger] work@[j]@),
            views_of(finals@) + collapse_model(views_of(work@)) == collapse_model(cs0),
        decreases work@.len(),
    {
        let ghost w0 = views_of(work@);
        let head = work.remove(0);
        proof {
            assert(views_of(work@) =~= w0.drop_first());
            assert(w0[0] == head@);
        }
        match collapse_contours_once(head, work) {
            Ok(new_tail) => {
                proof {
                    lemma_collapse_once_len(w0[0], w0.drop_first());
                }
                work = new_tail;
            },
            Err((h, t)) => {
                work = t;
                finals.push(h);
                proof {
                    assert(views_of(finals@) =~= views_of(finals@.drop_last()).push(h@));
                    assert(views_of(finals@.drop_last()).push(h@) + collapse_model(views_of(work@))
                        =~= views_of(finals@.drop_last()) + (seq![h@] + collapse_model(
                        views_of(work@),
                    )));
                }
            },
        }
    }
    proof {
        assert(views_of(finals@) =~= views_of(finals@) + collapse_model(views_of(work@)));
    }
    finals
}

/// Assembles a flat run of raw segments into maximal contours, per
/// `assemble_model`: born-closed contours pass through, open fragments are
/// merged until no join is possible, and whatever stays open is still
/// emitted.
pub fn assemble(segments: Vec<Segment>) -> (r: Vec<Contour>)
    requires
        forall|i: int| 0 <= i < segments@.len() ==> segment_in_range(#[trigger] segments@[i]),
    ensures
        views_of(r@) == assemble_model(segments@),
{
    let ghost segs0 = segments@;
    let mut open: Vec<Contour> = Vec::new();
    let mut finished: Vec<Contour> = Vec::new();
    let mut i: usize = 0;
    while i < segments.len()
        invariant
            i <= segs0.len(),
            segments@ == segs0,
            forall|j: int| 0 <= j < segs0.len() ==> segment_in_range(#[trigger] segs0[j]),
            views_of(open@) == open_part(single_models_of(segs0.take(i as int))),
            views_of(finished@) == closed_part(single_models_of(segs0.take(i as int))),
            forall|j: int| 0 <= j < open@.len() ==> ends_in_range(#[trigger] open@[j]@),
        decreases segs0.len() - i,
    {
        let s = segments[i];
        let c = Contour::create_from_entity(s);
        proof {
            lemma_endpoints_in_range(s);
            assert(c@ == crate::offset::single_segment_model(s));
            assert(single_models_of(segs0.take(i as int + 1)).drop_last() =~= single_models_of(
                segs0.take(i as int),
            ));
            assert(single_models_of(segs0.take(i as int + 1)).last() == c@);
        }
        if c.is_open() {
            open.push(c);
            proof {
                assert(views_of(open@) =~= views_of(open@.drop_last()).push(c@));
            }
        } else {
            finished.push(c);
            proof {
                assert(views_of(finished@) =~= views_of(finished@.drop_last()).push(c@));
            }
        }
        i = i + 1;
    }
    proof {
        assert(segs0.take(i as int) =~= segs0);
    }
    let collapsed = collapse_contours(open);
    let r = append_contours(finished, collapsed);
    proof {
        assert(views_of(r@) =~= views_of(finished@) + views_of(collapsed@));
    }
    r
}

/// The segments of a run of contours, flattened in order.
pub open spec fn flattened_segments(cs: Seq<ContourModel>) -> Seq<Segment>
    decreases cs.len(),
{
    if cs.len() == 0 {
        Seq::empty()
    } else {
        flattened_segments(cs.drop_last()) + cs.last().segments
    }
}

/// Flattens finished contours back to the flat segment run handed to whoever
/// serializes the drawing.
pub fn contour_to_segments(contours: Vec<Contour>) -> (r: Vec<Segment>)
    ensures
        r@ == flattened_segments(views_of(contours@)),
{
    let mut r: Vec<Segment> = Vec::new();
    let mut i: usize = 0;
    while i < contours.len()
        invariant
            i <= contours@.len(),
            r@ == flattened_segments(views_of(contours@.take(i as int))),
        decreases contours@.len() - i,
    {
        let ghost before = r@;
        let c = &contours[i];
        let mut j: usize = 0;
        while j < c.entities.len()
            invariant
                j <= c.entities@.len(),
                r@ == before + c.entities@.take(j as int),
            decreases c.entities@.len() - j,
        {
            r.push(c.entities[j]);
            j = j + 1;
            proof {
                assert(r@ =~= before + c.entities@.take(j as int));
            }
        }
        i = i + 1;
        proof {
            assert(views_of(contours@.take(i as int)).drop_last() =~= views_of(contours@.take(
                i as int - 1,
            )));
            assert(c.entities@.take(c.entities@.len() as int) =~= c.entities@);
            assert(r@ == flattened_segments(views_of(contours@.take(i as int))));
        }
    }
    proof {
        assert(contours@.take(i as int) =~= contours@);
    }
    r
}

} // verus!
