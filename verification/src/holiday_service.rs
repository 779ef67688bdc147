//! The read-side domain rule: a stable partition of holidays by leave type.

use vstd::prelude::*;
use crate::holiday::{Holiday, HolidayView};

verus! {

broadcast use vstd::seq_lib::group_filter_ensures;

/// Domain rules over holiday lists.
pub struct HolidayDomainService;

/// The joint-leave half of a list, in source order.
pub open spec fn joint_part(hs: Seq<HolidayView>) -> Seq<HolidayView> {
    hs.filter(|h: HolidayView| h.is_joint_leave)
}

/// The non-joint-leave half of a list, in source order.
pub open spec fn non_joint_part(hs: Seq<HolidayView>) -> Seq<HolidayView> {
    hs.filter(|h: HolidayView| !h.is_joint_leave)
}

impl HolidayDomainService {
    pub fn new() -> (r: Self) {
        HolidayDomainService
    }

    /// Splits a list into its joint-leave and non-joint-leave halves, each
    /// keeping the source order.
    pub fn group_holidays_by_type(&self, holidays: Vec<Holiday>) -> (r: (Vec<Holiday>, Vec<
        Holiday,
    >))
        ensures
            r.0.deep_view() == joint_part(holidays.deep_view()),
            r.1.deep_view() == non_joint_part(holidays.deep_view()),
    {
        let ghost dvh = holidays.deep_view();
        let mut joint_leave: Vec<Holiday> = Vec::new();
        let mut non_joint_leave: Vec<Holiday> = Vec::new();
        let n = holidays.len();
        let mut i: usize = 0;
        proof {
            reveal(Seq::filter);
        }
        while i < n
            invariant
                i <= n,
                n == holidays@.len(),
                dvh == holidays.deep_view(),
                dvh.len() == n,
                joint_leave.deep_view() == joint_part(dvh.take(i as int)),
                non_joint_leave.deep_view() == non_joint_part(dvh.take(i as int)),
            decreases n - i,
        {
            proof {
                reveal(Seq::filter);
                assert(dvh[i as int] == holidays@[i as int]@);
            }
            let h = &holidays[i];
            let ghost pj = joint_leave.deep_view();
            let ghost pn = non_joint_leave.deep_view();
            let copy = Holiday {
                date: h.date,
                description: h.description.clone(),
                is_joint_leave: h.is_joint_leave,
            };
            if copy.is_joint_leave() {
                joint_leave.push(copy);
            } else {
                non_joint_leave.push(copy);
            }
            proof {
                reveal(Seq::filter);
                assert(dvh.take(i as int + 1).drop_last() =~= dvh.take(i as int));
                assert(dvh.take(i as int + 1).last() == dvh[i as int]);
                if dvh[i as int].is_joint_leave {
                    assert(joint_leave.deep_view() =~= pj.push(dvh[i as int]));
                } else {
                    assert(non_joint_leave.deep_view() =~= pn.push(dvh[i as int]));
                }
            }
            i = i + 1;
        }
        proof {
            assert(dvh.take(n as int) =~= dvh);
        }
        (joint_leave, non_joint_leave)
    }
}

/// The grouping is a stable partition: every holiday of the list lands in
/// exactly one half, nothing else appears, the halves are disjoint, their
/// lengths add up, and each half keeps the source order by construction.
pub proof fn lemma_grouping_partitions(hs: Seq<HolidayView>)
    ensures
        joint_part(hs).len() + non_joint_part(hs).len() == hs.len(),
        forall|h: HolidayView| #[trigger]
            hs.contains(h) <==> (joint_part(hs).contains(h) || non_joint_part(hs).contains(h)),
        forall|h: HolidayView| !(#[trigger] joint_part(hs).contains(h) && non_joint_part(
            hs,
        ).contains(h)),
    decreases hs.len(),
{
    reveal(Seq::filter);
    if hs.len() > 0 {
        lemma_grouping_partitions(hs.drop_last());
        assert forall|h: HolidayView| #[trigger]
            hs.contains(h) implies (joint_part(hs).contains(h) || non_joint_part(hs).contains(
            h,
        )) by {
            let i = choose|i: int| 0 <= i < hs.len() && hs[i] == h;
            if h.is_joint_leave {
                hs.lemma_filter_contains(|x: HolidayView| x.is_joint_leave, i);
            } else {
                hs.lemma_filter_contains(|x: HolidayView| !x.is_joint_leave, i);
            }
        }
        assert forall|h: HolidayView|
            (joint_part(hs).contains(h) || non_joint_part(hs).contains(h)) implies #[trigger]
        hs.contains(h) by {
            if joint_part(hs).contains(h) {
                let i = choose|i: int| 0 <= i < joint_part(hs).len() && joint_part(hs)[i] == h;
                lemma_filter_element_of(hs, |x: HolidayView| x.is_joint_leave, i);
            } else {
                let i = choose|i: int|
                    0 <= i < non_joint_part(hs).len() && non_joint_part(hs)[i] == h;
                lemma_filter_element_of(hs, |x: HolidayView| !x.is_joint_leave, i);
            }
        }
        assert forall|h: HolidayView|
            !(#[trigger] joint_part(hs).contains(h) && non_joint_part(hs).contains(h)) by {
            if joint_part(hs).contains(h) && non_joint_part(hs).contains(h) {
                let i = choose|i: int| 0 <= i < joint_part(hs).len() && joint_part(hs)[i] == h;
                hs.lemma_filter_pred(|x: HolidayView| x.is_joint_leave, i);
                let j = choose|j: int|
                    0 <= j < non_joint_part(hs).len() && non_joint_part(hs)[j] == h;
                hs.lemma_filter_pred(|x: HolidayView| !x.is_joint_leave, j);
            }
        }
    } else {
        assert forall|h: HolidayView|
            !(#[trigger] joint_part(hs).contains(h) && non_joint_part(hs).contains(h)) by {}
    }
}

/// Every element of a filtered list is an element of the list.
pub(crate) proof fn lemma_filter_element_of(
    hs: Seq<HolidayView>,
    pred: spec_fn(HolidayView) -> bool,
    i: int,
)
    requires
        0 <= i < hs.filter(pred).len(),
    ensures
        hs.contains(hs.filter(pred)[i]),
    decreases hs.len(),
{
    reveal(Seq::filter);
    if hs.len() > 0 {
        let sub = hs.drop_last().filter(pred);
        if i < sub.len() {
            lemma_filter_element_of(hs.drop_last(), pred, i);
            let j = choose|j: int| 0 <= j < hs.drop_last().len() && hs.drop_last()[j] == sub[i];
            assert(hs[j] == hs.filter(pred)[i]);
        } else {
            assert(hs[hs.len() - 1] == hs.filter(pred)[i]);
        }
    }
}

} // verus!
