//! The transfer shapes holidays are served as: the date rendered as its ISO
//! string, the description, and the derived joint-leave flag.

use vstd::prelude::*;
use std::collections::HashMap;
use crate::date_utils::{iso_date_chars, valid_date};
use crate::holiday::{Holiday, HolidayView};

verus! {

/// A holiday as it is served: the date as text.
pub struct HolidayDto {
    pub date: String,
    pub description: String,
    pub is_joint_leave: bool,
}

/// The mathematical shape of a served holiday.
pub struct HolidayDtoView {
    pub date: Seq<char>,
    pub description: Seq<char>,
    pub is_joint_leave: bool,
}

impl View for HolidayDto {
    type V = HolidayDtoView;

    open spec fn view(&self) -> HolidayDtoView {
        HolidayDtoView {
            date: self.date@,
            description: self.description@,
            is_joint_leave: self.is_joint_leave,
        }
    }
}

impl DeepView for HolidayDto {
    type V = HolidayDtoView;

    open spec fn deep_view(&self) -> HolidayDtoView {
        self.view()
    }
}

/// The served shape of a holiday.
pub open spec fn dto_of(h: HolidayView) -> HolidayDtoView {
    HolidayDtoView {
        date: iso_date_chars(h.date),
        description: h.description,
        is_joint_leave: h.is_joint_leave,
    }
}

/// The served shapes of a whole list, in order.
pub open spec fn dtos_of(hs: Seq<HolidayView>) -> Seq<HolidayDtoView> {
    hs.map_values(|h: HolidayView| dto_of(h))
}

impl HolidayDto {
    /// The served shape of one holiday.
    pub fn from(holiday: Holiday) -> (r: HolidayDto)
        requires
            valid_date(holiday.date),
        ensures
            r@ == dto_of(holiday@),
    {
        HolidayDto {
            date: holiday.format_date(),
            description: holiday.description,
            is_joint_leave: holiday.is_joint_leave,
        }
    }
}

/// All dates of a list are valid, so each holiday can be rendered.
pub open spec fn all_dates_valid(hs: Seq<HolidayView>) -> bool {
    forall|i: int| 0 <= i < hs.len() ==> valid_date(hs[i].date)
}

/// The served shapes of a list of holidays.
pub(crate) fn dtos_from_holidays(holidays: Vec<Holiday>) -> (r: Vec<HolidayDto>)
    requires
        all_dates_valid(holidays.deep_view()),
    ensures
        r.deep_view() == dtos_of(holidays.deep_view()),
{
    let ghost dvh = holidays.deep_view();
    let mut out: Vec<HolidayDto> = Vec::new();
    let n = holidays.len();
    let mut i: usize = 0;
    while i < n
        invariant
            i <= n,
            n == holidays@.len(),
            dvh == holidays.deep_view(),
            dvh.len() == n,
            all_dates_valid(dvh),
            out.deep_view() == dtos_of(dvh.take(i as int)),
        decreases n - i,
    {
        proof {
            assert(dvh[i as int] == holidays@[i as int]@);
        }
        let h = &holidays[i];
        let dto = HolidayDto {
            date: h.format_date(),
            description: h.description.clone(),
            is_joint_leave: h.is_joint_leave,
        };
        let ghost prev = out.deep_view();
        out.push(dto);
        proof {
            assert(out.deep_view() =~= prev.push(dto@));
            assert(dtos_of(dvh.take(i as int + 1)) =~= prev.push(dto_of(dvh[i as int])));
        }
        i = i + 1;
    }
    proof {
        assert(dvh.take(n as int) =~= dvh);
    }
    out
}

/// Holidays grouped by leave type, in their source order.
pub struct GroupedHolidaysDto {
    pub joint_leave: Vec<HolidayDto>,
    pub non_joint_leave: Vec<HolidayDto>,
}

impl GroupedHolidaysDto {
    pub fn new(joint_leave: Vec<Holiday>, non_joint_leave: Vec<Holiday>) -> (r: Self)
        requires
            all_dates_valid(joint_leave.deep_view()),
            all_dates_valid(non_joint_leave.deep_view()),
        ensures
            r.joint_leave.deep_view() == dtos_of(joint_leave.deep_view()),
            r.non_joint_leave.deep_view() == dtos_of(non_joint_leave.deep_view()),
    {
        GroupedHolidaysDto {
            joint_leave: dtos_from_holidays(joint_leave),
            non_joint_leave: dtos_from_holidays(non_joint_leave),
        }
    }

    /// The two groups under their serving keys. What the map holds is stated
    /// by `new`; a map on text keys is beyond what is proved here.
    pub fn to_hashmap(self) -> HashMap<String, Vec<HolidayDto>> {
        let mut result: HashMap<String, Vec<HolidayDto>> = HashMap::new();
        result.insert("joint_leave".to_owned(), self.joint_leave);
        result.insert("non_joint_leave".to_owned(), self.non_joint_leave);
        result
    }
}

} // verus!
