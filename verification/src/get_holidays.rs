//! The read-side use case: fetch a year's holidays from the cache, surfacing
//! an empty list exactly like a missing file, and optionally partition them
//! by leave type.

use vstd::prelude::*;
use crate::app_error::{AppError, AppResult};
use crate::date_utils::{dec_digits, push_dec_digits};
use crate::file_repository::{FileHolidayRepository, convert_all};
use crate::holiday_dto::{GroupedHolidaysDto, HolidayDto, dtos_of, dtos_from_holidays};
use crate::holiday_service::{HolidayDomainService, joint_part, non_joint_part};
use crate::json_codec::parse_top;
use crate::text::{append_str, chars_to_string};

verus! {

/// Reads holidays for a year out of the cache.
pub struct GetHolidaysUseCase {
    holiday_service: HolidayDomainService,
}

impl GetHolidaysUseCase {
    pub fn new() -> (r: Self) {
        GetHolidaysUseCase { holiday_service: HolidayDomainService::new() }
    }

    /// The holidays cached for a year. A year with no stored file and a year
    /// whose file holds an empty list are both reported as not found.
    pub fn execute(&self, repository: &FileHolidayRepository, year: i32) -> (r: AppResult<Vec<
        HolidayDto,
    >>)
        requires
            0 <= year,
        ensures
            !repository@.contains_key(year) ==> (r matches Err(e) && e is NotFound),
            repository@.contains_key(year) && parse_top(repository@[year]) is None ==> (r matches Err(e)
                && e is Serialization),
            repository@.contains_key(year) ==> (parse_top(repository@[year]) matches Some(raws)
                ==> match convert_all(raws) {
                Some(hs) => if hs.len() == 0 {
                    r matches Err(e) && e matches AppError::NotFound(m) && m@
                        == "No holidays found for year "@ + dec_digits(year as int)
                } else {
                    r matches Ok(v) && v.deep_view() == dtos_of(hs)
                },
                None => r matches Err(e) && e is BadRequest,
            }),
    {
        let holidays = match repository.get_holidays_by_year(year) {
            Ok(v) => v,
            Err(e) => {
                return Err(e);
            },
        };
        if holidays.len() == 0 {
            let mut msg: Vec<char> = Vec::new();
            append_str(&mut msg, "No holidays found for year ");
            push_dec_digits(&mut msg, year as u32);
            return Err(AppError::NotFound(chars_to_string(&msg)));
        }
        Ok(dtos_from_holidays(holidays))
    }

    /// As `execute`, but the holidays are partitioned by leave type, each
    /// group keeping the stored order.
    pub fn execute_grouped(&self, repository: &FileHolidayRepository, year: i32) -> (r: AppResult<
        GroupedHolidaysDto,
    >)
        requires
            0 <= year,
        ensures
            !repository@.contains_key(year) ==> (r matches Err(e) && e is NotFound),
            repository@.contains_key(year) && parse_top(repository@[year]) is None ==> (r matches Err(e)
                && e is Serialization),
            repository@.contains_key(year) ==> (parse_top(repository@[year]) matches Some(raws)
                ==> match convert_all(raws) {
                Some(hs) => if hs.len() == 0 {
                    r matches Err(e) && e matches AppError::NotFound(m) && m@
                        == "No holidays found for year "@ + dec_digits(year as int)
                } else {
                    r matches Ok(g) && g.joint_leave.deep_view() == dtos_of(joint_part(hs))
                        && g.non_joint_leave.deep_view() == dtos_of(non_joint_part(hs))
                },
                None => r matches Err(e) && e is BadRequest,
            }),
    {
        let holidays = match repository.get_holidays_by_year(year) {
            Ok(v) => v,
            Err(e) => {
                return Err(e);
            },
        };
        if holidays.len() == 0 {
            let mut msg: Vec<char> = Vec::new();
            append_str(&mut msg, "No holidays found for year ");
            push_dec_digits(&mut msg, year as u32);
            return Err(AppError::NotFound(chars_to_string(&msg)));
        }
        let ghost dvh = holidays.deep_view();
        let (joint_leave, non_joint_leave) = self.holiday_service.group_holidays_by_type(holidays);
        proof {
            assert forall|i: int| 0 <= i < joint_part(dvh).len() implies crate::date_utils::valid_date(
                #[trigger] joint_part(dvh)[i].date,
            ) by {
                crate::holiday_service::lemma_filter_element_of(
                    dvh,
                    |h: crate::holiday::HolidayView| h.is_joint_leave,
                    i,
                );
                let j = choose|j: int| 0 <= j < dvh.len() && dvh[j] == joint_part(dvh)[i];
                assert(crate::holiday::holiday_wf(dvh[j]));
            }
            assert forall|i: int|
                0 <= i < non_joint_part(dvh).len() implies crate::date_utils::valid_date(
                #[trigger] non_joint_part(dvh)[i].date,
            ) by {
                crate::holiday_service::lemma_filter_element_of(
                    dvh,
                    |h: crate::holiday::HolidayView| !h.is_joint_leave,
                    i,
                );
                let j = choose|j: int| 0 <= j < dvh.len() && dvh[j] == non_joint_part(dvh)[i];
                assert(crate::holiday::holiday_wf(dvh[j]));
            }
        }
        Ok(GroupedHolidaysDto::new(joint_leave, non_joint_leave))
    }
}

} // verus!
