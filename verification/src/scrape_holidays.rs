//! The write-side use case: scrape a year, and on success replace that year's
//! cached set wholesale. A failed scrape never touches the store.

use vstd::prelude::*;
use crate::app_error::AppResult;
use crate::file_repository::{
    FileHolidayRepository, all_storable, all_wf, convert_all, raws_of, lemma_put_get_roundtrip,
};
use crate::holiday::HolidayView;
use crate::holiday_dto::{HolidayDto, dtos_of, dtos_from_holidays};
use crate::json_codec::{encode_records, parse_top};
use crate::scraper_service::{WebScrapingService, page_holidays, scrape_selectors_ok};

verus! {

/// Scrapes a year and replaces its cached set.
pub struct ScrapeHolidaysUseCase {
    scraping_service: WebScrapingService,
}

impl ScrapeHolidaysUseCase {
    pub fn new(scraping_service: WebScrapingService) -> (r: Self) {
        ScrapeHolidaysUseCase { scraping_service }
    }

    /// Scrapes the fetched page for a year; on success the year's cached set
    /// is fully replaced by the scraped set and the scraped holidays are
    /// returned; on any failure the store is left untouched and the error is
    /// returned.
    pub fn execute(
        &self,
        repository: &mut FileHolidayRepository,
        year: i32,
        page: &str,
    ) -> (r: AppResult<Vec<HolidayDto>>)
        requires
            1900 <= year <= 2100,
        ensures
            r matches Err(_) ==> final(repository)@ == old(repository)@,
            r matches Err(e) ==> (e is InternalServer || e is ExternalService),
            (r matches Err(e) && e is ExternalService) ==> page_holidays(year, page@).len() == 0,
            (r matches Err(e) && e is InternalServer) ==> !scrape_selectors_ok(),
            scrape_selectors_ok() && page_holidays(year, page@).len() > 0 ==> r is Ok,
            r matches Ok(dtos) ==> {
                &&& final(repository)@ == old(repository)@.insert(
                    year,
                    encode_records(raws_of(page_holidays(year, page@))),
                )
                &&& dtos.deep_view() == dtos_of(page_holidays(year, page@))
                &&& page_holidays(year, page@).len() > 0
            },
            final(repository).spec_data_dir() == old(repository).spec_data_dir(),
    {
        let holidays = match self.scraping_service.scrape_holidays_for_year(year, page) {
            Ok(v) => v,
            Err(e) => {
                return Err(e);
            },
        };
        proof {
            assert forall|i: int|
                0 <= i < holidays.deep_view().len() implies crate::file_repository::holiday_storable(
                #[trigger] holidays.deep_view()[i],
            ) by {
                assert(crate::holiday::holiday_wf(holidays.deep_view()[i]));
            }
        }
        match repository.save_holidays(&holidays, year) {
            Ok(_) => {},
            Err(e) => {
                return Err(e);
            },
        }
        Ok(dtos_from_holidays(holidays))
    }
}

/// After a successful ingestion for a year, the cache holds exactly the
/// freshly scraped set for that year — never a mix of old and new entries —
/// and loading that year returns exactly that set.
pub proof fn lemma_ingest_then_get(m: Map<i32, Seq<char>>, year: i32, hs: Seq<HolidayView>)
    requires
        all_wf(hs),
    ensures
        ({
            let m2 = m.insert(year, encode_records(raws_of(hs)));
            &&& m2.contains_key(year)
            &&& m2[year] == encode_records(raws_of(hs))
            &&& parse_top(m2[year]) == Some(raws_of(hs))
            &&& convert_all(raws_of(hs)) == Some(hs)
        }),
{
    assert(all_storable(hs));
    lemma_put_get_roundtrip(m, year, hs);
    let m2 = m.insert(year, encode_records(raws_of(hs)));
    match convert_all(raws_of(hs)) {
        Some(hs2) => {
            assert forall|i: int| 0 <= i < hs.len() implies hs2[i] == hs[i] by {
                assert(crate::holiday::holiday_wf(hs[i]));
            }
            assert(hs2 =~= hs);
        },
        None => {},
    }
}

} // verus!
