use calendar_indonesia::app_error::AppError;
use calendar_indonesia::date_utils::Date;
use calendar_indonesia::file_repository::FileHolidayRepository;
use calendar_indonesia::get_holidays::GetHolidaysUseCase;
use calendar_indonesia::holiday::Holiday;
use calendar_indonesia::holiday_service::HolidayDomainService;
use calendar_indonesia::scrape_holidays::ScrapeHolidaysUseCase;
use calendar_indonesia::scraper_service::WebScrapingService;

fn date(y: i32, m: u32, d: u32) -> Date {
    Date::new(y, m, d).expect("valid date")
}

fn fixture_page() -> String {
    let mut page = String::new();
    page.push_str("<html><body><article>");
    page.push_str("<ul>");
    page.push_str("<li><a href=\"#\">Agustus 2023</a></li>");
    page.push_str("<li>filler</li>");
    page.push_str("<li>filler</li>");
    page.push_str("<li><table><tbody>");
    page.push_str("<tr><td>17</td><td>HUT RI</td></tr>");
    page.push_str("<tr><td>25</td><td> Cuti Bersama HUT RI </td></tr>");
    page.push_str("<tr><td>30</td><td>   </td></tr>");
    page.push_str("</tbody></table></li>");
    page.push_str("</ul>");
    page.push_str("</article></body></html>");
    page
}

#[test]
fn grouping_is_a_stable_partition() {
    let service = HolidayDomainService::new();
    let holidays = vec![
        Holiday::new(date(2023, 1, 1), "Tahun Baru".to_string(), false),
        Holiday::new(date(2023, 4, 19), "Cuti Bersama Idul Fitri".to_string(), true),
        Holiday::new(date(2023, 8, 17), "HUT RI".to_string(), false),
        Holiday::new(date(2023, 12, 26), "Cuti Bersama Natal".to_string(), true),
    ];
    let (joint, non_joint) = service.group_holidays_by_type(holidays);
    assert_eq!(joint.len(), 2);
    assert_eq!(non_joint.len(), 2);
    // source order is preserved in each half
    assert_eq!(joint[0].description, "Cuti Bersama Idul Fitri");
    assert_eq!(joint[1].description, "Cuti Bersama Natal");
    assert_eq!(non_joint[0].description, "Tahun Baru");
    assert_eq!(non_joint[1].description, "HUT RI");
    // the halves are disjoint
    for j in &joint {
        for n in &non_joint {
            assert!(j.description != n.description);
        }
    }
}

#[test]
fn get_for_missing_year_is_not_found() {
    let repo = FileHolidayRepository::new("data".to_string());
    let use_case = GetHolidaysUseCase::new();
    match use_case.execute(&repo, 2023) {
        Err(AppError::NotFound(_)) => {}
        _ => panic!("expected NotFound"),
    }
}

#[test]
fn get_for_empty_stored_list_is_not_found() {
    let mut repo = FileHolidayRepository::new("data".to_string());
    repo.save_holidays(&Vec::new(), 2023).unwrap();
    let use_case = GetHolidaysUseCase::new();
    match use_case.execute(&repo, 2023) {
        Err(AppError::NotFound(_)) => {}
        _ => panic!("expected NotFound for empty list"),
    }
}

#[test]
fn get_returns_dtos_with_iso_dates() {
    let mut repo = FileHolidayRepository::new("data".to_string());
    let holidays = vec![Holiday::new(date(2023, 8, 17), "HUT RI".to_string(), false)];
    repo.save_holidays(&holidays, 2023).unwrap();
    let use_case = GetHolidaysUseCase::new();
    let dtos = use_case.execute(&repo, 2023).unwrap();
    assert_eq!(dtos.len(), 1);
    assert_eq!(dtos[0].date, "2023-08-17");
    assert_eq!(dtos[0].description, "HUT RI");
    assert!(!dtos[0].is_joint_leave);
}

#[test]
fn grouped_use_case_splits_by_type() {
    let mut repo = FileHolidayRepository::new("data".to_string());
    let holidays = vec![
        Holiday::new(date(2023, 8, 17), "HUT RI".to_string(), false),
        Holiday::new(date(2023, 8, 18), "Cuti Bersama HUT".to_string(), true),
    ];
    repo.save_holidays(&holidays, 2023).unwrap();
    let use_case = GetHolidaysUseCase::new();
    let grouped = use_case.execute_grouped(&repo, 2023).unwrap();
    assert_eq!(grouped.joint_leave.len(), 1);
    assert_eq!(grouped.non_joint_leave.len(), 1);
    assert_eq!(grouped.joint_leave[0].description, "Cuti Bersama HUT");
    assert_eq!(grouped.non_joint_leave[0].description, "HUT RI");
    let map = grouped.to_hashmap();
    assert_eq!(map.get("joint_leave").unwrap().len(), 1);
    assert_eq!(map.get("non_joint_leave").unwrap().len(), 1);
}

#[test]
fn scrape_fixture_keeps_two_of_three_rows() {
    let scraper = WebScrapingService::new();
    let holidays = scraper.scrape_holidays_for_year(2023, &fixture_page()).unwrap();
    assert_eq!(holidays.len(), 2);
    assert_eq!(holidays[0].date, date(2023, 8, 17));
    assert_eq!(holidays[0].description, "HUT RI");
    assert!(!holidays[0].is_joint_leave);
    assert_eq!(holidays[1].date, date(2023, 8, 25));
    assert_eq!(holidays[1].description, "Cuti Bersama HUT RI");
    assert!(holidays[1].is_joint_leave);
}

#[test]
fn scrape_with_no_valid_rows_is_an_external_failure() {
    let scraper = WebScrapingService::new();
    let page = "<html><body><article><ul><li><a>Agustus</a></li></ul></article></body></html>";
    match scraper.scrape_holidays_for_year(2023, page) {
        Err(AppError::ExternalService(msg)) => {
            assert_eq!(msg, "No holidays found for year 2023 from external source");
        }
        _ => panic!("expected ExternalService"),
    }
    match scraper.scrape_holidays_for_year(2023, "<html><body></body></html>") {
        Err(AppError::ExternalService(_)) => {}
        _ => panic!("expected ExternalService on empty page"),
    }
}

#[test]
fn scrape_normalizes_month_labels() {
    let scraper = WebScrapingService::new();
    // uppercase, digits and padding around the label must all be ignored
    let page = "<html><body><article><ul>\
        <li><a>  DESEMBER 2023 </a></li><li>x</li><li>x</li>\
        <li><table><tbody><tr><td>25</td><td>Hari Natal</td></tr></tbody></table></li>\
        </ul></article></body></html>";
    let holidays = scraper.scrape_holidays_for_year(2023, page).unwrap();
    assert_eq!(holidays.len(), 1);
    assert_eq!(holidays[0].date, date(2023, 12, 25));
}

#[test]
fn scrape_falls_back_to_january_for_unknown_labels() {
    let scraper = WebScrapingService::new();
    let page = "<html><body><article><ul>\
        <li><a>Mystery</a></li><li>x</li><li>x</li>\
        <li><table><tbody><tr><td>5</td><td>Unknown month row</td></tr></tbody></table></li>\
        </ul></article></body></html>";
    let holidays = scraper.scrape_holidays_for_year(2023, page).unwrap();
    assert_eq!(holidays.len(), 1);
    assert_eq!(holidays[0].date, date(2023, 1, 5));
}

#[test]
fn scrape_skips_rows_with_invalid_days() {
    let scraper = WebScrapingService::new();
    let page = "<html><body><article><ul>\
        <li><a>Februari</a></li><li>x</li><li>x</li>\
        <li><table><tbody>\
        <tr><td>30</td><td>No such February day</td></tr>\
        <tr><td>abc</td><td>Not a number</td></tr>\
        <tr><td>14</td><td>Hari Valentine</td></tr>\
        </tbody></table></li>\
        </ul></article></body></html>";
    let holidays = scraper.scrape_holidays_for_year(2023, page).unwrap();
    assert_eq!(holidays.len(), 1);
    assert_eq!(holidays[0].date, date(2023, 2, 14));
}

#[test]
fn month_map_matches_the_verified_mapping() {
    let map = WebScrapingService::get_month_map();
    assert_eq!(map.len(), 12);
    assert_eq!(*map.get("agustus").unwrap(), "08");
    assert_eq!(*map.get("januari").unwrap(), "01");
    assert_eq!(*map.get("desember").unwrap(), "12");
    assert!(map.get("unknown").is_none());
}

#[test]
fn parse_date_trims_and_validates() {
    let scraper = WebScrapingService::new();
    assert_eq!(scraper.parse_date(2023, 8, " 17 ").unwrap(), date(2023, 8, 17));
    assert_eq!(scraper.parse_date(2023, 8, "7").unwrap(), date(2023, 8, 7));
    assert!(scraper.parse_date(2023, 2, "30").is_err());
    assert!(scraper.parse_date(2023, 8, "0").is_err());
    assert!(scraper.parse_date(2023, 8, "123").is_err());
    assert!(scraper.parse_date(2023, 8, "ab").is_err());
}

#[test]
fn execute_scrapes_and_replaces_the_year() {
    let mut repo = FileHolidayRepository::new("data".to_string());
    let old = vec![Holiday::new(date(2023, 1, 1), "Stale".to_string(), false)];
    repo.save_holidays(&old, 2023).unwrap();
    let use_case = ScrapeHolidaysUseCase::new(WebScrapingService::new());
    let dtos = use_case.execute(&mut repo, 2023, &fixture_page()).unwrap();
    assert_eq!(dtos.len(), 2);
    assert_eq!(dtos[0].date, "2023-08-17");
    assert_eq!(dtos[1].date, "2023-08-25");
    assert!(dtos[1].is_joint_leave);
    // the store now holds exactly the fresh set, nothing of the old one
    let loaded = repo.get_holidays_by_year(2023).unwrap();
    assert_eq!(loaded.len(), 2);
    assert_eq!(loaded[0].description, "HUT RI");
    assert_eq!(loaded[1].description, "Cuti Bersama HUT RI");
}

#[test]
fn failed_scrape_leaves_the_store_untouched() {
    let mut repo = FileHolidayRepository::new("data".to_string());
    let old = vec![Holiday::new(date(2023, 1, 1), "Kept".to_string(), false)];
    repo.save_holidays(&old, 2023).unwrap();
    let use_case = ScrapeHolidaysUseCase::new(WebScrapingService::new());
    assert!(use_case.execute(&mut repo, 2023, "<html></html>").is_err());
    let loaded = repo.get_holidays_by_year(2023).unwrap();
    assert_eq!(loaded.len(), 1);
    assert_eq!(loaded[0].description, "Kept");
}

#[test]
fn scrape_walks_sections_in_order() {
    let scraper = WebScrapingService::new();
    let page = "<html><body><article>\
        <ul><li><a>Januari 2024</a></li><li>x</li><li>x</li>\
        <li><table><tbody><tr><td>1</td><td>Tahun Baru</td></tr></tbody></table></li></ul>\
        <ul><li><a>Maret 2024</a></li><li>x</li><li>x</li>\
        <li><table><tbody><tr><td>11</td><td>Hari Suci Nyepi</td></tr>\
        <tr><td>12</td><td>Cuti Bersama Nyepi</td></tr></tbody></table></li></ul>\
        </article></body></html>";
    let holidays = scraper.scrape_holidays_for_year(2024, page).unwrap();
    assert_eq!(holidays.len(), 3);
    assert_eq!(holidays[0].date, date(2024, 1, 1));
    assert_eq!(holidays[0].description, "Tahun Baru");
    assert_eq!(holidays[1].date, date(2024, 3, 11));
    assert_eq!(holidays[2].date, date(2024, 3, 12));
    assert!(holidays[2].is_joint_leave);
}
