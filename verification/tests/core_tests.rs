use calendar_indonesia::date_utils::{format_date_indonesia, get_current_year, is_valid_year, Date};
use calendar_indonesia::file_repository::FileHolidayRepository;
use calendar_indonesia::holiday::{derive_is_joint_leave, Holiday, HolidayRaw};
use calendar_indonesia::json_codec::{encode_holiday_records, parse_holiday_records};
use calendar_indonesia::app_error::AppError;

fn date(y: i32, m: u32, d: u32) -> Date {
    Date::new(y, m, d).expect("valid date")
}

#[test]
fn year_range_is_validated() {
    assert!(is_valid_year(1900));
    assert!(is_valid_year(2100));
    assert!(is_valid_year(2023));
    assert!(!is_valid_year(1899));
    assert!(!is_valid_year(2101));
}

#[test]
fn current_year_is_plausible() {
    let y = get_current_year();
    assert!(y >= 2020);
}

#[test]
fn date_validation_accepts_leap_day() {
    assert!(Date::new(2024, 2, 29).is_some());
    assert!(Date::new(2023, 2, 29).is_none());
    assert!(Date::new(2000, 2, 29).is_some());
    assert!(Date::new(1900, 2, 29).is_none());
    assert!(Date::new(2023, 13, 1).is_none());
    assert!(Date::new(2023, 4, 31).is_none());
    assert!(Date::new(2023, 0, 1).is_none());
}

#[test]
fn date_formats_as_iso() {
    assert_eq!(date(2023, 8, 17).format_iso(), "2023-08-17");
    assert_eq!(date(2023, 1, 1).format_iso(), "2023-01-01");
}

#[test]
fn next_day_crosses_month_and_year() {
    assert_eq!(date(2023, 8, 17).next_day(), date(2023, 8, 18));
    assert_eq!(date(2023, 8, 31).next_day(), date(2023, 9, 1));
    assert_eq!(date(2023, 12, 31).next_day(), date(2024, 1, 1));
    assert_eq!(date(2024, 2, 28).next_day(), date(2024, 2, 29));
}

#[test]
fn indonesian_rendering() {
    assert_eq!(format_date_indonesia(&date(2023, 8, 17)), "17 Agustus 2023");
    assert_eq!(format_date_indonesia(&date(2024, 1, 2)), "2 Januari 2024");
}

#[test]
fn joint_leave_marker_is_detected() {
    assert!(derive_is_joint_leave("Cuti Bersama Idul Fitri"));
    assert!(derive_is_joint_leave("Libur Cuti Bersama"));
    assert!(!derive_is_joint_leave("HUT RI"));
    assert!(!derive_is_joint_leave("cuti bersama")); // marker is case-sensitive
    assert!(!derive_is_joint_leave(""));
}

#[test]
fn encoding_produces_the_documented_shape() {
    let raws = vec![HolidayRaw {
        tanggal: "2023-08-17".to_string(),
        keterangan: "HUT RI".to_string(),
    }];
    assert_eq!(
        encode_holiday_records(&raws),
        "[{\"tanggal\":\"2023-08-17\",\"keterangan\":\"HUT RI\"}]"
    );
    assert_eq!(encode_holiday_records(&Vec::new()), "[]");
}

#[test]
fn encoding_is_valid_json_to_serde() {
    let raws = vec![HolidayRaw {
        tanggal: "2023-12-25".to_string(),
        keterangan: "Say \"hi\"\\ not\ttab\nnewline".to_string(),
    }];
    let encoded = encode_holiday_records(&raws);
    let value: serde_json::Value = serde_json::from_str(&encoded).expect("valid JSON");
    assert_eq!(value[0]["tanggal"], "2023-12-25");
    assert_eq!(value[0]["keterangan"], "Say \"hi\"\\ not\ttab\nnewline");
}

#[test]
fn parsing_round_trips_the_encoder() {
    let raws = vec![
        HolidayRaw {
            tanggal: "2023-08-17".to_string(),
            keterangan: "HUT RI".to_string(),
        },
        HolidayRaw {
            tanggal: "2023-12-25".to_string(),
            keterangan: "quote \" back \\ nl \n tab \t bell \u{7} end".to_string(),
        },
    ];
    let encoded = encode_holiday_records(&raws);
    let parsed = parse_holiday_records(&encoded).expect("round trip parses");
    assert_eq!(parsed.len(), 2);
    assert_eq!(parsed[0].tanggal, raws[0].tanggal);
    assert_eq!(parsed[0].keterangan, raws[0].keterangan);
    assert_eq!(parsed[1].tanggal, raws[1].tanggal);
    assert_eq!(parsed[1].keterangan, raws[1].keterangan);
}

#[test]
fn parsing_accepts_whitespace_between_tokens() {
    let text = "[\n  {\n    \"tanggal\": \"2023-08-17\",\n    \"keterangan\": \"HUT RI\"\n  }\n]\n";
    let parsed = parse_holiday_records(text).expect("pretty file parses");
    assert_eq!(parsed.len(), 1);
    assert_eq!(parsed[0].tanggal, "2023-08-17");
    assert_eq!(parsed[0].keterangan, "HUT RI");
}

#[test]
fn parsing_rejects_malformed_files() {
    assert!(parse_holiday_records("").is_none());
    assert!(parse_holiday_records("{}").is_none());
    assert!(parse_holiday_records("[{\"tanggal\":\"2023-08-17\"}]").is_none());
    assert!(parse_holiday_records("[{\"tanggal\":\"x\",\"keterangan\":\"y\"").is_none());
    assert!(parse_holiday_records("[] trailing").is_none());
}

#[test]
fn file_path_is_year_keyed() {
    let repo = FileHolidayRepository::new("data".to_string());
    assert_eq!(repo.get_file_path(2023), "data/2023.json");
    let repo2 = FileHolidayRepository::new("/tmp/holidays".to_string());
    assert_eq!(repo2.get_file_path(1999), "/tmp/holidays/1999.json");
}

#[test]
fn missing_year_is_not_found() {
    let repo = FileHolidayRepository::new("data".to_string());
    match repo.get_holidays_by_year(2023) {
        Err(AppError::NotFound(msg)) => {
            assert_eq!(msg, "Holiday data not found for year 2023");
        }
        _ => panic!("expected NotFound"),
    }
    assert_eq!(repo.holidays_exist_for_year(2023).unwrap(), false);
}

#[test]
fn save_then_load_keeps_dates_and_descriptions() {
    let mut repo = FileHolidayRepository::new("data".to_string());
    let holidays = vec![
        Holiday::new(date(2023, 8, 17), "HUT RI".to_string(), false),
        Holiday::new(date(2023, 12, 25), "Hari Natal".to_string(), false),
    ];
    repo.save_holidays(&holidays, 2023).unwrap();
    assert!(repo.holidays_exist_for_year(2023).unwrap());
    let loaded = repo.get_holidays_by_year(2023).unwrap();
    assert_eq!(loaded.len(), 2);
    assert_eq!(loaded[0].date, date(2023, 8, 17));
    assert_eq!(loaded[0].description, "HUT RI");
    assert!(!loaded[0].is_joint_leave);
    assert_eq!(loaded[1].date, date(2023, 12, 25));
    assert_eq!(loaded[1].description, "Hari Natal");
}

#[test]
fn joint_leave_flag_is_recomputed_on_load() {
    let mut repo = FileHolidayRepository::new("data".to_string());
    // Stored with a deliberately wrong flag: the description is what counts.
    let holidays = vec![
        Holiday::new(date(2024, 4, 8), "Cuti Bersama Idul Fitri".to_string(), false),
        Holiday::new(date(2024, 8, 17), "HUT RI".to_string(), true),
    ];
    repo.save_holidays(&holidays, 2024).unwrap();
    let loaded = repo.get_holidays_by_year(2024).unwrap();
    assert!(loaded[0].is_joint_leave);
    assert!(!loaded[1].is_joint_leave);
}

#[test]
fn save_overwrites_the_whole_year() {
    let mut repo = FileHolidayRepository::new("data".to_string());
    let first = vec![Holiday::new(date(2023, 1, 1), "Tahun Baru".to_string(), false)];
    let second = vec![Holiday::new(date(2023, 8, 17), "HUT RI".to_string(), false)];
    repo.save_holidays(&first, 2023).unwrap();
    repo.save_holidays(&second, 2023).unwrap();
    let loaded = repo.get_holidays_by_year(2023).unwrap();
    assert_eq!(loaded.len(), 1);
    assert_eq!(loaded[0].description, "HUT RI");
}

#[test]
fn malformed_stored_file_is_a_serialization_error() {
    let mut repo = FileHolidayRepository::new("data".to_string());
    repo.insert_file(2023, "not json at all".to_string());
    match repo.get_holidays_by_year(2023) {
        Err(AppError::Serialization(_)) => {}
        _ => panic!("expected Serialization"),
    }
}

#[test]
fn malformed_record_fails_the_whole_read() {
    let mut repo = FileHolidayRepository::new("data".to_string());
    repo.insert_file(
        2023,
        "[{\"tanggal\":\"2023-08-17\",\"keterangan\":\"HUT RI\"},{\"tanggal\":\"2023-13-01\",\"keterangan\":\"x\"}]"
            .to_string(),
    );
    match repo.get_holidays_by_year(2023) {
        Err(AppError::BadRequest(_)) => {}
        _ => panic!("expected BadRequest"),
    }
    repo.insert_file(
        2024,
        "[{\"tanggal\":\"2024-08-17\",\"keterangan\":\"\"}]".to_string(),
    );
    match repo.get_holidays_by_year(2024) {
        Err(AppError::BadRequest(_)) => {}
        _ => panic!("expected BadRequest for empty description"),
    }
}

#[test]
fn stored_file_from_another_writer_loads() {
    let mut repo = FileHolidayRepository::new("data".to_string());
    repo.insert_file(
        2022,
        "[ {\"tanggal\" : \"2022-05-26\", \"keterangan\": \"Cuti Bersama Kenaikan Isa Almasih\"} ]"
            .to_string(),
    );
    let loaded = repo.get_holidays_by_year(2022).unwrap();
    assert_eq!(loaded.len(), 1);
    assert_eq!(loaded[0].date, date(2022, 5, 26));
    assert!(loaded[0].is_joint_leave);
}

#[test]
fn error_rendering_and_codes() {
    let e = AppError::NotFound("no data".to_string());
    assert_eq!(e.status_code(), 404);
    assert_eq!(e.describe(), "Not Found: no data");
    assert_eq!(AppError::BadRequest(String::new()).status_code(), 400);
    assert_eq!(AppError::InternalServer(String::new()).status_code(), 500);
    assert_eq!(AppError::ExternalService(String::new()).status_code(), 502);
    assert_eq!(AppError::Serialization(String::new()).status_code(), 500);
    assert_eq!(
        AppError::ExternalService("down".to_string()).describe(),
        "External Service Error: down"
    );
}

#[test]
fn stored_contents_are_the_encoded_records() {
    let mut repo = FileHolidayRepository::new("data".to_string());
    let holidays = vec![Holiday::new(date(2023, 8, 17), "HUT RI".to_string(), false)];
    repo.save_holidays(&holidays, 2023).unwrap();
    let contents = repo.file_contents(2023).expect("contents for the saved year");
    assert_eq!(
        contents,
        "[{\"tanggal\":\"2023-08-17\",\"keterangan\":\"HUT RI\"}]"
    );
    assert!(repo.file_contents(2024).is_none());
    // what the durable layer writes back loads unchanged
    let mut repo2 = FileHolidayRepository::new("data".to_string());
    repo2.insert_file(2023, contents.clone());
    let loaded = repo2.get_holidays_by_year(2023).unwrap();
    assert_eq!(loaded.len(), 1);
    assert_eq!(loaded[0].description, "HUT RI");
}
