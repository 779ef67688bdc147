//! Indonesian public-holiday calendar service core.
//!
//! The crate scrapes a public page for a year's holidays, persists them in a
//! year-partitioned cache, serves them grouped by leave type, and refreshes
//! them once a year on the January 1 boundary.

pub mod api_response;
pub mod app_error;
pub mod config;
pub mod date_utils;
pub mod file_repository;
pub mod get_holidays;
pub mod holiday;
pub mod holiday_dto;
pub mod holiday_scheduler;
pub mod holiday_service;
pub mod json_codec;
pub mod scrape_holidays;
pub mod scraper_service;
pub mod text;

pub use api_response::ApiResponse;
pub use app_error::{AppError, AppResult};
pub use config::Config;
pub use holiday_scheduler::{SchedulerAction, SchedulerEvent, SchedulerState, scheduler_step};
pub use date_utils::{Date, format_date_indonesia, get_current_year, is_valid_year};
pub use file_repository::FileHolidayRepository;
pub use get_holidays::GetHolidaysUseCase;
pub use scrape_holidays::ScrapeHolidaysUseCase;
pub use holiday::{Holiday, HolidayRaw, derive_is_joint_leave};
pub use holiday_dto::{GroupedHolidaysDto, HolidayDto};
pub use holiday_service::HolidayDomainService;
pub use scraper_service::WebScrapingService;
