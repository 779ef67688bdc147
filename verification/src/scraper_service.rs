//! The holiday scraper: given the fetched page for a year, it walks the month
//! sections, maps each Indonesian month label to its month number, reads the
//! day and description cells of every row, and keeps exactly the rows that
//! form a valid holiday. The HTML selection itself is done by the `scraper`
//! crate behind trusted wrappers; everything decided about the selected text
//! is verified.

use vstd::prelude::*;
use std::collections::HashMap;
use crate::app_error::{AppError, AppResult};
use crate::date_utils::{Date, dec_digits, push_dec_digits, valid_ymd};
use crate::holiday::{Holiday, HolidayView, holiday_wf, spec_is_joint_leave, derive_is_joint_leave};
use crate::text::{
    append_str, chars_eq_str, chars_to_string, char_is_numeric, is_numeric_char, lower_of,
    lowercase, str_chars, trim_chars, trim_spec,
};

verus! {

// ---------------------------------------------------------------------------
// Trusted wrappers around the `scraper` crate
// ---------------------------------------------------------------------------
/// Whether `scraper::Selector::parse` accepts a selector; a function of the
/// selector text alone.
pub uninterp spec fn selector_ok(sel: Seq<char>) -> bool;

/// The outer HTML of the elements a selector matches, in document order, when
/// the text is parsed as a full HTML document.
pub uninterp spec fn doc_matches(page: Seq<char>, sel: Seq<char>) -> Seq<Seq<char>>;

/// The outer HTML of the elements a selector matches, in document order, when
/// the text is parsed as an HTML fragment.
pub uninterp spec fn frag_matches(frag: Seq<char>, sel: Seq<char>) -> Seq<Seq<char>>;

/// The concatenated text of the first element a selector matches in an HTML
/// fragment, or nothing when the selector matches no element.
pub uninterp spec fn frag_first_text(frag: Seq<char>, sel: Seq<char>) -> Option<Seq<char>>;

/// Relies on `scraper::Selector::parse`, `scraper::Html::parse_document`,
/// `scraper::Html::select` and `scraper::ElementRef::html`: parses the page as
/// a document and hands out the outer HTML of every match, in document order;
/// fails exactly when the selector text is rejected.
#[verifier::external_body]
fn select_in_document(page: &str, selector: &str) -> (r: Option<Vec<String>>)
    ensures
        r is Some <==> selector_ok(selector@),
        r matches Some(v) ==> v.deep_view() == doc_matches(page@, selector@),
{
    match scraper::Selector::parse(selector) {
        Ok(sel) => {
            let doc = scraper::Html::parse_document(page);
            Some(doc.select(&sel).map(|e| e.html()).collect())
        },
        Err(_) => None,
    }
}

/// Relies on `scraper::Selector::parse`, `scraper::Html::parse_fragment`,
/// `scraper::Html::select` and `scraper::ElementRef::html`: as
/// `select_in_document`, but the text is parsed as a fragment.
#[verifier::external_body]
fn select_in_fragment(frag: &str, selector: &str) -> (r: Option<Vec<String>>)
    ensures
        r is Some <==> selector_ok(selector@),
        r matches Some(v) ==> v.deep_view() == frag_matches(frag@, selector@),
{
    match scraper::Selector::parse(selector) {
        Ok(sel) => {
            let doc = scraper::Html::parse_fragment(frag);
            Some(doc.select(&sel).map(|e| e.html()).collect())
        },
        Err(_) => None,
    }
}

/// Relies on `scraper::Selector::parse`, `scraper::Html::parse_fragment`,
/// `scraper::Html::select` and `scraper::ElementRef::text`: the concatenated
/// text of the first match in the fragment; fails exactly when the selector
/// text is rejected.
#[verifier::external_body]
fn first_text_in_fragment(frag: &str, selector: &str) -> (r: Option<Option<String>>)
    ensures
        r is Some <==> selector_ok(selector@),
        r matches Some(t) ==> t.deep_view() == frag_first_text(frag@, selector@),
{
    match scraper::Selector::parse(selector) {
        Ok(sel) => {
            let doc = scraper::Html::parse_fragment(frag);
            Some(doc.select(&sel).next().map(|e| e.text().collect::<String>()))
        },
        Err(_) => None,
    }
}

/// The concatenated text of the first element a selector matches in a table
/// row, the row being parsed back in table context.
pub uninterp spec fn row_first_text(row: Seq<char>, sel: Seq<char>) -> Option<Seq<char>>;

/// Relies on `scraper::Selector::parse`, `scraper::Html::parse_fragment`,
/// `scraper::Html::select` and `scraper::ElementRef::text`: the concatenated
/// text of the first match in a table row. A bare row only parses inside a
/// table, so the row is wrapped in one before parsing; fails exactly when the
/// selector text is rejected.
#[verifier::external_body]
fn first_text_in_row(row: &str, selector: &str) -> (r: Option<Option<String>>)
    ensures
        r is Some <==> selector_ok(selector@),
        r matches Some(t) ==> t.deep_view() == row_first_text(row@, selector@),
{
    match scraper::Selector::parse(selector) {
        Ok(sel) => {
            let wrapped = format!("<table>{}</table>", row);
            let doc = scraper::Html::parse_fragment(&wrapped);
            Some(doc.select(&sel).next().map(|e| e.text().collect::<String>()))
        },
        Err(_) => None,
    }
}

// ---------------------------------------------------------------------------
// Month-name mapping
// ---------------------------------------------------------------------------
/// `s` with every numeric character removed, as
/// `str::replace(char::is_numeric, "")` leaves it.
pub open spec fn strip_numeric_spec(s: Seq<char>) -> Seq<char>
    decreases s.len(),
{
    if s.len() == 0 {
        seq![]
    } else if is_numeric_char(s[0]) {
        strip_numeric_spec(s.drop_first())
    } else {
        seq![s[0]] + strip_numeric_spec(s.drop_first())
    }
}

proof fn lemma_strip_numeric_push(s: Seq<char>, c: char)
    ensures
        strip_numeric_spec(s.push(c)) == strip_numeric_spec(s) + (if is_numeric_char(c) {
            seq![]
        } else {
            seq![c]
        }),
    decreases s.len(),
{
    let tail: Seq<char> = if is_numeric_char(c) {
        seq![]
    } else {
        seq![c]
    };
    if s.len() == 0 {
        assert(s.push(c)[0] == c);
        assert(s.push(c).drop_first() =~= seq![]);
        if is_numeric_char(c) {
            assert(strip_numeric_spec(Seq::<char>::empty()) =~= seq![]);
            assert(strip_numeric_spec(s.push(c)) == strip_numeric_spec(s.push(c).drop_first()));
            assert(strip_numeric_spec(s.push(c)) =~= strip_numeric_spec(s) + tail);
        } else {
            assert(seq![c] + strip_numeric_spec(seq![]) =~= strip_numeric_spec(s) + tail);
        }
    } else {
        assert(s.push(c).drop_first() =~= s.drop_first().push(c));
        lemma_strip_numeric_push(s.drop_first(), c);
        if is_numeric_char(s[0]) {
        } else {
            assert(seq![s[0]] + (strip_numeric_spec(s.drop_first()) + tail) =~= (seq![s[0]]
                + strip_numeric_spec(s.drop_first())) + tail);
        }
    }
}

/// Removes every numeric character.
fn strip_numeric(v: &Vec<char>) -> (r: Vec<char>)
    ensures
        r@ == strip_numeric_spec(v@),
{
    let n = v.len();
    let mut r: Vec<char> = Vec::new();
    let mut i: usize = 0;
    while i < n
        invariant
            i <= n,
            n == v@.len(),
            r@ == strip_numeric_spec(v@.take(i as int)),
        decreases n - i,
    {
        let c = v[i];
        let ghost prev = r@;
        if !char_is_numeric(c) {
            r.push(c);
        }
        proof {
            lemma_strip_numeric_push(v@.take(i as int), v@[i as int]);
            assert(v@.take(i as int).push(v@[i as int]) =~= v@.take(i as int + 1));
            if is_numeric_char(v@[i as int]) {
                assert(prev + seq![] =~= prev);
            }
        }
        i = i + 1;
    }
    proof {
        assert(v@.take(n as int) =~= v@);
    }
    r
}

/// The normalized form of a month label: lowercased, numerals removed,
/// trimmed.
pub open spec fn normalized_label(label: Seq<char>) -> Seq<char> {
    trim_spec(strip_numeric_spec(lower_of(label)))
}

/// The month number a normalized Indonesian month name denotes; an
/// unrecognized name falls back to month 1.
pub open spec fn month_code_of(name: Seq<char>) -> u32 {
    if name == "januari"@ {
        1
    } else if name == "februari"@ {
        2
    } else if name == "maret"@ {
        3
    } else if name == "april"@ {
        4
    } else if name == "mei"@ {
        5
    } else if name == "juni"@ {
        6
    } else if name == "juli"@ {
        7
    } else if name == "agustus"@ {
        8
    } else if name == "september"@ {
        9
    } else if name == "oktober"@ {
        10
    } else if name == "november"@ {
        11
    } else if name == "desember"@ {
        12
    } else {
        1
    }
}

fn month_code_exec(name: &Vec<char>) -> (r: u32)
    ensures
        r == month_code_of(name@),
        1 <= r <= 12,
{
    if chars_eq_str(name, "januari") {
        1
    } else if chars_eq_str(name, "februari") {
        2
    } else if chars_eq_str(name, "maret") {
        3
    } else if chars_eq_str(name, "april") {
        4
    } else if chars_eq_str(name, "mei") {
        5
    } else if chars_eq_str(name, "juni") {
        6
    } else if chars_eq_str(name, "juli") {
        7
    } else if chars_eq_str(name, "agustus") {
        8
    } else if chars_eq_str(name, "september") {
        9
    } else if chars_eq_str(name, "oktober") {
        10
    } else if chars_eq_str(name, "november") {
        11
    } else if chars_eq_str(name, "desember") {
        12
    } else {
        1
    }
}

// ---------------------------------------------------------------------------
// Row and section interpretation
// ---------------------------------------------------------------------------
/// The text an optional selection yields: missing elements read as empty.
pub open spec fn or_empty(t: Option<Seq<char>>) -> Seq<char> {
    match t {
        Some(s) => s,
        None => seq![],
    }
}

/// The day of the month a day cell denotes: its trimmed text must be one or
/// two decimal digits.
pub open spec fn parse_day(s: Seq<char>) -> Option<int> {
    if s.len() == 1 && crate::date_utils::is_dec_digit(s[0]) {
        Some(crate::date_utils::digit_val(s[0]))
    } else if s.len() == 2 && crate::date_utils::is_dec_digit(s[0])
        && crate::date_utils::is_dec_digit(s[1]) {
        Some(crate::date_utils::digit_val(s[0]) * 10 + crate::date_utils::digit_val(s[1]))
    } else {
        None
    }
}

/// The date composed from the year, a month number and a day cell's text, if
/// the text parses and the three numbers form a valid calendar date.
pub open spec fn composed_date(year: i32, month: u32, day: Seq<char>) -> Option<Date> {
    match parse_day(trim_spec(day)) {
        Some(d) => if valid_ymd(year as int, month as int, d) {
            Some(Date { year, month, day: d as u32 })
        } else {
            None
        },
        None => None,
    }
}

/// The holiday a table row yields, if any: both cells must be non-empty after
/// trimming and the day must compose into a valid date; the joint-leave flag
/// is derived from the trimmed description.
pub open spec fn row_holiday(year: i32, month: u32, row: Seq<char>) -> Option<HolidayView> {
    let day_txt = or_empty(row_first_text(row, "td:first-child"@));
    let desc_txt = or_empty(row_first_text(row, "td:nth-child(2)"@));
    let desc_t = trim_spec(desc_txt);
    if trim_spec(day_txt).len() == 0 || desc_t.len() == 0 {
        None
    } else {
        match composed_date(year, month, day_txt) {
            Some(date) => Some(
                HolidayView {
                    date,
                    description: desc_t,
                    is_joint_leave: spec_is_joint_leave(desc_t),
                },
            ),
            None => None,
        }
    }
}

/// The holidays of a section's rows, in row order.
pub open spec fn rows_holidays(year: i32, month: u32, rows: Seq<Seq<char>>) -> Seq<HolidayView>
    decreases rows.len(),
{
    if rows.len() == 0 {
        seq![]
    } else {
        rows_holidays(year, month, rows.drop_last()) + (match row_holiday(
            year,
            month,
            rows.last(),
        ) {
            Some(h) => seq![h],
            None => seq![],
        })
    }
}

/// The month number a section's label line denotes.
pub open spec fn section_month(sec: Seq<char>) -> u32 {
    month_code_of(normalized_label(or_empty(frag_first_text(sec, "li a"@))))
}

/// The holidays of one month section.
pub open spec fn section_holidays(year: i32, sec: Seq<char>) -> Seq<HolidayView> {
    rows_holidays(year, section_month(sec), frag_matches(sec, "li:nth-child(4) tbody tr"@))
}

/// The holidays of a sequence of sections, in order.
pub open spec fn sections_holidays(year: i32, secs: Seq<Seq<char>>) -> Seq<HolidayView>
    decreases secs.len(),
{
    if secs.len() == 0 {
        seq![]
    } else {
        sections_holidays(year, secs.drop_last()) + section_holidays(year, secs.last())
    }
}

/// Every holiday the whole page yields, in document order.
pub open spec fn page_holidays(year: i32, page: Seq<char>) -> Seq<HolidayView> {
    sections_holidays(year, doc_matches(page, "article ul"@))
}

/// All five fixed selectors the scraper is built on parse.
pub open spec fn scrape_selectors_ok() -> bool {
    &&& selector_ok("article ul"@)
    &&& selector_ok("li a"@)
    &&& selector_ok("li:nth-child(4) tbody tr"@)
    &&& selector_ok("td:first-child"@)
    &&& selector_ok("td:nth-child(2)"@)
}

/// Scrapes holiday data out of the fetched page for a year.
pub struct WebScrapingService;

impl WebScrapingService {
    pub fn new() -> (r: Self) {
        WebScrapingService
    }

    /// The Indonesian month names and their two-digit month codes, as the
    /// page labels its sections. The verified mapping the scraper decides by
    /// is `month_code_of`; this table mirrors it for callers.
    pub fn get_month_map() -> HashMap<&'static str, &'static str> {
        let mut m: HashMap<&'static str, &'static str> = HashMap::new();
        m.insert("januari", "01");
        m.insert("februari", "02");
        m.insert("maret", "03");
        m.insert("april", "04");
        m.insert("mei", "05");
        m.insert("juni", "06");
        m.insert("juli", "07");
        m.insert("agustus", "08");
        m.insert("september", "09");
        m.insert("oktober", "10");
        m.insert("november", "11");
        m.insert("desember", "12");
        m
    }

    /// Parses a day cell against a year and month into a date; rejection is a
    /// bad request, exactly when the text or the resulting date is invalid.
    pub fn parse_date(&self, year: i32, month: u32, day: &str) -> (r: AppResult<Date>)
        ensures
            match r {
                Ok(d) => composed_date(year, month, day@) == Some(d),
                Err(e) => composed_date(year, month, day@) is None && e is BadRequest,
            },
    {
        let chars = str_chars(day);
        let trimmed = trim_chars(&chars);
        let day_num: u32 = if trimmed.len() == 1 {
            let d0 = digit_val_u32(trimmed[0]);
            if d0 < 10 {
                d0
            } else {
                return Err(AppError::BadRequest("Invalid date format".to_owned()));
            }
        } else if trimmed.len() == 2 {
            let d0 = digit_val_u32(trimmed[0]);
            let d1 = digit_val_u32(trimmed[1]);
            if d0 < 10 && d1 < 10 {
                d0 * 10 + d1
            } else {
                return Err(AppError::BadRequest("Invalid date format".to_owned()));
            }
        } else {
            return Err(AppError::BadRequest("Invalid date format".to_owned()));
        };
        match Date::new(year, month, day_num) {
            Some(date) => Ok(date),
            None => Err(AppError::BadRequest("Invalid date format".to_owned())),
        }
    }

    /// Parses the fetched page for a year into its holidays: malformed rows
    /// are skipped, an unusable selector is an internal fault, and a page
    /// with no usable rows at all is an external-service failure.
    pub fn scrape_holidays_for_year(&self, year: i32, page: &str) -> (r: AppResult<Vec<Holiday>>)
        requires
            1900 <= year <= 2100,
        ensures
            r matches Ok(v) ==> v.deep_view() == page_holidays(year, page@) && v@.len() > 0
                && crate::file_repository::all_wf(v.deep_view()),
            r matches Err(e) ==> e is InternalServer || e is ExternalService,
            (r matches Err(e) && e is ExternalService) ==> page_holidays(year, page@).len() == 0,
            r matches Err(e) ==> (e matches AppError::ExternalService(m) ==> m@
                == "No holidays found for year "@ + dec_digits(year as int)
                + " from external source"@),
            (r matches Err(e) && e is InternalServer) ==> !scrape_selectors_ok(),
            scrape_selectors_ok() && page_holidays(year, page@).len() > 0 ==> r is Ok,
    {
        let sections = match select_in_document(page, "article ul") {
            Some(s) => s,
            None => {
                return Err(AppError::InternalServer("CSS selector error".to_owned()));
            },
        };
        let ghost secs = sections.deep_view();
        let mut holidays: Vec<Holiday> = Vec::new();
        let ns = sections.len();
        let mut i: usize = 0;
        while i < ns
            invariant
                i <= ns,
                ns == sections@.len(),
                secs == sections.deep_view(),
                secs.len() == ns,
                selector_ok("article ul"@),
                secs == doc_matches(page@, "article ul"@),
                holidays.deep_view() == sections_holidays(year, secs.take(i as int)),
                crate::file_repository::all_wf(holidays.deep_view()),
                1900 <= year <= 2100,
            decreases ns - i,
        {
            proof {
                assert(secs[i as int] == sections@[i as int]@);
            }
            let label = match first_text_in_fragment(sections[i].as_str(), "li a") {
                Some(t) => match t {
                    Some(s) => s,
                    None => String::new(),
                },
                None => {
                    return Err(AppError::InternalServer("CSS selector error".to_owned()));
                },
            };
            let lowered = lowercase(label.as_str());
            let lchars = str_chars(lowered.as_str());
            let stripped = strip_numeric(&lchars);
            let norm = trim_chars(&stripped);
            let month = month_code_exec(&norm);
            proof {
                assert(month == section_month(secs[i as int]));
            }
            let rows = match select_in_fragment(
                sections[i].as_str(),
                "li:nth-child(4) tbody tr",
            ) {
                Some(v) => v,
                None => {
                    return Err(AppError::InternalServer("CSS selector error".to_owned()));
                },
            };
            let ghost rseq = rows.deep_view();
            let nr = rows.len();
            let mut j: usize = 0;
            while j < nr
                invariant
                    j <= nr,
                    nr == rows@.len(),
                    rseq == rows.deep_view(),
                    rseq.len() == nr,
                    rseq == frag_matches(secs[i as int], "li:nth-child(4) tbody tr"@),
                    month == section_month(secs[i as int]),
                    0 <= i < secs.len(),
                    secs == doc_matches(page@, "article ul"@),
                    holidays.deep_view() == sections_holidays(year, secs.take(i as int))
                        + rows_holidays(year, month, rseq.take(j as int)),
                    crate::file_repository::all_wf(holidays.deep_view()),
                    1900 <= year <= 2100,
                decreases nr - j,
            {
                proof {
                    assert(rseq[j as int] == rows@[j as int]@);
                }
                let day = match first_text_in_row(rows[j].as_str(), "td:first-child") {
                    Some(t) => match t {
                        Some(s) => s,
                        None => String::new(),
                    },
                    None => {
                        return Err(AppError::InternalServer("CSS selector error".to_owned()));
                    },
                };
                let desc = match first_text_in_row(rows[j].as_str(), "td:nth-child(2)") {
                    Some(t) => match t {
                        Some(s) => s,
                        None => String::new(),
                    },
                    None => {
                        return Err(AppError::InternalServer("CSS selector error".to_owned()));
                    },
                };
                let day_trimmed = trim_chars(&str_chars(day.as_str()));
                let desc_trimmed = trim_chars(&str_chars(desc.as_str()));
                let ghost prev = holidays.deep_view();
                if day_trimmed.len() > 0 && desc_trimmed.len() > 0 {
                    match self.parse_date(year, month, day.as_str()) {
                        Ok(date) => {
                            let description = chars_to_string(&desc_trimmed);
                            let flag = derive_is_joint_leave(description.as_str());
                            let h = Holiday::new(date, description, flag);
                            holidays.push(h);
                            proof {
                                assert(row_holiday(year, month, rseq[j as int]) == Some(h@));
                                assert(holidays.deep_view() =~= prev.push(h@));
                            }
                        },
                        Err(_) => {
                            proof {
                                assert(row_holiday(year, month, rseq[j as int]) is None);
                            }
                        },
                    }
                } else {
                    proof {
                        assert(row_holiday(year, month, rseq[j as int]) is None);
                    }
                }
                proof {
                    assert(rseq.take(j as int + 1).drop_last() =~= rseq.take(j as int));
                    assert(rseq.take(j as int + 1).last() == rseq[j as int]);
                    if row_holiday(year, month, rseq[j as int]) is None {
                        assert(holidays.deep_view() =~= prev);
                        assert(prev + Seq::<HolidayView>::empty() =~= prev);
                    }
                    assert(holidays.deep_view() == sections_holidays(year, secs.take(i as int))
                        + rows_holidays(year, month, rseq.take(j as int + 1)));
                }
                j = j + 1;
            }
            proof {
                assert(rseq.take(nr as int) =~= rseq);
                assert(secs.take(i as int + 1).drop_last() =~= secs.take(i as int));
                assert(secs.take(i as int + 1).last() == secs[i as int]);
                assert(holidays.deep_view() == sections_holidays(year, secs.take(i as int + 1)));
            }
            i = i + 1;
        }
        proof {
            assert(secs.take(ns as int) =~= secs);
        }
        if holidays.len() == 0 {
            let mut msg: Vec<char> = Vec::new();
            append_str(&mut msg, "No holidays found for year ");
            push_dec_digits(&mut msg, year as u32);
            append_str(&mut msg, " from external source");
            Err(AppError::ExternalService(chars_to_string(&msg)))
        } else {
            Ok(holidays)
        }
    }
}

fn digit_val_u32(c: char) -> (r: u32)
    ensures
        crate::date_utils::is_dec_digit(c) ==> r == crate::date_utils::digit_val(c),
        !crate::date_utils::is_dec_digit(c) ==> r == 10,
{
    match c {
        '0' => 0,
        '1' => 1,
        '2' => 2,
        '3' => 3,
        '4' => 4,
        '5' => 5,
        '6' => 6,
        '7' => 7,
        '8' => 8,
        '9' => 9,
        _ => 10,
    }
}

} // verus!
