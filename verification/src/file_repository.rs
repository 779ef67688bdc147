//! The year-partitioned cache. The repository holds, per year, the exact
//! encoded file contents; the durable layer mirrors those strings to disk
//! unchanged, so everything proved here about what a year's file holds and
//! what loading it returns carries over to the files themselves.

use vstd::prelude::*;
use std::collections::HashMap;
use crate::app_error::{AppError, AppResult};
use crate::date_utils::{parse_iso, parse_iso_date, valid_date, dec_digits, push_dec_digits};
use crate::holiday::{
    Holiday, HolidayRaw, HolidayRawView, HolidayView, holiday_wf, spec_is_joint_leave,
    derive_is_joint_leave,
};
use crate::json_codec::{encode_records, encode_holiday_records, parse_top, parse_holiday_records};
use crate::text::{append_str, chars_to_string, str_chars};
use vstd::string::StrSliceExecFns;

verus! {

broadcast use vstd::std_specs::hash::group_hash_axioms;

/// A holiday the cache will accept: a valid date and a non-empty description.
/// The joint-leave flag is deliberately unconstrained; it is never stored.
pub open spec fn holiday_storable(h: HolidayView) -> bool {
    valid_date(h.date) && h.description.len() > 0
}

/// All holidays of a list are storable.
pub open spec fn all_storable(hs: Seq<HolidayView>) -> bool {
    forall|i: int| 0 <= i < hs.len() ==> holiday_storable(hs[i])
}

/// All holidays of a list are well-formed.
pub open spec fn all_wf(hs: Seq<HolidayView>) -> bool {
    forall|i: int| 0 <= i < hs.len() ==> holiday_wf(hs[i])
}

/// The persisted record a holiday is written as.
pub open spec fn raw_of(h: HolidayView) -> HolidayRawView {
    HolidayRawView { tanggal: crate::date_utils::iso_date_chars(h.date), keterangan: h.description }
}

/// The persisted records of a whole list.
pub open spec fn raws_of(hs: Seq<HolidayView>) -> Seq<HolidayRawView> {
    hs.map_values(|h: HolidayView| raw_of(h))
}

/// The holiday a persisted record denotes: its date string must parse as a
/// valid calendar date and its description must be non-empty; the joint-leave
/// flag is recomputed from the description.
pub open spec fn raw_to_holiday(r: HolidayRawView) -> Option<HolidayView> {
    match parse_iso_date(r.tanggal) {
        Some(d) => if r.keterangan.len() > 0 {
            Some(
                HolidayView {
                    date: d,
                    description: r.keterangan,
                    is_joint_leave: spec_is_joint_leave(r.keterangan),
                },
            )
        } else {
            None
        },
        None => None,
    }
}

/// Converts every record, failing as a whole if any single record is
/// malformed.
pub open spec fn convert_all(raws: Seq<HolidayRawView>) -> Option<Seq<HolidayView>>
    decreases raws.len(),
{
    if raws.len() == 0 {
        Some(seq![])
    } else {
        match convert_all(raws.drop_last()) {
            Some(hs) => match raw_to_holiday(raws.last()) {
                Some(h) => Some(hs.push(h)),
                None => None,
            },
            None => None,
        }
    }
}

proof fn lemma_convert_all_none_extends(raws: Seq<HolidayRawView>, k: int)
    requires
        0 <= k <= raws.len(),
        convert_all(raws.take(k)) is None,
    ensures
        convert_all(raws) is None,
    decreases raws.len(),
{
    if raws.len() > k {
        assert(raws.drop_last().take(k) =~= raws.take(k));
        lemma_convert_all_none_extends(raws.drop_last(), k);
    } else {
        assert(raws.take(k) =~= raws);
    }
}

/// Converting the stored records of storable holidays succeeds, and gives
/// back each date and description unchanged with the joint-leave flag
/// recomputed from the description.
proof fn lemma_convert_all_raws(hs: Seq<HolidayView>)
    requires
        all_storable(hs),
    ensures
        convert_all(raws_of(hs)) matches Some(hs2) && hs2.len() == hs.len() && (forall|i: int|
            0 <= i < hs.len() ==> (#[trigger] hs2[i]).date == hs[i].date && hs2[i].description
                == hs[i].description && hs2[i].is_joint_leave == spec_is_joint_leave(
                hs[i].description,
            )),
    decreases hs.len(),
{
    if hs.len() == 0 {
        assert(raws_of(hs) =~= Seq::<HolidayRawView>::empty());
    } else {
        assert(all_storable(hs.drop_last()));
        lemma_convert_all_raws(hs.drop_last());
        assert(raws_of(hs).drop_last() =~= raws_of(hs.drop_last()));
        assert(raws_of(hs).last() == raw_of(hs.last()));
        crate::date_utils::lemma_iso_roundtrip(hs.last().date);
        assert(raw_to_holiday(raw_of(hs.last())) matches Some(h) && h.date == hs.last().date
            && h.description == hs.last().description && h.is_joint_leave == spec_is_joint_leave(
            hs.last().description,
        ));
    }
}

/// Storing a set of holidays for a year and loading that year back yields a
/// list equal on date and description, with the joint-leave flag recomputed
/// from each description, whatever the flag was when the set was stored.
pub proof fn lemma_put_get_roundtrip(m: Map<i32, Seq<char>>, year: i32, hs: Seq<HolidayView>)
    requires
        all_storable(hs),
    ensures
        ({
            let m2 = m.insert(year, encode_records(raws_of(hs)));
            &&& m2.contains_key(year)
            &&& parse_top(m2[year]) == Some(raws_of(hs))
            &&& convert_all(raws_of(hs)) matches Some(hs2) && hs2.len() == hs.len() && (forall|
                i: int,
            |
                0 <= i < hs.len() ==> (#[trigger] hs2[i]).date == hs[i].date && hs2[i].description
                    == hs[i].description && hs2[i].is_joint_leave == spec_is_joint_leave(
                    hs[i].description,
                ))
        }),
{
    crate::json_codec::lemma_encode_parse_roundtrip(raws_of(hs));
    lemma_convert_all_raws(hs);
}

/// The file cache, one entry per year. The entry for a year is the exact
/// character content of that year's file.
pub struct FileHolidayRepository {
    data_dir: String,
    files: HashMap<i32, String>,
}

impl View for FileHolidayRepository {
    type V = Map<i32, Seq<char>>;

    /// The directory as a map from year to file contents.
    closed spec fn view(&self) -> Map<i32, Seq<char>> {
        Map::new(|y: i32| self.files@.contains_key(y), |y: i32| self.files@[y]@)
    }
}

impl FileHolidayRepository {
    /// The configured storage root.
    pub closed spec fn spec_data_dir(&self) -> Seq<char> {
        self.data_dir@
    }

    pub fn new(data_dir: String) -> (r: Self)
        ensures
            r@ == Map::<i32, Seq<char>>::empty(),
            r.spec_data_dir() == data_dir@,
    {
        let r = FileHolidayRepository { data_dir, files: HashMap::new() };
        proof {
            assert(r@ =~= Map::<i32, Seq<char>>::empty());
        }
        r
    }

    /// The file a year is cached in: `{data_dir}/{year}.json`.
    pub fn get_file_path(&self, year: i32) -> (r: String)
        requires
            0 <= year,
        ensures
            r@ == self.spec_data_dir() + "/"@ + dec_digits(year as int) + ".json"@,
    {
        let mut out: Vec<char> = Vec::new();
        append_str(&mut out, self.data_dir.as_str());
        append_str(&mut out, "/");
        push_dec_digits(&mut out, year as u32);
        append_str(&mut out, ".json");
        chars_to_string(&out)
    }

    /// Converts a holiday to its persisted record.
    pub fn convert_domain_to_raw(&self, holiday: &Holiday) -> (r: HolidayRaw)
        requires
            valid_date(holiday.date),
        ensures
            r@ == raw_of(holiday@),
    {
        HolidayRaw { tanggal: holiday.format_date(), keterangan: holiday.description.clone() }
    }

    /// Converts a persisted record back to a holiday, recomputing the
    /// joint-leave flag; a record with an unparsable date or an empty
    /// description is rejected.
    pub fn convert_raw_to_domain(&self, raw: &HolidayRaw) -> (r: AppResult<Holiday>)
        ensures
            match r {
                Ok(h) => raw_to_holiday(raw@) == Some(h@) && holiday_wf(h@),
                Err(e) => raw_to_holiday(raw@) is None && e is BadRequest,
            },
    {
        let chars = str_chars(raw.tanggal.as_str());
        match parse_iso(&chars) {
            Some(date) => {
                if raw.keterangan.as_str().is_empty() {
                    Err(AppError::BadRequest("Empty holiday description".to_owned()))
                } else {
                    let flag = derive_is_joint_leave(raw.keterangan.as_str());
                    Ok(Holiday::new(date, raw.keterangan.clone(), flag))
                }
            },
            None => Err(AppError::BadRequest("Invalid date format".to_owned())),
        }
    }

    /// Stores a year's complete holiday set, fully overwriting any prior
    /// contents for that year and leaving every other year untouched.
    pub fn save_holidays(&mut self, holidays: &Vec<Holiday>, year: i32) -> (r: AppResult<()>)
        requires
            all_storable(holidays.deep_view()),
        ensures
            r is Ok,
            final(self)@ == old(self)@.insert(year, encode_records(raws_of(holidays.deep_view()))),
            final(self).spec_data_dir() == old(self).spec_data_dir(),
    {
        let ghost dvh = holidays.deep_view();
        let mut raws: Vec<HolidayRaw> = Vec::new();
        let n = holidays.len();
        let mut i: usize = 0;
        while i < n
            invariant
                i <= n,
                n == holidays@.len(),
                dvh == holidays.deep_view(),
                dvh.len() == n,
                all_storable(dvh),
                raws.deep_view() == raws_of(dvh.take(i as int)),
            decreases n - i,
        {
            proof {
                assert(dvh[i as int] == holidays@[i as int]@);
            }
            let raw = self.convert_domain_to_raw(&holidays[i]);
            let ghost prev = raws.deep_view();
            raws.push(raw);
            proof {
                assert(raws.deep_view() =~= prev.push(raw@));
                assert(raws_of(dvh.take(i as int + 1)) =~= prev.push(raw@));
            }
            i = i + 1;
        }
        proof {
            assert(dvh.take(n as int) =~= dvh);
        }
        let contents = encode_holiday_records(&raws);
        self.files.insert(year, contents);
        proof {
            assert(self@ =~= old(self)@.insert(year, encode_records(raws_of(holidays.deep_view()))));
        }
        Ok(())
    }

    /// Loads a year's holidays: absent year, malformed file and malformed
    /// record each fail with their own error kind.
    pub fn get_holidays_by_year(&self, year: i32) -> (r: AppResult<Vec<Holiday>>)
        requires
            0 <= year,
        ensures
            !self@.contains_key(year) ==> (r matches Err(e) && e matches AppError::NotFound(m)
                && m@ == "Holiday data not found for year "@ + dec_digits(year as int)),
            self@.contains_key(year) && parse_top(self@[year]) is None ==> (r matches Err(e)
                && e is Serialization),
            self@.contains_key(year) ==> (parse_top(self@[year]) matches Some(raws)
                ==> match convert_all(raws) {
                Some(hs) => r matches Ok(v) && v.deep_view() == hs,
                None => r matches Err(e) && e is BadRequest,
            }),
            r matches Ok(v) ==> all_wf(v.deep_view()),
    {
        match self.files.get(&year) {
            None => {
                let mut msg: Vec<char> = Vec::new();
                append_str(&mut msg, "Holiday data not found for year ");
                push_dec_digits(&mut msg, year as u32);
                Err(AppError::NotFound(chars_to_string(&msg)))
            },
            Some(contents) => {
                proof {
                    assert(self.files@.contains_key(year) && self.files@[year] == *contents);
                    assert(self@.contains_key(year));
                    assert(self@[year] == contents@);
                }
                match parse_holiday_records(contents.as_str()) {
                    None => Err(AppError::Serialization("Malformed holiday file".to_owned())),
                    Some(raws) => {
                        let ghost rdv = raws.deep_view();
                        let mut out: Vec<Holiday> = Vec::new();
                        let n = raws.len();
                        let mut i: usize = 0;
                        while i < n
                            invariant
                                i <= n,
                                n == raws@.len(),
                                rdv == raws.deep_view(),
                                rdv.len() == n,
                                self@.contains_key(year),
                                parse_top(self@[year]) == Some(rdv),
                                convert_all(rdv.take(i as int)) == Some(out.deep_view()),
                                all_wf(out.deep_view()),
                            decreases n - i,
                        {
                            match self.convert_raw_to_domain(&raws[i]) {
                                Ok(h) => {
                                    let ghost prev = out.deep_view();
                                    out.push(h);
                                    proof {
                                        assert(rdv.take(i as int + 1).drop_last() =~= rdv.take(
                                            i as int,
                                        ));
                                        assert(rdv.take(i as int + 1).last() == rdv[i as int]);
                                        assert(out.deep_view() =~= prev.push(h@));
                                    }
                                },
                                Err(e) => {
                                    proof {
                                        assert(rdv.take(i as int + 1).drop_last() =~= rdv.take(
                                            i as int,
                                        ));
                                        assert(convert_all(rdv.take(i as int + 1)) is None);
                                        lemma_convert_all_none_extends(rdv, i as int + 1);
                                    }
                                    return Err(e);
                                },
                            }
                            i = i + 1;
                        }
                        proof {
                            assert(rdv.take(n as int) =~= rdv);
                        }
                        Ok(out)
                    },
                }
            },
        }
    }

    /// Whether any data is cached for the year; never fails.
    pub fn holidays_exist_for_year(&self, year: i32) -> (r: AppResult<bool>)
        ensures
            r matches Ok(b) && b == self@.contains_key(year),
    {
        Ok(self.files.contains_key(&year))
    }

    /// The exact file contents held for a year, for the durable layer to
    /// write out.
    pub fn file_contents(&self, year: i32) -> (r: Option<&String>)
        ensures
            match r {
                Some(s) => self@.contains_key(year) && s@ == self@[year],
                None => !self@.contains_key(year),
            },
    {
        self.files.get(&year)
    }

    /// Adopts file contents found on disk for a year, as the durable layer
    /// reports them at startup.
    pub fn insert_file(&mut self, year: i32, contents: String)
        ensures
            final(self)@ == old(self)@.insert(year, contents@),
            final(self).spec_data_dir() == old(self).spec_data_dir(),
    {
        let ghost c = contents@;
        self.files.insert(year, contents);
        proof {
            assert(self@ =~= old(self)@.insert(year, c));
        }
    }
}

} // verus!
