//! The holiday entity and its on-disk shape. A holiday has a valid calendar
//! date, a non-empty description, and a joint-leave flag that is never stored:
//! it is derived from the description text alone.

use vstd::prelude::*;
use crate::date_utils::{Date, iso_date_chars, valid_date};
use crate::text::{chars_contain, seq_contains, str_chars};

verus! {

/// The marker substring that classifies a holiday as joint leave.
pub open spec fn joint_leave_marker() -> Seq<char> {
    "Cuti Bersama"@
}

/// Whether a description classifies its holiday as joint leave.
pub open spec fn spec_is_joint_leave(desc: Seq<char>) -> bool {
    seq_contains(desc, joint_leave_marker())
}

/// The one derivation of the joint-leave flag: the description contains the
/// marker substring.
pub fn derive_is_joint_leave(desc: &str) -> (r: bool)
    ensures
        r == spec_is_joint_leave(desc@),
{
    let marker = str_chars("Cuti Bersama");
    let d = str_chars(desc);
    chars_contain(&d, &marker)
}

/// A holiday: its date, its description, and the derived joint-leave flag.
pub struct Holiday {
    pub date: Date,
    pub description: String,
    pub is_joint_leave: bool,
}

/// The mathematical shape of a holiday.
pub struct HolidayView {
    pub date: Date,
    pub description: Seq<char>,
    pub is_joint_leave: bool,
}

impl View for Holiday {
    type V = HolidayView;

    open spec fn view(&self) -> HolidayView {
        HolidayView {
            date: self.date,
            description: self.description@,
            is_joint_leave: self.is_joint_leave,
        }
    }
}

impl DeepView for Holiday {
    type V = HolidayView;

    open spec fn deep_view(&self) -> HolidayView {
        self.view()
    }
}

/// Every holiday the crate persists or returns satisfies this: a valid
/// calendar date, a non-empty description, and a flag that agrees with the
/// description text.
pub open spec fn holiday_wf(h: HolidayView) -> bool {
    &&& valid_date(h.date)
    &&& h.description.len() > 0
    &&& h.is_joint_leave == spec_is_joint_leave(h.description)
}

impl Holiday {
    pub fn new(date: Date, description: String, is_joint_leave: bool) -> (r: Holiday)
        ensures
            r@ == (HolidayView { date, description: description@, is_joint_leave }),
    {
        Holiday { date, description, is_joint_leave }
    }

    pub fn is_joint_leave(&self) -> (r: bool)
        ensures
            r == self.is_joint_leave,
    {
        self.is_joint_leave
    }

    /// The ISO `YYYY-MM-DD` rendering of the holiday's date.
    pub fn format_date(&self) -> (r: String)
        requires
            valid_date(self.date),
        ensures
            r@ == iso_date_chars(self.date),
    {
        self.date.format_iso()
    }
}

/// The persisted shape of a holiday: the ISO date string and the raw
/// description, under the stored field names.
pub struct HolidayRaw {
    pub tanggal: String,
    pub keterangan: String,
}

/// The mathematical shape of a persisted record.
pub struct HolidayRawView {
    pub tanggal: Seq<char>,
    pub keterangan: Seq<char>,
}

impl View for HolidayRaw {
    type V = HolidayRawView;

    open spec fn view(&self) -> HolidayRawView {
        HolidayRawView { tanggal: self.tanggal@, keterangan: self.keterangan@ }
    }
}

impl DeepView for HolidayRaw {
    type V = HolidayRawView;

    open spec fn deep_view(&self) -> HolidayRawView {
        self.view()
    }
}

} // verus!
