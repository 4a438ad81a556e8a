//! The world adapter: the single data-provider handle the external
//! compiler consumes. It aggregates the file catalog, the font catalog,
//! and a private style snapshot; cloning for a task shares the catalogs
//! and duplicates only the style snapshot.
use vstd::prelude::*;
use vstd::utf8::{valid_utf8, decode_utf8};
use crate::errors::{FileError, ReadOutcome};
use crate::files::{package_dir, path_of, stays_within_root, FileId, FileStore, ResolvePlan};
use crate::fonts::{slot_load, FontCatalog};
use crate::schedule::Variant;
use typst::text::Font;

verus! {

/// The style overrides a task applies on top of the compiler's stock
/// library: font fallback, and optionally a family, weight, stretch, and
/// style.
pub struct StyleSnapshot {
    pub fallback: bool,
    pub family: Option<String>,
    pub weight: Option<u16>,
    pub stretch: Option<u16>,
    pub style: Option<u8>,
}

/// The mathematical value of a `StyleSnapshot`.
pub ghost struct StyleView {
    pub fallback: bool,
    pub family: Option<Seq<char>>,
    pub weight: Option<u16>,
    pub stretch: Option<u16>,
    pub style: Option<u8>,
}

impl View for StyleSnapshot {
    type V = StyleView;

    open spec fn view(&self) -> StyleView {
        StyleView {
            fallback: self.fallback,
            family: match self.family {
                Option::Some(f) => Option::Some(f@),
                Option::None => Option::None,
            },
            weight: self.weight,
            stretch: self.stretch,
            style: self.style,
        }
    }
}

impl StyleSnapshot {
    /// The stock styles: fallback enabled, nothing overridden.
    pub fn stock() -> (r: StyleSnapshot)
        ensures
            r@.fallback,
            r@.family is None,
            r@.weight is None,
            r@.stretch is None,
            r@.style is None,
    {
        StyleSnapshot {
            fallback: true,
            family: Option::None,
            weight: Option::None,
            stretch: Option::None,
            style: Option::None,
        }
    }

    /// An equal-valued copy.
    pub fn duplicate(&self) -> (r: StyleSnapshot)
        ensures
            r@ == self@,
    {
        StyleSnapshot {
            fallback: self.fallback,
            family: match &self.family {
                Option::Some(f) => Option::Some(f.clone()),
                Option::None => Option::None,
            },
            weight: self.weight,
            stretch: self.stretch,
            style: self.style,
        }
    }
}

/// Resets to the base styles, then sets font fallback and the variant's
/// family; the weight, stretch, and style are overridden only when
/// variant comparison is requested. The result is a fresh snapshot: the
/// base is never touched.
pub fn apply_variant(
    base: &StyleSnapshot,
    variant: &Variant,
    all_variants: bool,
    fallback: bool,
) -> (r: StyleSnapshot)
    ensures
        r@.fallback == fallback,
        r@.family == Option::Some(variant@.family),
        r@.weight == if all_variants {
            Option::Some(variant@.weight)
        } else {
            base@.weight
        },
        r@.stretch == if all_variants {
            Option::Some(variant@.stretch)
        } else {
            base@.stretch
        },
        r@.style == if all_variants {
            Option::Some(variant@.style)
        } else {
            base@.style
        },
{
    let mut r = base.duplicate();
    r.fallback = fallback;
    r.family = Option::Some(variant.family.clone());
    if all_variants {
        r.weight = Option::Some(variant.weight);
        r.stretch = Option::Some(variant.stretch);
        r.style = Option::Some(variant.style);
    }
    r
}

/// The data-provider handle: shared catalogs plus a private style
/// snapshot.
pub struct WorldAdapter {
    pub files: FileStore,
    pub fonts: FontCatalog,
    pub style: StyleSnapshot,
}

impl WorldAdapter {
    /// Aggregates the catalogs and styles into one handle.
    pub fn new(files: FileStore, fonts: FontCatalog, style: StyleSnapshot) -> (r: WorldAdapter)
        ensures
            r.files == files,
            r.fonts == fonts,
            r.style == style,
    {
        WorldAdapter { files, fonts, style }
    }

    /// What a task clone owns privately: a duplicate of the current
    /// style snapshot. The catalogs are shared with the clone, never
    /// copied.
    pub fn clone_for_task(&self) -> (r: StyleSnapshot)
        ensures
            r@ == self.style@,
    {
        self.style.duplicate()
    }

    /// Byte retrieval, first step: plans one resolution against the file
    /// catalog, exactly as `FileStore::resolve_plan` does.
    pub fn resolve_plan(&self, id: &FileId, package_base: Option<String>) -> (r: ResolvePlan)
        requires
            self.files.wf(),
        ensures
            match r {
                ResolvePlan::Cached(b) => self.files.has(id@) && b@ == self.files.at(id@),
                ResolvePlan::Read(p) => {
                    &&& !self.files.has(id@)
                    &&& stays_within_root(id@.segments, 0)
                    &&& match id@.package {
                        Option::Some(_) => package_base is Some && p@ == package_base->0@
                            + path_of(id@.segments),
                        Option::None => p@ == self.files.root@ + path_of(id@.segments),
                    }
                },
                ResolvePlan::Fail(e) => {
                    &&& !self.files.has(id@)
                    &&& match e {
                        FileError::NotFound(d) => id@.package matches Option::Some(pv)
                            && package_base is None && d@ == package_dir(pv),
                        FileError::AccessDenied => !stays_within_root(id@.segments, 0)
                            && (id@.package is None || package_base is Some),
                        _ => false,
                    }
                },
            },
    {
        self.files.resolve_plan(id, package_base)
    }

    /// Byte retrieval, second step: classifies the read's outcome and
    /// caches the bytes on success, exactly as `FileStore::resolve_apply`
    /// does; the catalogs other than the file cache are untouched.
    pub fn resolve_apply(&mut self, id: &FileId, outcome: ReadOutcome, path: String) -> (r:
        Result<Vec<u8>, FileError>)
        requires
            old(self).files.wf(),
        ensures
            final(self).fonts == old(self).fonts,
            final(self).style == old(self).style,
            final(self).files.wf(),
            final(self).files.root@ == old(self).files.root@,
            final(self).files.main@ == old(self).files.main@,
            match outcome {
                ReadOutcome::Success(b) => {
                    &&& r matches Result::Ok(out) && out@ == b@
                    &&& final(self).files.has(id@)
                    &&& final(self).files.at(id@) == b@
                    &&& forall|k: crate::files::IdView|
                        k != id@ ==> #[trigger] final(self).files.has(k) == old(
                            self,
                        ).files.has(k)
                    &&& forall|k: crate::files::IdView|
                        k != id@ && old(self).files.has(k) ==> #[trigger] final(self).files.at(k)
                            == old(self).files.at(k)
                },
                ReadOutcome::Missing => r == Result::<Vec<u8>, FileError>::Err(
                    FileError::NotFound(path),
                ) && final(self).files == old(self).files,
                ReadOutcome::Forbidden => r == Result::<Vec<u8>, FileError>::Err(
                    FileError::AccessDenied,
                ) && final(self).files == old(self).files,
                ReadOutcome::Failed(d) => r == Result::<Vec<u8>, FileError>::Err(
                    FileError::Other(d),
                ) && final(self).files == old(self).files,
            },
    {
        self.files.resolve_apply(id, outcome, path)
    }

    /// Font retrieval: loads one slot through the font catalog's
    /// compute-once cell, exactly as `FontCatalog::load_with` does; the
    /// file catalog and styles are untouched.
    pub fn font(&mut self, slot: usize, data: Option<Vec<u8>>) -> (r: Option<Font>)
        requires
            slot < old(self).fonts.slots.len(),
        ensures
            final(self).files == old(self).files,
            final(self).style == old(self).style,
            final(self).fonts.faces == old(self).fonts.faces,
            final(self).fonts.slots.len() == old(self).fonts.slots.len(),
            forall|j: int|
                0 <= j < old(self).fonts.slots.len() && j != slot ==> final(self).fonts.slots[j]
                    == old(self).fonts.slots[j],
            ({
                let data_view = match data {
                    Option::Some(d) => Option::Some(d@),
                    Option::None => Option::None,
                };
                let (slot_after, result) = slot_load(old(self).fonts.slots[slot as int], data_view);
                r == result && final(self).fonts.slots[slot as int] == slot_after
            }),
    {
        self.fonts.load_with(slot, data)
    }
}

/// Relies on String::from_utf8: succeeds exactly on valid UTF-8, and
/// decodes the bytes to their characters.
#[verifier::external_body]
fn string_from_utf8(bytes: Vec<u8>) -> (r: Option<String>)
    ensures
        r is Some <==> valid_utf8(bytes@),
        r matches Option::Some(s) ==> s@ == decode_utf8(bytes@),
{
    String::from_utf8(bytes).ok()
}

/// Decodes resolved file bytes as text, as the compiler requires for a
/// source file; bytes that are not valid UTF-8 are rejected.
pub fn text_of_bytes(bytes: Vec<u8>) -> (r: Result<String, FileError>)
    ensures
        valid_utf8(bytes@) ==> (r matches Result::Ok(s) && s@ == decode_utf8(bytes@)),
        !valid_utf8(bytes@) ==> (r matches Result::Err(e) && e is InvalidUtf8),
{
    match string_from_utf8(bytes) {
        Option::Some(s) => Result::Ok(s),
        Option::None => Result::Err(FileError::InvalidUtf8),
    }
}

/// A calendar date.
#[derive(Debug, PartialEq, Eq, Clone, Copy)]
pub struct Date {
    pub year: i32,
    pub month: u8,
    pub day: u8,
}

/// Whether a year is a leap year.
pub open spec fn leap_year(y: int) -> bool {
    (y % 4 == 0 && y % 100 != 0) || y % 400 == 0
}

/// The number of days in a month.
pub open spec fn days_in_month(y: int, m: int) -> int
    recommends
        1 <= m <= 12,
{
    if m == 2 {
        if leap_year(y) {
            29
        } else {
            28
        }
    } else if m == 4 || m == 6 || m == 9 || m == 11 {
        30
    } else {
        31
    }
}

/// Whether year, month, and day form a real calendar date.
pub open spec fn valid_ymd(y: int, m: int, d: int) -> bool {
    1 <= m <= 12 && 1 <= d <= days_in_month(y, m)
}

/// Decides `valid_ymd`.
pub fn ymd_valid(y: i32, m: u8, d: u8) -> (r: bool)
    ensures
        r == valid_ymd(y as int, m as int, d as int),
{
    if m < 1 || m > 12 {
        return false;
    }
    let limit: u8 = if m == 2 {
        let leap = (y % 4 == 0 && y % 100 != 0) || y % 400 == 0;
        if leap {
            29
        } else {
            28
        }
    } else if m == 4 || m == 6 || m == 9 || m == 11 {
        30
    } else {
        31
    };
    1 <= d && d <= limit
}

/// Relies on time::OffsetDateTime::now_utc, OffsetDateTime::to_offset
/// and time::UtcOffset::from_hms: the calendar date of the present
/// moment shifted by a whole-hour offset; it fails exactly when the
/// offset lies outside the range that time accepts, 25 hours either way.
#[verifier::external_body]
fn current_date(offset_hours: i8) -> (r: Option<(i32, u8, u8)>)
    ensures
        r is Some <==> -25 <= offset_hours <= 25,
        r matches Option::Some(d) ==> valid_ymd(d.0 as int, d.1 as int, d.2 as int),
{
    let shift = match time::UtcOffset::from_hms(offset_hours, 0, 0) {
        Ok(o) => o,
        Err(_) => return None,
    };
    let now = time::OffsetDateTime::now_utc().to_offset(shift);
    Some((now.year(), u8::from(now.month()), now.day()))
}

/// Today's date, optionally shifted by a caller-supplied whole-hour UTC
/// offset; an offset beyond what a time zone can express (25 hours
/// either way) yields nothing.
pub fn today(offset: Option<i64>) -> (r: Option<Date>)
    ensures
        match offset {
            Option::Some(h) => r is Some <==> -25 <= h <= 25,
            Option::None => r is Some,
        },
        r matches Option::Some(d) ==> valid_ymd(d.year as int, d.month as int, d.day as int),
{
    let hours: i8 = match offset {
        Option::Some(h) => {
            if h < -25 || h > 25 {
                return Option::None;
            }
            h as i8
        },
        Option::None => 0,
    };
    match current_date(hours) {
        Option::Some(d) => Option::Some(Date { year: d.0, month: d.1, day: d.2 }),
        Option::None => Option::None,
    }
}

} // verus!
