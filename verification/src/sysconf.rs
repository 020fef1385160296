//! Sysconf-related information.

use vstd::prelude::*;

verus! {

/// An error in reading sysconf-related information.
#[derive(Debug)]
pub enum Error {
    /// The value could not be read.
    Sysconf { arg: &'static str, e: String },
    /// The value does not fit.
    Integer,
}

impl Error {
    /// The text of the error.
    pub open spec fn text(self) -> Seq<char> {
        match self {
            Error::Sysconf { arg, e } => "sysconf failed accessing "@ + arg@ + ": "@ + e@,
            Error::Integer => "Integer conversion error: "@
                + "out of range integral type conversion attempted"@,
        }
    }

    /// The text of the error.
    pub fn to_text(&self) -> (r: String)
        ensures
            r@ == self.text(),
    {
        match self {
            Error::Sysconf { arg, e } => "sysconf failed accessing ".to_owned().concat(
                arg,
            ).concat(": ").concat(e.as_str()),
            Error::Integer => "Integer conversion error: ".to_owned().concat(
                "out of range integral type conversion attempted",
            ),
        }
    }
}

/// The value of a sysconf variable, or the text of the error in reading it.
pub type Reading = Result<i64, String>;

/// What the count of processors is read as.
pub const PROCESSORS: &'static str = "online processor count";

/// What the count of pages is read as.
pub const PAGES: &'static str = "physical pages";

/// What the size of a page is read as.
pub const PAGE_SIZE: &'static str = "physical page size";

/// What comes of a reading that must lie between zero and a largest value.
pub open spec fn bounded(reading: Reading, arg: &'static str, max: int) -> Result<int, Error> {
    match reading {
        Err(e) => Err(Error::Sysconf { arg, e }),
        Ok(value) => if 0 <= value <= max {
            Ok(value as int)
        } else {
            Err(Error::Integer)
        },
    }
}

/// Returns the number of online processors on this sled.
///
/// Although the value returned by sysconf(3c) is an i64, we parse the value as
/// a u32. A value greater than u32::MAX (or a negative value) returns an error
/// here.
pub fn online_processor_count(reading: Reading) -> (r: Result<u32, Error>)
    ensures
        match bounded(reading, PROCESSORS, u32::MAX as int) {
            Ok(value) => r is Ok && r->Ok_0 == value,
            Err(e) => r == Err::<u32, Error>(e),
        },
{
    match reading {
        Err(e) => Err(Error::Sysconf { arg: PROCESSORS, e }),
        Ok(value) => {
            if 0 <= value && value <= u32::MAX as i64 {
                Ok(value as u32)
            } else {
                Err(Error::Integer)
            }
        },
    }
}

fn unsigned(reading: Reading, arg: &'static str) -> (r: Result<u64, Error>)
    ensures
        match bounded(reading, arg, u64::MAX as int) {
            Ok(value) => r is Ok && r->Ok_0 == value,
            Err(e) => r == Err::<u64, Error>(e),
        },
{
    match reading {
        Err(e) => Err(Error::Sysconf { arg, e }),
        Ok(value) => {
            if 0 <= value {
                Ok(value as u64)
            } else {
                Err(Error::Integer)
            }
        },
    }
}

/// Returns the number of physical RAM pages on this sled.
pub fn usable_physical_pages(reading: Reading) -> (r: Result<u64, Error>)
    ensures
        match bounded(reading, PAGES, u64::MAX as int) {
            Ok(value) => r is Ok && r->Ok_0 == value,
            Err(e) => r == Err::<u64, Error>(e),
        },
{
    unsigned(reading, PAGES)
}

/// Returns the amount of RAM on this sled, in bytes.
///
/// Note that the count of pages counts, specifically, pages of the size that
/// is read. This means the multiplication below yields the total physical RAM
/// bytes, even if in some sense there are fewer "actual" physical pages in page
/// tables (such as if there were 2MiB pages mixed in on x86).
///
/// The amount must fit.
pub fn usable_physical_ram_bytes(page_size: Reading, pages: Reading) -> (r: Result<u64, Error>)
    requires
        page_size is Ok && pages is Ok && page_size->Ok_0 > 0 && pages->Ok_0 > 0
            ==> page_size->Ok_0 * pages->Ok_0 <= u64::MAX,
    ensures
        match bounded(page_size, PAGE_SIZE, u64::MAX as int) {
            Err(e) => r == Err::<u64, Error>(e),
            Ok(size) => match bounded(pages, PAGES, u64::MAX as int) {
                Err(e) => r == Err::<u64, Error>(e),
                Ok(count) => r is Ok && r->Ok_0 == count * size,
            },
        },
{
    let size: u64 = match unsigned(page_size, PAGE_SIZE) {
        Ok(size) => size,
        Err(e) => return Err(e),
    };
    let count: u64 = match usable_physical_pages(pages) {
        Ok(count) => count,
        Err(e) => return Err(e),
    };
    assert(count * size <= u64::MAX) by (nonlinear_arith)
        requires
            count == 0 || size == 0 || size * count <= u64::MAX,
    ;
    Ok(count * size)
}

} // verus!
