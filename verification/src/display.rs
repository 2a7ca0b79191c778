//! How a list of addresses is fitted to the height of a terminal.
//!
//! The two lines at the top of the screen are taken by the title and the
//! prompt. What is left below them holds one address per line; when the
//! addresses do not all fit, the last line counts those that are left out.

use vstd::prelude::*;

verus! {

/// The lines of the screen that a listing cannot use.
pub const RESERVED_ROWS: u16 = 2;

/// What is drawn for a list of addresses.
#[derive(Clone, Copy, Debug, PartialEq, Eq, Structural)]
pub enum Listing {
    /// There is no address: say that nothing matched.
    Empty,
    /// Every address gets a line.
    Complete,
    /// The first `shown` addresses get a line each, and one more line says
    /// that `hidden` others follow.
    Truncated { shown: usize, hidden: usize },
}

impl Listing {
    /// Lines of the screen that the listing fills, for a list of `len` addresses.
    pub open spec fn lines(self, len: int) -> int {
        match self {
            Listing::Empty => 1,
            Listing::Complete => len,
            Listing::Truncated { shown, hidden } => shown + 1,
        }
    }
}

/// The listing of `len` addresses on a terminal of `rows` lines.
pub open spec fn spec_layout(len: int, rows: int) -> Listing {
    if len == 0 {
        Listing::Empty
    } else if len <= rows - RESERVED_ROWS {
        Listing::Complete
    } else {
        Listing::Truncated {
            shown: (rows - RESERVED_ROWS - 1) as usize,
            hidden: (len - (rows - RESERVED_ROWS - 1)) as usize,
        }
    }
}

/// Lays out `len` addresses on a terminal of `rows` lines.
///
/// A list that is not empty needs a terminal of at least three lines. The
/// listing never takes more than the lines below the prompt, and a truncated
/// one accounts for every address: those shown and those hidden add up to `len`.
pub fn layout(len: usize, rows: u16) -> (listing: Listing)
    requires
        len > 0 ==> rows > RESERVED_ROWS,
    ensures
        listing == spec_layout(len as int, rows as int),
        len > 0 ==> listing.lines(len as int) <= rows - RESERVED_ROWS,
        listing matches Listing::Truncated { shown, hidden } ==> shown + hidden == len && hidden
            >= 2,
{
    if len == 0 {
        return Listing::Empty;
    }
    let room = (rows - RESERVED_ROWS) as usize;
    if len <= room {
        Listing::Complete
    } else {
        Listing::Truncated { shown: room - 1, hidden: len - (room - 1) }
    }
}

} // verus!
