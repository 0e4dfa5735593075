//! Writing a period that is held only as its number, given which resolution
//! it belongs to.
use vstd::prelude::*;

use crate::day::{day_text, Day};
use crate::minutes::{minutes_text, Minutes};
use crate::month::{month_text, Month};
use crate::quarter::{quarter_text, Quarter};
use crate::text::signed_padded;
use crate::week::{
    week_start, week_text, Friday, Monday, Saturday, Sunday, Thursday, Tuesday, Wednesday, Week,
    Weekday,
};
use crate::year::Year;

verus! {

/// The resolutions of this library, as values.
#[derive(Clone, Copy, Debug, PartialEq, Eq, Hash)]
pub enum ResolutionKind {
    Minute,
    FiveMinute,
    HalfHour,
    Hour,
    Day,
    Week(Weekday),
    Month,
    Quarter,
    Year,
}

/// Whether the period with number `val` of resolution `kind` can be written:
/// for weeks, their first day must have an `i32` day count.
pub open spec fn can_format(kind: ResolutionKind, val: int) -> bool {
    match kind {
        ResolutionKind::Week(d) => i32::MIN <= week_start(d.index(), val) <= i32::MAX,
        _ => true,
    }
}

/// Whether the period with number `val` of resolution `kind` can be written.
pub fn is_formattable(kind: ResolutionKind, val: i32) -> (r: bool)
    ensures
        r == can_format(kind, val as int),
{
    match kind {
        ResolutionKind::Week(d) => {
            let offset: i64 = match d {
                Weekday::Mon => 2,
                Weekday::Tue => 3,
                Weekday::Wed => 4,
                Weekday::Thu => 5,
                Weekday::Fri => 6,
                Weekday::Sat => 0,
                Weekday::Sun => 1,
            };
            let start: i64 = 7 * (val as i64) + offset;
            i32::MIN as i64 <= start && start <= i32::MAX as i64
        },
        _ => true,
    }
}

/// The text of the period with number `val` of resolution `kind`, after the
/// name of the resolution and a colon.
pub open spec fn erased_text(kind: ResolutionKind, val: int) -> Seq<char> {
    match kind {
        ResolutionKind::Minute => "Minute:"@ + minutes_text(1, val),
        ResolutionKind::FiveMinute => "FiveMinute:"@ + minutes_text(5, val),
        ResolutionKind::HalfHour => "HalfHour:"@ + minutes_text(30, val),
        ResolutionKind::Hour => "Hour:"@ + minutes_text(60, val),
        ResolutionKind::Day => "Day:"@ + day_text(val),
        ResolutionKind::Week(d) => "Week:"@ + week_text(d.index(), val),
        ResolutionKind::Month => "Month:"@ + month_text(val),
        ResolutionKind::Quarter => "Quarter:"@ + quarter_text(val),
        ResolutionKind::Year => "Year:"@ + signed_padded(val, 1),
    }
}

/// Writes the period with number `val` of resolution `kind`, after the name
/// of the resolution: `Day:2021-01-01`.
#[verifier::rlimit(30)]
pub fn format_erased_resolution(kind: ResolutionKind, val: i32) -> (r: String)
    requires
        can_format(kind, val as int),
    ensures
        r@ == erased_text(kind, val as int),
{
    let (name, text) = match kind {
        ResolutionKind::Minute => {
            proof {
                reveal_strlit("Minute:");
            }
            ("Minute:", Minutes::<1>::from_monotonic(val).to_string())
        },
        ResolutionKind::FiveMinute => {
            proof {
                reveal_strlit("FiveMinute:");
            }
            ("FiveMinute:", Minutes::<5>::from_monotonic(val).to_string())
        },
        ResolutionKind::HalfHour => {
            proof {
                reveal_strlit("HalfHour:");
            }
            ("HalfHour:", Minutes::<30>::from_monotonic(val).to_string())
        },
        ResolutionKind::Hour => {
            proof {
                reveal_strlit("Hour:");
            }
            ("Hour:", Minutes::<60>::from_monotonic(val).to_string())
        },
        ResolutionKind::Day => {
            proof {
                reveal_strlit("Day:");
            }
            ("Day:", Day::from_monotonic(val).to_string())
        },
        ResolutionKind::Week(d) => {
            proof {
                reveal_strlit("Week:");
            }
            let text = match d {
                Weekday::Mon => Week::<Monday>::from_monotonic(val).to_string(),
                Weekday::Tue => Week::<Tuesday>::from_monotonic(val).to_string(),
                Weekday::Wed => Week::<Wednesday>::from_monotonic(val).to_string(),
                Weekday::Thu => Week::<Thursday>::from_monotonic(val).to_string(),
                Weekday::Fri => Week::<Friday>::from_monotonic(val).to_string(),
                Weekday::Sat => Week::<Saturday>::from_monotonic(val).to_string(),
                Weekday::Sun => Week::<Sunday>::from_monotonic(val).to_string(),
            };
            ("Week:", text)
        },
        ResolutionKind::Month => {
            proof {
                reveal_strlit("Month:");
            }
            ("Month:", Month::from_monotonic(val).to_string())
        },
        ResolutionKind::Quarter => {
            proof {
                reveal_strlit("Quarter:");
            }
            ("Quarter:", Quarter::from_monotonic(val).to_string())
        },
        ResolutionKind::Year => {
            proof {
                reveal_strlit("Year:");
            }
            ("Year:", Year::from_monotonic(val).to_string())
        },
    };
    let mut out = String::from_str(name);
    out.append(text.as_str());
    out
}

} // verus!
