//! The date renderer: an ISO-8601-like combined date-time string is shown as
//! `"<date> <HH:MM:SS>"` — split on the first `T`, keep the first eight
//! characters of the time, discard fractional seconds and any timezone
//! suffix. A value without a `T` (a date-only due date) is kept unchanged,
//! as is one whose time component is shorter than eight characters.
//! Dropping the timezone is deliberate lossy rendering.

use vstd::prelude::*;
use vstd::string::StrSliceExecFns;
use vstd::string::StringExecFns;

use crate::strutil::find_char;
use crate::strutil::spec_find_char;

verus! {

/// The compact display form of a date-time string. A value whose time
/// component is shorter than the eight characters `HH:MM:SS` is kept
/// unchanged, as a date-only value is.
pub open spec fn spec_render_datetime(s: Seq<char>) -> Seq<char> {
    match spec_find_char(s, 'T', 0) {
        Some(t) => if s.len() >= t + 9 {
            s.take(t) + " "@ + s.subrange(t + 1, t + 9)
        } else {
            s
        },
        None => s,
    }
}

/// Appends the compact display form of `datetime` to `buf`.
pub fn push_datetime(datetime: &str, buf: &mut String)
    ensures
        final(buf)@ == old(buf)@ + spec_render_datetime(datetime@),
{
    match find_char(datetime, 'T', 0) {
        None => {
            buf.append(datetime);
        },
        Some(t) => {
            let len: usize = datetime.unicode_len();
            if len - t >= 9 {
                let date = datetime.substring_char(0, t);
                let time = datetime.substring_char(t + 1, t + 9);
                buf.append(date);
                buf.append(" ");
                buf.append(time);
                proof {
                    assert(date@ =~= datetime@.take(t as int));
                    assert(buf@ =~= old(buf)@ + spec_render_datetime(datetime@));
                }
            } else {
                buf.append(datetime);
            }
        },
    }
}

} // verus!
