//! Crash reports.

use crate::text::{cat, decimal, decimal_text};
use vstd::prelude::*;

verus! {

/// Where a panic happened.
#[derive(Clone, Debug, PartialEq, Eq)]
pub struct PanicPlace {
    pub file: String,
    pub line: u32,
    pub column: u32,
}

/// The name of a report written `secs` seconds after the epoch.
pub fn report_name(secs: u64) -> (r: String)
    ensures
        r@ == ("crash-"@ + decimal(secs as nat)) + ".txt"@,
{
    let n = decimal_text(secs);
    let s = cat("crash-", &n);
    cat(&s, ".txt")
}

/// The line that says where a panic happened, and the blank one after it.
pub open spec fn place_lines(place: PanicPlace) -> Seq<char> {
    ((((("location: "@ + place.file@) + ":"@) + decimal(place.line as nat)) + ":"@) + decimal(
        place.column as nat,
    )) + "\n\n"@
}

/// The text of a report.
pub open spec fn report(secs: u64, message: Seq<char>, place: Option<PanicPlace>) -> Seq<char> {
    ((((("felx-app crash report\n=====================\ntimestamp: "@ + decimal(secs as nat))
        + "\n\nmessage:\n  "@) + message) + "\n\n"@) + (match place {
        Some(p) => place_lines(p),
        None => Seq::empty(),
    })) + "(attach this file when filing a bug report)\n"@
}

/// The text of a report about a panic, to be attached to a bug report.
pub fn crash_report(secs: u64, message: &str, place: Option<PanicPlace>) -> (r: String)
    ensures
        r@ == report(secs, message@, place),
{
    let n = decimal_text(secs);
    let s = cat("felx-app crash report\n=====================\ntimestamp: ", &n);
    let s = cat(&s, "\n\nmessage:\n  ");
    let s = cat(&s, message);
    let s = cat(&s, "\n\n");
    let s = match &place {
        Some(p) => {
            let line = decimal_text(p.line as u64);
            let column = decimal_text(p.column as u64);
            let t = cat("location: ", &p.file);
            let t = cat(&t, ":");
            let t = cat(&t, &line);
            let t = cat(&t, ":");
            let t = cat(&t, &column);
            let t = cat(&t, "\n\n");
            cat(&s, &t)
        },
        None => {
            assert(s@ + Seq::<char>::empty() =~= s@);
            s
        },
    };
    cat(&s, "(attach this file when filing a bug report)\n")
}

} // verus!
