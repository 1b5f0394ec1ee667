//! The report that is shown to the user when the program fails fatally.

use crate::text::{decimal, push_decimal};
use vstd::prelude::*;
use vstd::string::*;

verus! {

/// What the report says where the failure carries no message of its own.
pub open spec fn no_details() -> Seq<char> {
    "No further messages could we get."@
}

/// The text of the report for a failure at `line` and `column` of the source
/// file `file`: two lines of introduction, the place of the failure, and the
/// message of the failure or a remark that there is none.
pub open spec fn report_text(file: Seq<char>, line: nat, column: nat, details: Option<Seq<char>>) -> Seq<
    char,
> {
    "A critical system failure occurred and the program will shutdown immediately.\n\n"@
        + "Here is some information to help repair the problem:\n"@ + "Problem occurred in: "@
        + file + ", L"@ + decimal(line) + ", C"@ + decimal(column) + "\n"@ + match details {
        Some(text) => text,
        None => no_details(),
    }
}

/// Writes the report for a fatal failure.
pub fn panic_message(file: &str, line: u32, column: u32, details: Option<&str>) -> (report: String)
    ensures
        report@ == report_text(
            file@,
            line as nat,
            column as nat,
            match details {
                Some(text) => Some(text@),
                None => None,
            },
        ),
{
    let mut report = String::from_str(
        "A critical system failure occurred and the program will shutdown immediately.\n\n",
    );
    report.append("Here is some information to help repair the problem:\n");
    report.append("Problem occurred in: ");
    report.append(file);
    report.append(", L");
    push_decimal(&mut report, line as u64);
    report.append(", C");
    push_decimal(&mut report, column as u64);
    report.append("\n");
    match details {
        Some(text) => report.append(text),
        None => report.append("No further messages could we get."),
    }
    report
}

} // verus!
