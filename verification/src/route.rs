//! Date-based destination routing for replication targets. It takes the
//! capture date as a parameter so the caller decides its source.
use vstd::prelude::*;

use crate::datetime::{decimal_text, digit_char, integer_text, integer_to_text, padded_text, CaptureDate};
use crate::path::{opt_text, path_file_name, path_join, spec_file_name, spec_join};

verus! {

/// The kind of storage a target is.
#[derive(Clone, Copy, Debug, PartialEq, Eq, Structural)]
pub enum TargetKind {
    LocalNvme,
    LocalSpinning,
    Network,
}

/// A replication target: its root directory, its kind, and how many writes
/// it takes at once.
#[derive(Clone, Debug)]
pub struct Target {
    pub root: String,
    pub kind: TargetKind,
    pub write_permits: usize,
}

/// The year as the `%Y` format writes it: zero-padded to four digits, with a
/// sign before years outside 0 to 9999.
pub open spec fn year_format_text(year: int) -> Seq<char> {
    if 0 <= year <= 9999 {
        padded_text(year as nat, 4)
    } else if year < 0 {
        seq!['-'] + padded_text((-year) as nat, 4)
    } else {
        seq!['+'] + padded_text(year as nat, 4)
    }
}

/// A day as the `%Y-%m-%d` format writes it.
pub open spec fn iso_date_text(date: CaptureDate) -> Seq<char> {
    year_format_text(date.year as int) + seq!['-'] + padded_text(date.month as nat, 2) + seq!['-']
        + padded_text(date.day as nat, 2)
}

/// Formats the day with chrono: `NaiveDate::from_ymd_opt` then `format` with
/// `%Y-%m-%d`. Claimed, as chrono documents the three specifiers: the text is
/// `iso_date_text` of the day.
#[verifier::external_body]
fn format_iso_date(date: CaptureDate) -> (r: String)
    requires
        date.wf(),
    ensures
        r@ == iso_date_text(date),
{
    chrono::NaiveDate::from_ymd_opt(date.year, date.month, date.day)
        .map(|d| d.format("%Y-%m-%d").to_string())
        .unwrap_or_default()
}

/// Where a file captured on a day goes on a target:
/// `root/<year>/<year-month-day>/<file name>`, the file name in the letter
/// case it is written in. `None` when the file path has no file name.
pub open spec fn spec_destination(root: Seq<char>, captured: CaptureDate, file: Seq<char>) -> Option<Seq<char>> {
    match spec_file_name(file) {
        Some(name) => Some(
            spec_join(spec_join(spec_join(root, integer_text(captured.year as int)), iso_date_text(captured)), name),
        ),
        None => None,
    }
}

/// The destination path of a file captured on `captured` on `target`.
pub fn build_destination_path(target: &Target, captured: CaptureDate, file: &str) -> (r: Option<String>)
    requires
        captured.wf(),
    ensures
        opt_text(r) == spec_destination(target.root@, captured, file@),
{
    let year_dir = integer_to_text(captured.year);
    let last_dir = format_iso_date(captured);
    let file_name = path_file_name(file)?;
    let with_year = path_join(target.root.as_str(), year_dir.as_str());
    let with_day = path_join(with_year.as_str(), last_dir.as_str());
    Some(path_join(with_day.as_str(), file_name.as_str()))
}

/// The two decimal digits of a number below a hundred.
proof fn lemma_two_digits(n: nat)
    requires
        n < 100,
    ensures
        padded_text(n, 2) == seq![digit_char(n / 10), digit_char(n % 10)],
{
    if n < 10 {
        assert(decimal_text(n) == seq![digit_char(n)]);
        assert(padded_text(n, 2) =~= seq!['0', digit_char(n)]);
    } else {
        assert(decimal_text(n / 10) == seq![digit_char(n / 10)]);
        assert(decimal_text(n) =~= seq![digit_char(n / 10), digit_char(n % 10)]);
    }
}

/// The four decimal digits of a year from 1000 to 9999.
proof fn lemma_four_digits(n: nat)
    requires
        1000 <= n <= 9999,
    ensures
        decimal_text(n) == seq![digit_char(n / 1000), digit_char(n / 100 % 10), digit_char(n / 10 % 10), digit_char(n % 10)],
        padded_text(n, 4) == decimal_text(n),
{
    let a = n / 10;
    let b = a / 10;
    let c = b / 10;
    assert(b == n / 100);
    assert(c == n / 1000);
    assert(c < 10);
    assert(decimal_text(c) == seq![digit_char(c)]);
    assert(decimal_text(b) =~= seq![digit_char(c), digit_char(b % 10)]);
    assert(decimal_text(a) =~= seq![digit_char(c), digit_char(b % 10), digit_char(a % 10)]);
    assert(decimal_text(n) =~= seq![digit_char(c), digit_char(b % 10), digit_char(a % 10), digit_char(n % 10)]);
}

/// The law of destinations: a file goes to
/// `root/<year>/<year-month-day>/<file name>`, the last component being the
/// file name of its path exactly as written (in its own letter case, whatever
/// its extension); there is a destination exactly when the path has a file
/// name. For a four-digit year, the year directory is its four digits and
/// the day directory those digits, a hyphen, the two digits of the month, a
/// hyphen and the two digits of the day.
pub proof fn law_destination_layout(root: Seq<char>, captured: CaptureDate, file: Seq<char>)
    requires
        captured.wf(),
    ensures
        spec_destination(root, captured, file) is Some <==> spec_file_name(file) is Some,
        spec_file_name(file) matches Some(name) ==> spec_destination(root, captured, file) == Some(
            spec_join(spec_join(spec_join(root, integer_text(captured.year as int)), iso_date_text(captured)), name),
        ),
        1000 <= captured.year <= 9999 ==> {
            let y = captured.year as int;
            let (m, d) = (captured.month as int, captured.day as int);
            let year_dir = seq![digit_char((y / 1000) as nat), digit_char((y / 100 % 10) as nat), digit_char((y / 10 % 10) as nat), digit_char((y % 10) as nat)];
            &&& integer_text(y) == year_dir
            &&& iso_date_text(captured) == year_dir + seq!['-', digit_char((m / 10) as nat), digit_char((m % 10) as nat), '-', digit_char((d / 10) as nat), digit_char((d % 10) as nat)]
        },
{
    if 1000 <= captured.year <= 9999 {
        let y = captured.year as int;
        lemma_four_digits(y as nat);
        lemma_two_digits(captured.month as nat);
        lemma_two_digits(captured.day as nat);
        let (m, d) = (captured.month as int, captured.day as int);
        let year_dir = seq![digit_char((y / 1000) as nat), digit_char((y / 100 % 10) as nat), digit_char((y / 10 % 10) as nat), digit_char((y % 10) as nat)];
        assert(iso_date_text(captured) =~= year_dir + seq!['-', digit_char((m / 10) as nat), digit_char((m % 10) as nat), '-', digit_char((d / 10) as nat), digit_char((d % 10) as nat)]);
    }
}

} // verus!
