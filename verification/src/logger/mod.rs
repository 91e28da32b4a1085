//! CSV export of a recorded session.
//!
//! The rows come from the readings store; the value column arrives already
//! formatted (it is a floating-point number, written with `{}`).

use crate::text::{dec_digits, owned, push_all, push_decimal};
use vstd::prelude::*;

verus! {

/// One stored reading, as the export query returns it.
pub struct CsvRow {
    pub ts_ms: i64,
    pub pid: String,
    pub value: String,
    pub unit: String,
}

/// Decimal text of a signed integer (`{}` formatting).
pub open spec fn int_text(n: i64) -> Seq<char> {
    if n < 0 {
        seq!['-'] + dec_digits((-n) as nat)
    } else {
        dec_digits(n as nat)
    }
}

pub open spec fn csv_header() -> Seq<char> {
    "ts_ms,pid,value,unit\n"@
}

/// The CSV line of one row: `ts_ms,pid,value,unit`.
pub open spec fn csv_line(r: CsvRow) -> Seq<char> {
    int_text(r.ts_ms) + seq![','] + r.pid@ + seq![','] + r.value@ + seq![','] + r.unit@ + seq![
        '\n',
    ]
}

/// The header line followed by one line per row, in order.
pub open spec fn csv_spec(rows: Seq<CsvRow>) -> Seq<char>
    decreases rows.len(),
{
    if rows.len() == 0 {
        csv_header()
    } else {
        csv_spec(rows.drop_last()) + csv_line(rows.last())
    }
}

/// Appends the decimal text of `n` to `s`.
pub fn push_int(s: &mut String, n: i64)
    ensures
        final(s)@ == old(s)@ + int_text(n),
{
    if n < 0 {
        let ghost s0 = s@;
        s.push('-');
        let m = (0i128 - n as i128) as u64;
        push_decimal(s, m);
        assert(s@ =~= s0 + int_text(n));
    } else {
        push_decimal(s, n as u64);
    }
}

/// The CSV text of a session: a header line, then `ts_ms,pid,value,unit`
/// for each row.
pub fn render_csv(rows: &Vec<CsvRow>) -> (csv: String)
    ensures
        csv@ == csv_spec(rows@),
{
    let mut csv = owned("ts_ms,pid,value,unit\n");
    let mut i: usize = 0;
    while i < rows.len()
        invariant
            i <= rows@.len(),
            csv@ == csv_spec(rows@.take(i as int)),
        decreases rows@.len() - i,
    {
        let r = &rows[i];
        let ghost before = csv@;
        push_int(&mut csv, r.ts_ms);
        csv.push(',');
        push_all(&mut csv, r.pid.as_str());
        csv.push(',');
        push_all(&mut csv, r.value.as_str());
        csv.push(',');
        push_all(&mut csv, r.unit.as_str());
        csv.push('\n');
        assert(rows@.take(i + 1).drop_last() =~= rows@.take(i as int));
        assert(csv@ =~= before + csv_line(rows@[i as int]));
        i += 1;
    }
    assert(rows@.take(rows@.len() as int) =~= rows@);
    csv
}

} // verus!
