//! The row evaluator and the driver core: one result row, coerced to
//! canonical integers, is compared position by position against the warning
//! and critical threshold vectors, and the outcome is rendered as the single
//! report of the invocation. Critical is evaluated after warning and
//! unconditionally overrides it; a comparison is inclusive (`threshold <=
//! value` escalates).

use vstd::prelude::*;
use crate::numeric::{ColumnType, Int64, accepts_spec, type_width, coerce_spec,
    lemma_coerce_in_i64_range};
use crate::status::{Status, StatusType, CheckError};
use crate::thresholds::thresholds_or_default;
use crate::thresholds::tokens_ok;
use crate::thresholds::split_commas;
use crate::thresholds::token_values;

verus! {

/// Relies on std's `String::push`: it appends exactly the given character to
/// the end of the string.
pub assume_specification[ String::push ](s: &mut String, ch: char)
    ensures
        final(s)@ == old(s)@.push(ch),
;

/// One result column as the database hands it over: the declared type and the
/// raw big-endian bytes of the value.
pub struct RawColumn {
    pub ty: ColumnType,
    pub data: Vec<u8>,
}

/// Whether one column can be coerced: its type is recognized and its raw
/// value has the type's width.
pub open spec fn col_ok(c: RawColumn) -> bool {
    accepts_spec(c.ty) && c.data@.len() == type_width(c.ty)
}

/// The error a failing column is reported with.
pub open spec fn col_error(c: RawColumn) -> CheckError {
    if !accepts_spec(c.ty) {
        CheckError::UnsupportedColumnType
    } else {
        CheckError::MalformedColumnValue
    }
}

/// Whether every column of a row can be coerced.
pub open spec fn row_ok(row: Seq<RawColumn>) -> bool {
    forall|i: int| 0 <= i < row.len() ==> col_ok(#[trigger] row[i])
}

/// The canonical integers of a row whose columns all coerce.
pub open spec fn decoded_row(row: Seq<RawColumn>) -> Seq<i64> {
    row.map_values(|c: RawColumn| coerce_spec(c.ty, c.data@) as i64)
}

/// Whether some column of the row reaches its threshold. The comparison is
/// inclusive: a value equal to the threshold triggers.
pub open spec fn triggers(thresholds: Seq<i64>, row: Seq<i64>) -> bool {
    exists|i: int| 0 <= i < thresholds.len() && i < row.len() && #[trigger] thresholds[i]
        <= #[trigger] row[i]
}

/// The severity of one row against both vectors: critical wins over warning
/// whenever any column reaches its critical threshold, whichever columns
/// triggered which vector; warning requires some column to reach its warning
/// threshold; otherwise the row is healthy.
pub open spec fn severity_spec(warn: Seq<i64>, crit: Seq<i64>, row: Seq<i64>) -> StatusType {
    if triggers(crit, row) {
        StatusType::CRITICAL
    } else if triggers(warn, row) {
        StatusType::WARNING
    } else {
        StatusType::OK
    }
}

/// Severity is classified exactly by which vectors the row triggers:
/// `CRITICAL` exactly when some column reaches its critical threshold (a tie
/// with warning goes to critical), `WARNING` exactly when some column reaches
/// warning and none reaches critical, and `OK` exactly when no column reaches
/// either threshold.
pub proof fn lemma_severity_classification(warn: Seq<i64>, crit: Seq<i64>, row: Seq<i64>)
    requires
        warn.len() == crit.len(),
        row.len() == warn.len(),
    ensures
        (severity_spec(warn, crit, row) == StatusType::CRITICAL) <==> triggers(crit, row),
        (severity_spec(warn, crit, row) == StatusType::WARNING) <==> (triggers(warn, row)
            && !triggers(crit, row)),
        (severity_spec(warn, crit, row) == StatusType::OK) <==> (!triggers(warn, row)
            && !triggers(crit, row)),
{
}

/// When every critical threshold lies at or above its warning threshold, a
/// row is `OK` exactly when no column reaches its warning threshold.
pub proof fn lemma_ok_iff_no_warning(warn: Seq<i64>, crit: Seq<i64>, row: Seq<i64>)
    requires
        warn.len() == crit.len(),
        row.len() == warn.len(),
        forall|i: int| 0 <= i < warn.len() ==> #[trigger] warn[i] <= crit[i],
    ensures
        (severity_spec(warn, crit, row) == StatusType::OK) <==> !triggers(warn, row),
{
    if triggers(crit, row) {
        let i = choose|i: int| 0 <= i < crit.len() && i < row.len() && #[trigger] crit[i]
            <= #[trigger] row[i];
        assert(warn[i] <= row[i]);
        assert(triggers(warn, row));
    }
}

/// The comparison is inclusive: a value exactly equal to its critical
/// threshold makes the row `CRITICAL`, and one equal to its warning threshold
/// rules `OK` out.
pub proof fn lemma_inclusive_comparison(warn: Seq<i64>, crit: Seq<i64>, row: Seq<i64>, i: int)
    requires
        warn.len() == crit.len(),
        row.len() == warn.len(),
        0 <= i < row.len(),
    ensures
        row[i] == crit[i] ==> severity_spec(warn, crit, row) == StatusType::CRITICAL,
        row[i] == warn[i] ==> severity_spec(warn, crit, row) != StatusType::OK,
{
    if row[i] == crit[i] {
        assert(triggers(crit, row));
    }
    if row[i] == warn[i] {
        assert(triggers(warn, row));
    }
}

/// Compare one coerced row against both threshold vectors and derive its
/// severity. The scan mirrors the report's definition: first the warning
/// vector, then the critical vector, each stopping at its first triggering
/// column; a critical hit overrides a warning hit unconditionally.
pub fn evaluate_row(row: &Vec<i64>, warn: &Vec<i64>, crit: &Vec<i64>) -> (st: StatusType)
    requires
        warn@.len() == crit@.len(),
        row@.len() == warn@.len(),
    ensures
        st == severity_spec(warn@, crit@, row@),
{
    let mut hit_warn = false;
    let mut i: usize = 0;
    while i < warn.len() && !hit_warn
        invariant
            i <= warn@.len(),
            warn@.len() == crit@.len() == row@.len(),
            hit_warn ==> triggers(warn@, row@),
            !hit_warn ==> forall|j: int| 0 <= j < i ==> !(#[trigger] warn@[j] <= #[trigger] row@[j]),
        decreases warn@.len() - i,
    {
        if warn[i] <= row[i] {
            hit_warn = true;
        }
        i = i + 1;
    }
    let mut hit_crit = false;
    let mut k: usize = 0;
    while k < crit.len() && !hit_crit
        invariant
            k <= crit@.len(),
            warn@.len() == crit@.len() == row@.len(),
            hit_warn == triggers(warn@, row@),
            hit_crit ==> triggers(crit@, row@),
            !hit_crit ==> forall|j: int| 0 <= j < k ==> !(#[trigger] crit@[j] <= #[trigger] row@[j]),
        decreases crit@.len() - k,
    {
        if crit[k] <= row[k] {
            hit_crit = true;
        }
        k = k + 1;
    }
    if hit_crit {
        StatusType::CRITICAL
    } else if hit_warn {
        StatusType::WARNING
    } else {
        StatusType::OK
    }
}

/// The character of a decimal digit.
pub open spec fn digit_char(d: nat) -> char {
    if d == 0 {
        '0'
    } else if d == 1 {
        '1'
    } else if d == 2 {
        '2'
    } else if d == 3 {
        '3'
    } else if d == 4 {
        '4'
    } else if d == 5 {
        '5'
    } else if d == 6 {
        '6'
    } else if d == 7 {
        '7'
    } else if d == 8 {
        '8'
    } else {
        '9'
    }
}

/// The decimal digit string of a natural number, without leading zeros
/// (except for the number 0 itself).
pub open spec fn digit_chars(n: nat) -> Seq<char>
    decreases n,
{
    if n < 10 {
        seq![digit_char(n)]
    } else {
        digit_chars(n / 10).push(digit_char(n % 10))
    }
}

/// The decimal rendering of an integer: a minus sign and the digits of the
/// magnitude for a negative value, the digits alone otherwise.
pub open spec fn int_chars(v: int) -> Seq<char> {
    if v < 0 {
        seq!['-'] + digit_chars((-v) as nat)
    } else {
        digit_chars(v as nat)
    }
}

fn digit_to_char(d: u64) -> (c: char)
    requires
        d < 10,
    ensures
        c == digit_char(d as nat),
{
    if d == 0 {
        '0'
    } else if d == 1 {
        '1'
    } else if d == 2 {
        '2'
    } else if d == 3 {
        '3'
    } else if d == 4 {
        '4'
    } else if d == 5 {
        '5'
    } else if d == 6 {
        '6'
    } else if d == 7 {
        '7'
    } else if d == 8 {
        '8'
    } else {
        '9'
    }
}

/// Append the decimal digits of `n` to `r`, most significant first.
fn push_digits(r: &mut String, n: u64)
    ensures
        final(r)@ == old(r)@ + digit_chars(n as nat),
    decreases n,
{
    if n < 10 {
        let c = digit_to_char(n);
        r.push(c);
        proof {
            assert(r@ =~= old(r)@ + digit_chars(n as nat));
        }
    } else {
        proof {
            assert(n / 10 < n) by (nonlinear_arith)
                requires
                    n >= 10,
            ;
        }
        push_digits(r, n / 10);
        let c = digit_to_char(n % 10);
        r.push(c);
        proof {
            assert(r@ =~= old(r)@ + digit_chars(n as nat));
        }
    }
}

/// Render one canonical integer in decimal.
pub fn i64_to_string(v: i64) -> (r: String)
    ensures
        r@ == int_chars(v as int),
{
    let mut r = String::new();
    if v < 0 {
        r.push('-');
        let mag: u64 = if v == i64::MIN {
            9223372036854775808u64
        } else {
            (-v) as u64
        };
        proof {
            assert(mag as int == -(v as int));
        }
        push_digits(&mut r, mag);
        proof {
            assert(r@ =~= int_chars(v as int));
        }
    } else {
        push_digits(&mut r, v as u64);
        proof {
            assert(r@ =~= int_chars(v as int));
        }
    }
    r
}

/// The row's values joined with commas, in order.
pub open spec fn join_commas(row: Seq<i64>) -> Seq<char>
    decreases row.len(),
{
    if row.len() == 0 {
        Seq::<char>::empty()
    } else if row.len() == 1 {
        int_chars(row[0] as int)
    } else {
        join_commas(row.drop_last()) + seq![','] + int_chars(row.last() as int)
    }
}

/// The description of a threshold-derived report: the row's values as a
/// parenthesized comma-separated tuple after the word `Result:`.
pub open spec fn row_description(row: Seq<i64>) -> Seq<char> {
    "Result:("@ + join_commas(row) + ")"@
}

/// Render a coerced row as the report description `Result:(v1,...,vn)`.
pub fn render_row(row: &Vec<i64>) -> (r: String)
    ensures
        r@ == row_description(row@),
{
    let mut r = String::from_str("Result:(");
    proof {
        assert(row@.take(0) =~= Seq::<i64>::empty());
        assert(r@ =~= "Result:("@ + join_commas(row@.take(0)));
    }
    let mut i: usize = 0;
    while i < row.len()
        invariant
            i <= row@.len(),
            r@ == "Result:("@ + join_commas(row@.take(i as int)),
        decreases row@.len() - i,
    {
        if i > 0 {
            r.push(',');
        }
        let s = i64_to_string(row[i]);
        r.append(s.as_str());
        proof {
            assert(row@.take(i + 1).drop_last() =~= row@.take(i as int));
            assert(row@.take(i + 1).last() == row@[i as int]);
            assert(r@ =~= "Result:("@ + join_commas(row@.take(i + 1)));
        }
        i = i + 1;
    }
    proof {
        assert(row@.take(row@.len() as int) =~= row@);
    }
    r.append(")");
    proof {
        assert(r@ =~= row_description(row@));
    }
    r
}

/// Coerce every column of one row to the canonical integer, in index order.
/// The first column that cannot be coerced decides the reported error.
pub fn decode_row(row: &Vec<RawColumn>) -> (r: Result<Vec<i64>, CheckError>)
    ensures
        row_ok(row@) ==> r is Ok && r->Ok_0@ == decoded_row(row@),
        !row_ok(row@) ==> r is Err && exists|j: int|
            {
                &&& 0 <= j < row@.len()
                &&& !col_ok(#[trigger] row@[j])
                &&& r->Err_0 == col_error(row@[j])
                &&& forall|k: int| 0 <= k < j ==> col_ok(#[trigger] row@[k])
            },
{
    let mut vals: Vec<i64> = Vec::new();
    let mut i: usize = 0;
    while i < row.len()
        invariant
            i <= row@.len(),
            vals@.len() == i,
            forall|j: int| 0 <= j < i ==> col_ok(#[trigger] row@[j]),
            forall|j: int| 0 <= j < i ==> #[trigger] vals@[j] as int == coerce_spec(
                row@[j].ty,
                row@[j].data@,
            ),
        decreases row@.len() - i,
    {
        match Int64::from_sql(&row[i].ty, &row[i].data) {
            Ok(v) => {
                let x = v.to_i64();
                vals.push(x);
            },
            Err(e) => {
                proof {
                    assert(!col_ok(row@[i as int]));
                    assert(e == col_error(row@[i as int]));
                }
                return Err(e);
            },
        }
        i = i + 1;
    }
    proof {
        assert forall|j: int| 0 <= j < row@.len() implies #[trigger] vals@[j] == decoded_row(
            row@,
        )[j] by {
            lemma_coerce_in_i64_range(row@[j].ty, row@[j].data@);
        }
        assert(vals@ =~= decoded_row(row@));
    }
    Ok(vals)
}

/// Evaluate the rows a query returned and produce the single report of the
/// invocation. Zero rows, a first row of the wrong width, and a column that
/// cannot be coerced are each an `UNKNOWN` report; otherwise the first row
/// decides the severity and the description. Only the first row is ever
/// observable: the report is complete once it is formed.
pub fn evaluate_rows(warn: &Vec<i64>, crit: &Vec<i64>, rows: &Vec<Vec<RawColumn>>) -> (st: Status)
    requires
        warn@.len() == crit@.len(),
    ensures
        rows@.len() == 0 ==> st.t == StatusType::UNKNOWN && st.description@
            == "Query did return empty row set"@,
        rows@.len() > 0 && rows@[0]@.len() != warn@.len() ==> st.t == StatusType::UNKNOWN
            && st.description@ == "Size of result set and integer array need to match"@,
        rows@.len() > 0 && rows@[0]@.len() == warn@.len() && !row_ok(rows@[0]@) ==> st.t
            == StatusType::UNKNOWN && exists|j: int|
            {
                &&& 0 <= j < rows@[0]@.len()
                &&& !col_ok(#[trigger] rows@[0]@[j])
                &&& st.description@ == col_error(rows@[0]@[j]).spec_message()
                &&& forall|k: int| 0 <= k < j ==> col_ok(#[trigger] rows@[0]@[k])
            },
        rows@.len() > 0 && rows@[0]@.len() == warn@.len() && row_ok(rows@[0]@) ==> st.t
            == severity_spec(warn@, crit@, decoded_row(rows@[0]@)) && st.description@
            == row_description(decoded_row(rows@[0]@)),
{
    if rows.len() == 0 {
        return Status::unknown(String::from_str("Query did return empty row set"));
    }
    let row0 = &rows[0];
    if row0.len() != warn.len() {
        return Status::unknown(String::from_str("Size of result set and integer array need to match"));
    }
    match decode_row(row0) {
        Err(e) => Status::unknown(String::from_str(e.message())),
        Ok(vals) => {
            let t = evaluate_row(&vals, warn, crit);
            let description = render_row(&vals);
            Status { t, description }
        },
    }
}

/// Whether an optional threshold list parses (an absent list always does).
pub open spec fn opt_tokens_ok(opt: Option<&str>) -> bool {
    match opt {
        None => true,
        Some(s) => tokens_ok(split_commas(s@)),
    }
}

/// The values of an optional threshold list, with the single-element default
/// for an absent one.
pub open spec fn opt_values(opt: Option<&str>, default_value: i64) -> Seq<int> {
    match opt {
        None => seq![default_value as int],
        Some(s) => token_values(split_commas(s@)),
    }
}

/// Parse both configuration strings and validate their shapes: the warning
/// list (default `1`), then the critical list (default `2`), then the
/// equal-length gate that every later operation depends on. Every failure is
/// an `UNKNOWN` report produced before any query runs.
pub fn prepare_thresholds(warn_opt: Option<&str>, crit_opt: Option<&str>) -> (r: Result<
    (Vec<i64>, Vec<i64>),
    Status,
>)
    ensures
        match r {
            Ok(p) => {
                &&& opt_tokens_ok(warn_opt) && opt_tokens_ok(crit_opt)
                &&& p.0@.map_values(|x: i64| x as int) == opt_values(warn_opt, 1)
                &&& p.1@.map_values(|x: i64| x as int) == opt_values(crit_opt, 2)
                &&& p.0@.len() == p.1@.len()
            },
            Err(st) => {
                &&& st.t == StatusType::UNKNOWN
                &&& !opt_tokens_ok(warn_opt) || !opt_tokens_ok(crit_opt) || opt_values(
                    warn_opt,
                    1,
                ).len() != opt_values(crit_opt, 2).len()
                &&& st.description@ == (if !opt_tokens_ok(warn_opt) || !opt_tokens_ok(crit_opt) {
                    CheckError::InvalidThreshold.spec_message()
                } else {
                    "Size of integer arrays need to match"@
                })
            },
        },
{
    let warn = match thresholds_or_default(warn_opt, 1) {
        Ok(v) => v,
        Err(e) => {
            return Err(Status::unknown(String::from_str(e.message())));
        },
    };
    let crit = match thresholds_or_default(crit_opt, 2) {
        Ok(v) => v,
        Err(e) => {
            return Err(Status::unknown(String::from_str(e.message())));
        },
    };
    if warn.len() != crit.len() {
        return Err(Status::unknown(String::from_str("Size of integer arrays need to match")));
    }
    Ok((warn, crit))
}

} // verus!

