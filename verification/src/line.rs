//! Line-protocol formatting.
//!
//! A record becomes one line: the measurement, a `mac` tag, the
//! comma-joined `name=value` fields and the timestamp in nanoseconds —
//! exactly one space before the field set and one before the timestamp. A
//! record with no gated readings still yields a syntactically valid line
//! with an empty field set.

use crate::telemetry::RecordV;
use crate::telemetry::TelemetryRecord;
use vstd::prelude::*;
use vstd::string::StringExecFns;
use vstd::utf8::decode_utf8;

verus! {

/// The character for a decimal digit.
pub open spec fn sp_digit_char(d: int) -> char {
    if d == 0 {
        '0'
    } else if d == 1 {
        '1'
    } else if d == 2 {
        '2'
    } else if d == 3 {
        '3'
    } else if d == 4 {
        '4'
    } else if d == 5 {
        '5'
    } else if d == 6 {
        '6'
    } else if d == 7 {
        '7'
    } else if d == 8 {
        '8'
    } else {
        '9'
    }
}

/// The decimal rendering of a non-negative integer.
pub open spec fn sp_dec_u64(n: int) -> Seq<char>
    recommends
        n >= 0,
    decreases n,
{
    if n < 10 {
        seq![sp_digit_char(n)]
    } else {
        sp_dec_u64(n / 10) + seq![sp_digit_char(n % 10)]
    }
}

fn digit_str(d: u8) -> (r: &'static str)
    requires
        d < 10,
    ensures
        r@ == seq![sp_digit_char(d as int)],
{
    let r: &'static str = match d {
        0 => "0",
        1 => "1",
        2 => "2",
        3 => "3",
        4 => "4",
        5 => "5",
        6 => "6",
        7 => "7",
        8 => "8",
        _ => "9",
    };
    proof {
        reveal_strlit("0");
        reveal_strlit("1");
        reveal_strlit("2");
        reveal_strlit("3");
        reveal_strlit("4");
        reveal_strlit("5");
        reveal_strlit("6");
        reveal_strlit("7");
        reveal_strlit("8");
        reveal_strlit("9");
        assert(r@ =~= seq![sp_digit_char(d as int)]);
    }
    r
}

/// Renders `n` in decimal.
pub fn u64_string(n: u64) -> (r: String)
    ensures
        r@ == sp_dec_u64(n as int),
    decreases n,
{
    if n < 10 {
        String::from_str(digit_str(n as u8))
    } else {
        let mut s = u64_string(n / 10);
        s.append(digit_str((n % 10) as u8));
        s
    }
}

/// The comma-joined `name=value` rendering of a field list.
pub open spec fn sp_fields(fs: Seq<(Seq<char>, Seq<char>)>) -> Seq<char>
    decreases fs.len(),
{
    if fs.len() == 0 {
        Seq::empty()
    } else if fs.len() == 1 {
        fs[0].0 + "="@ + fs[0].1
    } else {
        fs[0].0 + "="@ + fs[0].1 + ","@ + sp_fields(fs.drop_first())
    }
}

/// The field list a record's readings denote.
pub open spec fn rec_fields(v: Seq<(String, String)>) -> Seq<(Seq<char>, Seq<char>)> {
    Seq::new(v.len(), |k: int| (v[k].0@, v[k].1@))
}

fn fields_string(readings: &Vec<(String, String)>, idx: usize) -> (r: String)
    requires
        idx <= readings@.len(),
    ensures
        r@ == sp_fields(rec_fields(readings@).skip(idx as int)),
    decreases readings@.len() - idx,
{
    let ghost model = rec_fields(readings@).skip(idx as int);
    if idx == readings.len() {
        proof {
            assert(model =~= Seq::<(Seq<char>, Seq<char>)>::empty());
        }
        return String::new();
    }
    proof {
        assert(model[0] == rec_fields(readings@)[idx as int]);
    }
    let mut s = String::from_str(readings[idx].0.as_str());
    s.append("=");
    s.append(readings[idx].1.as_str());
    if idx + 1 < readings.len() {
        s.append(",");
        let rest = fields_string(readings, idx + 1);
        s.append(rest.as_str());
        proof {
            assert(model.drop_first() =~= rec_fields(readings@).skip(idx as int + 1));
            assert(s@ =~= sp_fields(model));
        }
    } else {
        proof {
            assert(model.len() == 1);
            assert(s@ =~= sp_fields(model));
        }
    }
    s
}

/// One line: the measurement, the `mac` tag, one space, the field set, one
/// space, the timestamp.
pub open spec fn sp_line(
    measurement: Seq<char>,
    mac: Seq<char>,
    fields: Seq<(Seq<char>, Seq<char>)>,
    ts: int,
) -> Seq<char> {
    measurement + ",mac="@ + mac + " "@ + sp_fields(fields) + " "@ + sp_dec_u64(ts)
}

/// The field list a record model denotes, with names and tokens decoded
/// back to characters.
pub open spec fn sp_record_fields(rs: Seq<(Seq<u8>, Seq<u8>)>) -> Seq<(Seq<char>, Seq<char>)> {
    Seq::new(rs.len(), |k: int| (decode_utf8(rs[k].0), decode_utf8(rs[k].1)))
}

/// The line a record model denotes.
pub open spec fn sp_record_line(measurement: Seq<char>, rv: RecordV) -> Seq<char> {
    sp_line(measurement, decode_utf8(rv.mac), sp_record_fields(rv.readings), rv.timestamp_ns)
}

/// Formats a record as one line-protocol line. Pure and total: a record
/// with no readings yields a line with an empty field set.
pub fn format_record(rec: &TelemetryRecord) -> (r: String)
    ensures
        r@ == sp_line(
            rec.measurement@,
            rec.mac@,
            rec_fields(rec.readings@),
            rec.timestamp_ns as int,
        ),
{
    let mut s = String::from_str(rec.measurement.as_str());
    s.append(",mac=");
    s.append(rec.mac.as_str());
    s.append(" ");
    let fs = fields_string(&rec.readings, 0);
    s.append(fs.as_str());
    s.append(" ");
    let ts = u64_string(rec.timestamp_ns);
    s.append(ts.as_str());
    proof {
        assert(rec_fields(rec.readings@).skip(0) =~= rec_fields(rec.readings@));
        assert(s@ =~= sp_line(
            rec.measurement@,
            rec.mac@,
            rec_fields(rec.readings@),
            rec.timestamp_ns as int,
        ));
    }
    s
}

} // verus!
