use vstd::prelude::*;

use crate::record::{parse_airport_primary_records as parse_record, record_fields, is_airport_primary_record, AirportPrimaryRecords};
use crate::util::trim_right_cr;

verus! {

/// The lines of `s`, split at each line feed, from the line that starts at `start`
/// on, scanning from `j`; a trailing line feed leaves an empty last line.
pub open spec fn lines_scan(s: Seq<u8>, start: int, j: int) -> Seq<Seq<u8>>
    decreases s.len() - j,
{
    if j >= s.len() {
        seq![s.subrange(start, s.len() as int)]
    } else if s[j] == 0x0au8 {
        seq![s.subrange(start, j)] + lines_scan(s, j + 1, j + 1)
    } else {
        lines_scan(s, start, j + 1)
    }
}

/// The lines of `s` from index `i` on.
pub open spec fn lines_from(s: Seq<u8>, i: int) -> Seq<Seq<u8>> {
    lines_scan(s, i, i)
}

/// The lines that hold an airport primary record, each without its trailing
/// carriage returns.
pub open spec fn record_lines(lines: Seq<Seq<u8>>) -> Seq<Seq<u8>>
    decreases lines.len(),
{
    if lines.len() == 0 {
        seq![]
    } else {
        let rest = record_lines(lines.drop_last());
        let line = trim_right_cr(lines.last());
        if is_airport_primary_record(line) {
            rest.push(line)
        } else {
            rest
        }
    }
}

fn trim_right_0d(bytes: &[u8]) -> (r: &[u8])
    ensures
        r@ == trim_right_cr(bytes@),
{
    let mut end: usize = bytes.len();
    assert(bytes@.subrange(0, bytes@.len() as int) =~= bytes@);
    while end > 0 && bytes[end - 1] == 0x0du8
        invariant
            end <= bytes@.len(),
            trim_right_cr(bytes@) == trim_right_cr(bytes@.subrange(0, end as int)),
        decreases end,
    {
        assert(bytes@.subrange(0, end as int).drop_last() =~= bytes@.subrange(0, end - 1));
        end -= 1;
    }
    &bytes[0..end]
}

/// Reads every airport primary record of a file, line by line, in order; the other
/// lines are skipped.
pub fn parse_airport_primary_records(buf: &[u8]) -> (r: Vec<AirportPrimaryRecords>)
    ensures
        r@.len() == record_lines(lines_from(buf@, 0)).len(),
        forall|k: int|
            0 <= k < r@.len() ==> record_fields(
                #[trigger] r@[k],
                record_lines(lines_from(buf@, 0))[k],
            ),
{
    let mut r: Vec<AirportPrimaryRecords> = Vec::new();
    let mut i: usize = 0;
    let ghost mut done: Seq<Seq<u8>> = seq![];
    loop
        invariant
            i <= buf@.len(),
            done + lines_from(buf@, i as int) == lines_from(buf@, 0),
            r@.len() == record_lines(done).len(),
            forall|k: int| 0 <= k < r@.len() ==> record_fields(#[trigger] r@[k], record_lines(done)[k]),
        decreases buf@.len() - i,
    {
        let mut e: usize = i;
        while e < buf.len() && buf[e] != 0x0au8
            invariant
                i <= e <= buf@.len(),
                lines_from(buf@, i as int) == lines_scan(buf@, i as int, e as int),
            decreases buf@.len() - e,
        {
            e += 1;
        }
        let line = trim_right_0d(&buf[i..e]);
        let ghost raw = buf@.subrange(i as int, e as int);
        let ghost old_done = done;
        proof {
            done = done.push(raw);
            assert(done.drop_last() =~= old_done);
        }
        match parse_record(line) {
            Some(rec) => {
                r.push(rec);
            },
            None => {},
        }
        if e == buf.len() {
            proof {
                assert(lines_from(buf@, i as int) == seq![raw]);
                assert(done =~= lines_from(buf@, 0));
            }
            return r;
        }
        proof {
            assert(lines_from(buf@, i as int) == seq![raw] + lines_from(buf@, e + 1));
            assert(done + lines_from(buf@, e + 1) =~= old_done + lines_from(buf@, i as int));
        }
        i = e + 1;
    }
}

} // verus!
