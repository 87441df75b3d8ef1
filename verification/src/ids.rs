//! Log IDs: reading them from input lines, skipping lines that do not hold a
//! decimal number.

use vstd::prelude::*;
use crate::text::{all_digits, dec_val, trimmed, parse_u32, trim_spaces};

verus! {

/// The log ID an input line carries: the line with surrounding whitespace
/// removed must be a non-empty string of decimal digits whose value fits in
/// 32 bits; any other line carries none.
pub open spec fn line_id(s: Seq<char>) -> Option<u32> {
    let t = trimmed(s);
    if t.len() > 0 && all_digits(t) && dec_val(t) <= u32::MAX {
        Some(dec_val(t) as u32)
    } else {
        None
    }
}

/// Parses one input line as a log ID, matching `line_id`.
pub fn parse_log_id(line: &str) -> (r: Option<u32>)
    ensures
        r == line_id(line@),
{
    let t = trim_spaces(line);
    parse_u32(t)
}

/// The IDs carried by a sequence of lines, in order, unparseable lines
/// skipped.
pub open spec fn ids_of_lines(lines: Seq<Seq<char>>) -> Seq<u32>
    decreases lines.len(),
{
    if lines.len() == 0 {
        Seq::empty()
    } else {
        ids_of_lines(lines.drop_last()) + match line_id(lines.last()) {
            Some(v) => seq![v],
            None => Seq::empty(),
        }
    }
}

/// Collects the log IDs of all input lines, in order; lines that hold no ID
/// are skipped.
pub fn collect_ids(lines: &Vec<String>) -> (r: Vec<u32>)
    ensures
        r@ == ids_of_lines(lines@.map_values(|s: String| s@)),
{
    let ghost m = lines@.map_values(|s: String| s@);
    let mut r: Vec<u32> = Vec::new();
    let mut i: usize = 0;
    while i < lines.len()
        invariant
            0 <= i <= lines@.len(),
            m == lines@.map_values(|s: String| s@),
            r@ == ids_of_lines(m.take(i as int)),
        decreases lines@.len() - i,
    {
        proof {
            assert(m.take(i + 1).drop_last() =~= m.take(i as int));
            assert(m.take(i + 1).last() == lines@[i as int]@);
        }
        match parse_log_id(lines[i].as_str()) {
            Some(v) => {
                r.push(v);
                proof {
                    assert(r@ =~= ids_of_lines(m.take(i + 1)));
                }
            },
            None => {
                proof {
                    assert(r@ =~= ids_of_lines(m.take(i + 1)));
                }
            },
        }
        i = i + 1;
    }
    proof {
        assert(m.take(lines@.len() as int) =~= m);
    }
    r
}

} // verus!
