//! Records of a corpus of mangled names: lines of fields separated by commas,
//! of which those behind the first four are manglings of one name.

use vstd::prelude::*;

verus! {

/// Number of leading fields of a record that hold no mangling.
pub const SKIPPED_FIELDS: usize = 4;

/// The first line of a corpus.
pub fn header() -> (r: &'static str)
    ensures
        r@ == "legacy+generics,legacy,mw,mw+compression,v0,v0+compression"@,
{
    "legacy+generics,legacy,mw,mw+compression,v0,v0+compression"
}

/// The first position at or behind `pos` that holds a comma, or the end.
pub open spec fn field_end(line: Seq<u8>, pos: nat) -> nat
    decreases line.len() - pos,
{
    if pos >= line.len() {
        line.len()
    } else if line[pos as int] == ',' as u8 {
        pos
    } else {
        field_end(line, pos + 1)
    }
}

/// The fields of a line from the one that begins at `pos` on, which is the
/// `index`-th, as ranges of positions; the first four are left out.
pub open spec fn fields_from(line: Seq<u8>, pos: nat, index: nat) -> Seq<(nat, nat)>
    decreases line.len() - pos,
{
    let end = field_end(line, pos);
    let rest = if pos <= end < line.len() {
        fields_from(line, end + 1, index + 1)
    } else {
        Seq::empty()
    };
    if index >= SKIPPED_FIELDS {
        seq![(pos, end)] + rest
    } else {
        rest
    }
}

/// The manglings of a record, as ranges of positions in its line.
pub open spec fn variants(line: Seq<u8>) -> Seq<(nat, nat)> {
    fields_from(line, 0, 0)
}

/// A range of positions over machine integers, as one over numbers.
pub open spec fn range_of(r: (usize, usize)) -> (nat, nat) {
    (r.0 as nat, r.1 as nat)
}

/// Finds the manglings of a record.
pub fn variant_ranges(line: &[u8]) -> (r: Vec<(usize, usize)>)
    ensures
        r@.map_values(|x: (usize, usize)| range_of(x)) == variants(line@),
        forall|i: int| 0 <= i < r@.len() ==> (#[trigger] r@[i]).0 <= r@[i].1 <= line@.len(),
{
    let n: usize = line.len();
    let mut found: Vec<(usize, usize)> = Vec::new();
    let mut pos: usize = 0;
    let mut index: usize = 0;
    loop
        invariant
            n == line@.len(),
            pos <= n,
            index <= pos,
            forall|i: int| 0 <= i < found@.len() ==> (#[trigger] found@[i]).0 <= found@[i].1 <= n,
            found@.map_values(|x: (usize, usize)| range_of(x)) + fields_from(
                line@,
                pos as nat,
                index as nat,
            ) == variants(line@),
        decreases n - pos,
    {
        let mut end: usize = pos;
        while end < n && line[end] != ',' as u8
            invariant
                n == line@.len(),
                pos <= end <= n,
                field_end(line@, end as nat) == field_end(line@, pos as nat),
            decreases n - end,
        {
            end = end + 1;
        }
        let ghost before = found@.map_values(|x: (usize, usize)| range_of(x));
        if index >= SKIPPED_FIELDS {
            found.push((pos, end));
            assert(found@.map_values(|x: (usize, usize)| range_of(x)) =~= before + seq![
                (pos as nat, end as nat),
            ]);
        }
        if end >= n {
            assert(found@.map_values(|x: (usize, usize)| range_of(x)) + Seq::<
                (nat, nat),
            >::empty() =~= found@.map_values(|x: (usize, usize)| range_of(x)));
            return found;
        }
        proof {
            let rest = fields_from(line@, (end + 1) as nat, (index + 1) as nat);
            if index >= SKIPPED_FIELDS {
                assert((before + seq![(pos as nat, end as nat)]) + rest =~= before + (seq![
                    (pos as nat, end as nat),
                ] + rest));
            }
        }
        pos = end + 1;
        index = index + 1;
    }
}

} // verus!
