//! Records and lists of records on the wire. A record is a row of field
//! values written one after the other, as its schema says; a list is the
//! number of its records, as a 64-bit integer of variable length, and then
//! the records.

use vstd::prelude::*;
use crate::varint::{Kind, WireError, put, take, lemma_field_round_trip, lemma_parse_holds};

verus! {

/// What a reading that has taken `taken` bytes and found `found` comes to
/// once the rest has been read with the outcome `rest`.
pub open spec fn joined<T>(found: Seq<T>, taken: nat, rest: Result<(Seq<T>, nat), WireError>) -> Result<
    (Seq<T>, nat),
    WireError,
> {
    match rest {
        Ok((more, n)) => Ok((found + more, taken + n)),
        Err(e) => Err(e),
    }
}

/// The row `vals` has a value of the right kind for every field of `schema`.
pub open spec fn row_holds(schema: Seq<Kind>, vals: Seq<u64>) -> bool {
    &&& schema.len() == vals.len()
    &&& forall|i: int| 0 <= i < schema.len() ==> (#[trigger] schema[i]).holds(vals[i])
}

/// The bytes of the fields of `vals` from field `i` on.
pub open spec fn row_wire_from(schema: Seq<Kind>, vals: Seq<u64>, i: nat) -> Seq<u8>
    decreases schema.len() - i,
{
    if i >= schema.len() {
        Seq::empty()
    } else {
        schema[i as int].wire(vals[i as int]) + row_wire_from(schema, vals, i + 1)
    }
}

/// The bytes of the row `vals`.
pub open spec fn row_wire(schema: Seq<Kind>, vals: Seq<u64>) -> Seq<u8> {
    row_wire_from(schema, vals, 0)
}

/// Reads the fields of `schema` from field `i` on from the front of `s`:
/// their values and how many bytes they took.
pub open spec fn row_parse_from(schema: Seq<Kind>, s: Seq<u8>, i: nat) -> Result<
    (Seq<u64>, nat),
    WireError,
>
    decreases schema.len() - i,
{
    if i >= schema.len() {
        Ok((Seq::empty(), 0))
    } else {
        match schema[i as int].parse(s) {
            Err(e) => Err(e),
            Ok((v, n)) => joined(seq![v], n, row_parse_from(schema, s.skip(n as int), i + 1)),
        }
    }
}

/// Reads a row of `schema` from the front of `s`.
pub open spec fn row_parse(schema: Seq<Kind>, s: Seq<u8>) -> Result<(Seq<u64>, nat), WireError> {
    row_parse_from(schema, s, 0)
}

/// Every row of `rows` is a row of `schema`.
pub open spec fn rows_hold(schema: Seq<Kind>, rows: Seq<Seq<u64>>) -> bool {
    forall|r: int| 0 <= r < rows.len() ==> row_holds(schema, #[trigger] rows[r])
}

/// The bytes of the rows of `rows` from row `r` on.
pub open spec fn rows_wire_from(schema: Seq<Kind>, rows: Seq<Seq<u64>>, r: nat) -> Seq<u8>
    decreases rows.len() - r,
{
    if r >= rows.len() {
        Seq::empty()
    } else {
        row_wire(schema, rows[r as int]) + rows_wire_from(schema, rows, r + 1)
    }
}

/// The bytes of a list: the number of rows, then the rows.
#[verifier::opaque]
pub open spec fn list_wire(schema: Seq<Kind>, rows: Seq<Seq<u64>>) -> Seq<u8> {
    Kind::U64.wire(rows.len() as u64) + rows_wire_from(schema, rows, 0)
}

/// Reads `count` rows of `schema` from the front of `s`.
pub open spec fn rows_parse(schema: Seq<Kind>, s: Seq<u8>, count: nat) -> Result<
    (Seq<Seq<u64>>, nat),
    WireError,
>
    decreases count,
{
    if count == 0 {
        Ok((Seq::empty(), 0))
    } else {
        match row_parse(schema, s) {
            Err(e) => Err(e),
            Ok((row, n)) => joined(
                seq![row],
                n,
                rows_parse(schema, s.skip(n as int), (count - 1) as nat),
            ),
        }
    }
}

/// Reads a list of rows of `schema` from the front of `s`.
#[verifier::opaque]
pub open spec fn list_parse(schema: Seq<Kind>, s: Seq<u8>) -> Result<(Seq<Seq<u64>>, nat), WireError> {
    match Kind::U64.parse(s) {
        Err(e) => Err(e),
        Ok((count, n)) => match rows_parse(schema, s.skip(n as int), count as nat) {
            Err(e) => Err(e),
            Ok((rows, m)) => Ok((rows, n + m)),
        },
    }
}

/// The rows that the vectors of `rows` hold.
pub open spec fn rows_of(rows: Seq<Vec<u64>>) -> Seq<Seq<u64>> {
    Seq::new(rows.len(), |r: int| rows[r]@)
}

/// A row that is written and followed by anything is read back as itself,
/// and the reading takes exactly the bytes that were written.
pub proof fn lemma_row_round_trip(schema: Seq<Kind>, vals: Seq<u64>, i: nat, rest: Seq<u8>)
    requires
        row_holds(schema, vals),
        i <= schema.len(),
    ensures
        row_parse_from(schema, row_wire_from(schema, vals, i) + rest, i) == Ok::<
            (Seq<u64>, nat),
            WireError,
        >((vals.skip(i as int), row_wire_from(schema, vals, i).len())),
    decreases schema.len() - i,
{
    if i >= schema.len() {
        assert(vals.skip(i as int) =~= Seq::<u64>::empty());
    } else {
        let head = schema[i as int].wire(vals[i as int]);
        let tail = row_wire_from(schema, vals, i + 1);
        lemma_field_round_trip(schema[i as int], vals[i as int], tail + rest);
        lemma_row_round_trip(schema, vals, i + 1, rest);
        assert((head + tail) + rest =~= head + (tail + rest));
        assert((head + (tail + rest)).skip(head.len() as int) =~= tail + rest);
        assert(seq![vals[i as int]] + vals.skip(i as int + 1) =~= vals.skip(i as int));
    }
}

/// Whatever is read as a row of `schema` is a row of `schema`, and took no
/// more bytes than there were, and at least one for each field.
pub proof fn lemma_row_parse_holds(schema: Seq<Kind>, s: Seq<u8>, i: nat)
    requires
        i <= schema.len(),
    ensures
        row_parse_from(schema, s, i) matches Ok((vals, n)) ==> {
            &&& vals.len() == schema.len() - i
            &&& forall|j: int| 0 <= j < vals.len() ==> (#[trigger] schema[i + j]).holds(vals[j])
            &&& schema.len() - i <= n <= s.len()
        },
    decreases schema.len() - i,
{
    if i < schema.len() {
        lemma_parse_holds(schema[i as int], s);
        match schema[i as int].parse(s) {
            Ok((v, n)) => {
                lemma_row_parse_holds(schema, s.skip(n as int), i + 1);
                match row_parse_from(schema, s.skip(n as int), i + 1) {
                    Ok((more, m)) => {
                        let vals = seq![v] + more;
                        assert forall|j: int| 0 <= j < vals.len() implies (#[trigger] schema[i
                            + j]).holds(vals[j]) by {
                            if j > 0 {
                                assert(schema[i + j] == schema[(i + 1) + (j - 1)]);
                            }
                        }
                    },
                    Err(_) => {},
                }
            },
            Err(_) => {},
        }
    }
}

/// Rows that are written and followed by anything are read back as
/// themselves, and the reading takes exactly the bytes that were written.
pub proof fn lemma_rows_round_trip(schema: Seq<Kind>, rows: Seq<Seq<u64>>, r: nat, rest: Seq<u8>)
    requires
        rows_hold(schema, rows),
        r <= rows.len(),
    ensures
        rows_parse(schema, rows_wire_from(schema, rows, r) + rest, (rows.len() - r) as nat) == Ok::<
            (Seq<Seq<u64>>, nat),
            WireError,
        >((rows.skip(r as int), rows_wire_from(schema, rows, r).len())),
    decreases rows.len() - r,
{
    if r >= rows.len() {
        assert(rows.skip(r as int) =~= Seq::<Seq<u64>>::empty());
    } else {
        let head = row_wire(schema, rows[r as int]);
        let tail = rows_wire_from(schema, rows, r + 1);
        lemma_row_round_trip(schema, rows[r as int], 0, tail + rest);
        lemma_rows_round_trip(schema, rows, r + 1, rest);
        assert(rows[r as int].skip(0) =~= rows[r as int]);
        assert((head + tail) + rest =~= head + (tail + rest));
        assert((head + (tail + rest)).skip(head.len() as int) =~= tail + rest);
        assert(seq![rows[r as int]] + rows.skip(r as int + 1) =~= rows.skip(r as int));
    }
}

/// A list that is written and followed by anything is read back as itself,
/// and the reading takes exactly the bytes that were written.
pub proof fn lemma_list_round_trip(schema: Seq<Kind>, rows: Seq<Seq<u64>>, rest: Seq<u8>)
    requires
        rows_hold(schema, rows),
        rows.len() <= u64::MAX,
    ensures
        list_parse(schema, list_wire(schema, rows) + rest) == Ok::<(Seq<Seq<u64>>, nat), WireError>(
            (rows, list_wire(schema, rows).len()),
        ),
{
    reveal(list_wire);
    reveal(list_parse);
    let head = Kind::U64.wire(rows.len() as u64);
    let tail = rows_wire_from(schema, rows, 0);
    lemma_field_round_trip(Kind::U64, rows.len() as u64, tail + rest);
    lemma_rows_round_trip(schema, rows, 0, rest);
    assert((head + tail) + rest =~= head + (tail + rest));
    assert((head + (tail + rest)).skip(head.len() as int) =~= tail + rest);
    assert(rows.skip(0) =~= rows);
}

/// Appends the bytes of the row `vals`.
pub fn put_row(out: &mut Vec<u8>, schema: &Vec<Kind>, vals: &Vec<u64>)
    requires
        row_holds(schema@, vals@),
    ensures
        final(out)@ == old(out)@ + row_wire(schema@, vals@),
{
    let mut i: usize = 0;
    while i < schema.len()
        invariant
            i <= schema.len(),
            row_holds(schema@, vals@),
            out@ + row_wire_from(schema@, vals@, i as nat) == old(out)@ + row_wire(schema@, vals@),
        decreases schema.len() - i,
    {
        put(out, schema[i], vals[i]);
        i += 1;
    }
}

/// Reads a row of `schema` at `at`: its values and where the next thing
/// starts.
pub fn take_row(bytes: &[u8], at: usize, schema: &Vec<Kind>) -> (r: Result<(Vec<u64>, usize), WireError>)
    requires
        at <= bytes@.len(),
    ensures
        match r {
            Ok((vals, next)) => {
                &&& at <= next <= bytes@.len()
                &&& row_holds(schema@, vals@)
                &&& row_parse(schema@, bytes@.skip(at as int)) == Ok::<(Seq<u64>, nat), WireError>(
                    (vals@, (next - at) as nat),
                )
            },
            Err(e) => row_parse(schema@, bytes@.skip(at as int)) == Err::<(Seq<u64>, nat), WireError>(
                e,
            ),
        },
{
    let ghost whole = row_parse(schema@, bytes@.skip(at as int));
    let mut vals: Vec<u64> = Vec::new();
    let mut pos: usize = at;
    let mut i: usize = 0;
    while i < schema.len()
        invariant
            i <= schema.len(),
            at <= pos <= bytes@.len(),
            vals@.len() == i,
            forall|j: int| 0 <= j < i ==> (#[trigger] schema@[j]).holds(vals@[j]),
            whole == row_parse(schema@, bytes@.skip(at as int)),
            whole == joined(
                vals@,
                (pos - at) as nat,
                row_parse_from(schema@, bytes@.skip(pos as int), i as nat),
            ),
        decreases schema.len() - i,
    {
        match take(bytes, pos, schema[i]) {
            Err(e) => {
                return Err(e);
            },
            Ok((v, next)) => {
                proof {
                    let n = (next - pos) as nat;
                    assert(bytes@.skip(pos as int).skip(n as int) =~= bytes@.skip(next as int));
                    let rest = row_parse_from(schema@, bytes@.skip(next as int), (i + 1) as nat);
                    match rest {
                        Ok((more, m)) => {
                            assert(vals@ + (seq![v] + more) =~= vals@.push(v) + more);
                        },
                        Err(_) => {},
                    }
                }
                vals.push(v);
                pos = next;
            },
        }
        i += 1;
    }
    Ok((vals, pos))
}

/// Appends the bytes of the list `rows`.
pub fn put_list(out: &mut Vec<u8>, schema: &Vec<Kind>, rows: &Vec<Vec<u64>>)
    requires
        rows_hold(schema@, rows_of(rows@)),
    ensures
        final(out)@ == old(out)@ + list_wire(schema@, rows_of(rows@)),
{
    proof {
        reveal(list_wire);
        reveal(list_parse);
    }
    let ghost all = rows_of(rows@);
    put(out, Kind::U64, rows.len() as u64);
    let ghost start = out@;
    let mut r: usize = 0;
    while r < rows.len()
        invariant
            r <= rows.len(),
            all == rows_of(rows@),
            rows_hold(schema@, all),
            out@ + rows_wire_from(schema@, all, r as nat) == start + rows_wire_from(schema@, all, 0),
        decreases rows.len() - r,
    {
        put_row(out, schema, &rows[r]);
        r += 1;
    }
}

/// Reads a list of rows of `schema` at `at`: the rows and where the next
/// thing starts.
pub fn take_list(bytes: &[u8], at: usize, schema: &Vec<Kind>) -> (r: Result<
    (Vec<Vec<u64>>, usize),
    WireError,
>)
    requires
        at <= bytes@.len(),
    ensures
        match r {
            Ok((rows, next)) => {
                &&& at <= next <= bytes@.len()
                &&& rows_hold(schema@, rows_of(rows@))
                &&& list_parse(schema@, bytes@.skip(at as int)) == Ok::<
                    (Seq<Seq<u64>>, nat),
                    WireError,
                >((rows_of(rows@), (next - at) as nat))
            },
            Err(e) => list_parse(schema@, bytes@.skip(at as int)) == Err::<
                (Seq<Seq<u64>>, nat),
                WireError,
            >(e),
        },
{
    proof {
        reveal(list_wire);
        reveal(list_parse);
    }
    let (count, first) = match take(bytes, at, Kind::U64) {
        Err(e) => {
            return Err(e);
        },
        Ok(found) => found,
    };
    let ghost whole = rows_parse(schema@, bytes@.skip(first as int), count as nat);
    proof {
        assert(bytes@.skip(at as int).skip(first - at) =~= bytes@.skip(first as int));
    }
    let mut rows: Vec<Vec<u64>> = Vec::new();
    let mut pos: usize = first;
    let mut r: u64 = 0;
    while r < count
        invariant
            r <= count,
            first <= pos <= bytes@.len(),
            rows@.len() == r,
            rows_hold(schema@, rows_of(rows@)),
            at <= first,
            list_parse(schema@, bytes@.skip(at as int)) == (match whole {
                Err(e) => Err::<(Seq<Seq<u64>>, nat), WireError>(e),
                Ok((found, m)) => Ok((found, (first - at + m) as nat)),
            }),
            whole == joined(
                rows_of(rows@),
                (pos - first) as nat,
                rows_parse(schema@, bytes@.skip(pos as int), (count - r) as nat),
            ),
        decreases count - r,
    {
        match take_row(bytes, pos, schema) {
            Err(e) => {
                return Err(e);
            },
            Ok((row, next)) => {
                proof {
                    let n = (next - pos) as nat;
                    assert(bytes@.skip(pos as int).skip(n as int) =~= bytes@.skip(next as int));
                    let rest = rows_parse(schema@, bytes@.skip(next as int), (count - r - 1) as nat);
                    match rest {
                        Ok((more, m)) => {
                            assert(rows_of(rows@) + (seq![row@] + more) =~= rows_of(rows@.push(row))
                                + more);
                        },
                        Err(_) => {},
                    }
                    assert forall|q: int| 0 <= q < rows@.push(row).len() implies row_holds(
                        schema@,
                        #[trigger] rows_of(rows@.push(row))[q],
                    ) by {
                        if q < rows@.len() {
                            assert(rows_of(rows@.push(row))[q] == rows_of(rows@)[q]);
                        }
                    }
                }
                rows.push(row);
                pos = next;
            },
        }
        r += 1;
    }
    Ok((rows, pos))
}

} // verus!
