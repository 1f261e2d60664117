//! Records as bytes.
//!
//! How a record is written is up to the caller, who hands the functions of the library a way to
//! encode and a way to decode. What the library states of them, it states of any such pair: which
//! bytes are written, and what is made of the bytes that are read.

use vstd::prelude::*;
use crate::color::Rgba;
use crate::rows::row_views;
use crate::store::{
    dropped, exchange_plane, exchange_text, forget_text, plane_pairs, plane_table_name,
    record_view, released, text_pairs, text_table_name, PlaneTable, StoreError, TextTable,
};

verus! {

/// Whether `encode` may write `record` as `bytes`.
pub open spec fn encodes<R, F: Fn(&R) -> Vec<u8>>(encode: F, record: R, bytes: Seq<u8>) -> bool {
    exists|v: Vec<u8>| v@ == bytes && #[trigger] call_ensures(encode, (&record,), v)
}

/// Whether `encode` takes every record, and writes each in one way.
pub open spec fn is_encoder<R, F: Fn(&R) -> Vec<u8>>(encode: F) -> bool {
    &&& forall|r: &R| #[trigger] call_requires(encode, (r,))
    &&& forall|r: R, a: Seq<u8>, b: Seq<u8>|
        #[trigger] encodes(encode, r, a) && #[trigger] encodes(encode, r, b) ==> a == b
}

/// What `encode` writes `record` as.
pub open spec fn code<R, F: Fn(&R) -> Vec<u8>>(encode: F, record: R) -> Seq<u8> {
    choose|bytes: Seq<u8>| encodes(encode, record, bytes)
}

/// What `encode` writes `record` as, where there is one.
pub open spec fn code_of_some<R, F: Fn(&R) -> Vec<u8>>(encode: F, record: Option<R>) -> Option<
    Seq<u8>,
> {
    match record {
        Some(r) => Some(code(encode, r)),
        None => None,
    }
}

/// Whether `decode` may read `bytes` as `record`, or as none.
pub open spec fn decodes<R, F: Fn(&[u8]) -> Option<R>>(
    decode: F,
    bytes: Seq<u8>,
    record: Option<R>,
) -> bool {
    exists|s: &[u8]| s@ == bytes && #[trigger] call_ensures(decode, (s,), record)
}

/// Whether `decode` takes all bytes, and reads them in one way.
pub open spec fn is_decoder<R, F: Fn(&[u8]) -> Option<R>>(decode: F) -> bool {
    &&& forall|s: &[u8]| #[trigger] call_requires(decode, (s,))
    &&& forall|bytes: Seq<u8>, a: Option<R>, b: Option<R>|
        #[trigger] decodes(decode, bytes, a) && #[trigger] decodes(decode, bytes, b) ==> a == b
}

/// What `decode` makes of `bytes`.
pub open spec fn meaning<R, F: Fn(&[u8]) -> Option<R>>(decode: F, bytes: Seq<u8>) -> Option<R> {
    choose|record: Option<R>| decodes(decode, bytes, record)
}

/// What `decode` makes of what was found, if anything was.
pub open spec fn meaning_of_found<R, F: Fn(&[u8]) -> Option<R>>(
    decode: F,
    found: Option<Seq<u8>>,
) -> Option<R> {
    match found {
        Some(bytes) => meaning(decode, bytes),
        None => None,
    }
}

/// Whether `decode` reads `record` back from what `encode` writes.
pub open spec fn reads_back<R, E: Fn(&R) -> Vec<u8>, D: Fn(&[u8]) -> Option<R>>(
    encode: E,
    decode: D,
    record: R,
) -> bool {
    meaning(decode, code(encode, record)) == Some(record)
}

/// Whatever an encoder wrote is the record's code.
proof fn written_is_code<R, F: Fn(&R) -> Vec<u8>>(encode: F, record: R, v: Vec<u8>)
    requires
        is_encoder(encode),
        call_ensures(encode, (&record,), v),
    ensures
        code(encode, record) == v@,
{
    assert(encodes(encode, record, v@));
    assert(encodes(encode, record, code(encode, record)));
}

/// Whatever a decoder read is the bytes' meaning.
proof fn read_is_meaning<R, F: Fn(&[u8]) -> Option<R>>(decode: F, s: &[u8], record: Option<R>)
    requires
        is_decoder(decode),
        call_ensures(decode, (s,), record),
    ensures
        meaning(decode, s@) == record,
{
    assert(decodes(decode, s@, record));
    assert(decodes(decode, s@, meaning(decode, s@)));
}

/// Writes a record down.
pub fn write_down<R, F: Fn(&R) -> Vec<u8>>(record: &R, encode: &F) -> (bytes: Vec<u8>)
    requires
        is_encoder(*encode),
    ensures
        bytes@ == code(*encode, *record),
{
    let bytes = encode(record);
    proof {
        written_is_code(*encode, *record, bytes);
    }
    bytes
}

/// The pairs of a table of texts once the record `stale` of `text` was taken out, if there is one,
/// and `new` was added; they were `before`.
pub open spec fn attached<R, F: Fn(&R) -> Vec<u8>>(
    encode: F,
    before: Set<(Seq<char>, Seq<u8>)>,
    text: Seq<char>,
    stale: Option<R>,
    new: R,
) -> Set<(Seq<char>, Seq<u8>)> {
    released(before, text, code_of_some(encode, stale)).insert((text, code(encode, new)))
}

/// Whether the record `new` of `text` was still there once `stale` was taken out.
pub open spec fn was_still_there<R, F: Fn(&R) -> Vec<u8>>(
    encode: F,
    before: Set<(Seq<char>, Seq<u8>)>,
    text: Seq<char>,
    stale: Option<R>,
    new: R,
) -> bool {
    released(before, text, code_of_some(encode, stale)).contains((text, code(encode, new)))
}

/// Takes the record `stale` of `text` out of a table, if there is one, and adds `new`. Says
/// whether `new` was still there.
pub fn attach_text<R, F: Fn(&R) -> Vec<u8>>(
    t: &mut TextTable<'_>,
    text: &str,
    stale: Option<R>,
    new: &R,
    encode: F,
) -> (r: Result<bool, StoreError>)
    requires
        is_encoder(encode),
    ensures
        (match r {
            Ok(present) => {
                &&& present == was_still_there(encode, text_pairs(*old(t)), text@, stale, *new)
                &&& text_pairs(*final(t)) == attached(
                    encode,
                    text_pairs(*old(t)),
                    text@,
                    stale,
                    *new,
                )
            },
            Err(e) => e is Storage,
        }),
        text_table_name(*final(t)) == text_table_name(*old(t)),
{
    let bytes = write_down(new, &encode);
    match stale {
        Some(record) => {
            let stale_bytes = write_down(&record, &encode);
            exchange_text(t, text, Some(stale_bytes.as_slice()), bytes.as_slice())
        },
        None => exchange_text(t, text, None, bytes.as_slice()),
    }
}

/// The pairs of a table of texts once the record `record` of `text` was taken out; they were
/// `before`.
pub open spec fn detached<R, F: Fn(&R) -> Vec<u8>>(
    encode: F,
    before: Set<(Seq<char>, Seq<u8>)>,
    text: Seq<char>,
    record: R,
) -> Set<(Seq<char>, Seq<u8>)> {
    before.remove((text, code(encode, record)))
}

/// Takes the record `record` of `text` out of a table. Says whether it was there.
pub fn detach_text<R, F: Fn(&R) -> Vec<u8>>(
    t: &mut TextTable<'_>,
    text: &str,
    record: &R,
    encode: F,
) -> (r: Result<bool, StoreError>)
    requires
        is_encoder(encode),
    ensures
        (match r {
            Ok(present) => {
                &&& present == text_pairs(*old(t)).contains((text@, code(encode, *record)))
                &&& text_pairs(*final(t)) == detached(encode, text_pairs(*old(t)), text@, *record)
            },
            Err(e) => e is Storage,
        }),
        text_table_name(*final(t)) == text_table_name(*old(t)),
{
    let bytes = write_down(record, &encode);
    forget_text(t, text, bytes.as_slice())
}

/// What `encode` writes the plane `plane` as, where there is one.
pub open spec fn code_of_plane<R, F: Fn(&R) -> Vec<u8>>(
    encode: F,
    plane: Option<(Rgba, R)>,
) -> Option<(Rgba, Seq<u8>)> {
    match plane {
        Some(p) => Some((p.0, code(encode, p.1))),
        None => None,
    }
}

/// The pairs of a table of planes once the record `new` of `color` was added and then `stale` was
/// taken out, if there is one; they were `before`.
pub open spec fn plane_attached<R, F: Fn(&R) -> Vec<u8>>(
    encode: F,
    before: Set<(Rgba, Seq<u8>)>,
    color: Rgba,
    new: R,
    stale: Option<(Rgba, R)>,
) -> Set<(Rgba, Seq<u8>)> {
    dropped(before.insert((color, code(encode, new))), code_of_plane(encode, stale))
}

/// Adds the record `new` of `color` to a table, and then takes `stale` out, if there is one.
pub fn attach_plane<R, F: Fn(&R) -> Vec<u8>>(
    t: &mut PlaneTable<'_>,
    color: Rgba,
    new: &R,
    stale: Option<(Rgba, R)>,
    encode: F,
) -> (r: Result<(), StoreError>)
    requires
        is_encoder(encode),
    ensures
        (match r {
            Ok(_) => plane_pairs(*final(t)) == plane_attached(
                encode,
                plane_pairs(*old(t)),
                color,
                *new,
                stale,
            ),
            Err(e) => e is Storage,
        }),
        plane_table_name(*final(t)) == plane_table_name(*old(t)),
{
    let bytes = write_down(new, &encode);
    match stale {
        Some((stale_color, record)) => {
            let stale_bytes = write_down(&record, &encode);
            exchange_plane(t, color, bytes.as_slice(), Some((stale_color, stale_bytes.as_slice())))
        },
        None => exchange_plane(t, color, bytes.as_slice(), None),
    }
}

/// What `decode` makes of the records of `rows`, in order, each with its key; what it makes nothing
/// of is left out.
pub open spec fn meanings<K, R, F: Fn(&[u8]) -> Option<R>>(
    decode: F,
    rows: Seq<(K, Seq<u8>)>,
) -> Seq<(K, R)>
    decreases rows.len(),
{
    if rows.len() == 0 {
        Seq::empty()
    } else {
        let rest = meanings(decode, rows.drop_last());
        match meaning(decode, rows.last().1) {
            Some(record) => rest.push((rows.last().0, record)),
            None => rest,
        }
    }
}

/// Keys with their records.
pub open spec fn keyed_records<K: View, R>(found: Seq<(K, R)>) -> Seq<(K::V, R)> {
    found.map_values(|f: (K, R)| (f.0@, f.1))
}

/// Reads keys with their records; a record that cannot be read is left out.
pub fn restore_rows<K: View, R, F: Fn(&[u8]) -> Option<R>>(
    rows: Vec<(K, Vec<u8>)>,
    decode: F,
) -> (found: Vec<(K, R)>)
    requires
        is_decoder(decode),
    ensures
        keyed_records(found@) == meanings(decode, row_views(rows@)),
{
    let ghost views = row_views(rows@);
    let mut found: Vec<(K, R)> = Vec::new();
    assert(keyed_records(found@) =~= meanings(decode, views.take(0)));
    for row in it: rows.into_iter()
        invariant
            it.seq() == rows@,
            views == row_views(rows@),
            is_decoder(decode),
            keyed_records(found@) == meanings(decode, views.take(it.index() as int)),
    {
        let ghost i = it.index() as int;
        let ghost before = found@;
        let (key, bytes) = row;
        let slice = bytes.as_slice();
        let out = decode(slice);
        proof {
            read_is_meaning(decode, slice, out);
            assert(views[i] == (key@, bytes@));
            assert(views.take(i + 1).drop_last() =~= views.take(i));
        }
        if let Some(record) = out {
            found.push((key, record));
            assert(keyed_records(found@) =~= keyed_records(before).push((views[i].0, record)));
        }
    }
    assert(views.take(views.len() as int) =~= views);
    found
}

/// Reads the record that was found, if there is one.
pub fn restore<R, F: Fn(&[u8]) -> Option<R>>(found: &Option<Vec<u8>>, decode: F) -> (r: Option<R>)
    requires
        is_decoder(decode),
    ensures
        r == meaning_of_found(decode, record_view(*found)),
{
    match found {
        Some(bytes) => {
            let slice = bytes.as_slice();
            let r = decode(slice);
            proof {
                read_is_meaning(decode, slice, r);
            }
            r
        },
        None => None,
    }
}

/// What `decode` makes of a record among the rows is found, under its key.
pub proof fn meaning_is_found<K, R, D: Fn(&[u8]) -> Option<R>>(
    decode: D,
    rows: Seq<(K, Seq<u8>)>,
    key: K,
    bytes: Seq<u8>,
    record: R,
)
    requires
        rows.contains((key, bytes)),
        meaning(decode, bytes) == Some(record),
    ensures
        meanings(decode, rows).contains((key, record)),
    decreases rows.len(),
{
    let i = choose|i: int| 0 <= i < rows.len() && rows[i] == (key, bytes);
    let front = rows.drop_last();
    let rest = meanings(decode, front);
    let all = meanings(decode, rows);
    if i == rows.len() - 1 {
        assert(all[rest.len() as int] == (key, record));
    } else {
        assert(front[i] == (key, bytes));
        meaning_is_found(decode, front, key, bytes, record);
        let j = choose|j: int| 0 <= j < rest.len() && rest[j] == (key, record);
        assert(all[j] == (key, record));
    }
}

/// Nothing is found that was not there: each record is what `decode` makes of one among the rows of
/// its key.
pub proof fn found_has_meaning<K, R, D: Fn(&[u8]) -> Option<R>>(
    decode: D,
    rows: Seq<(K, Seq<u8>)>,
    key: K,
    record: R,
) -> (bytes: Seq<u8>)
    requires
        meanings(decode, rows).contains((key, record)),
    ensures
        rows.contains((key, bytes)),
        meaning(decode, bytes) == Some(record),
    decreases rows.len(),
{
    let j = choose|j: int|
        0 <= j < meanings(decode, rows).len() && meanings(decode, rows)[j] == (key, record);
    let front = rows.drop_last();
    let rest = meanings(decode, front);
    if j < rest.len() {
        assert(rest[j] == (key, record));
        let bytes = found_has_meaning(decode, front, key, record);
        let i = choose|i: int| 0 <= i < front.len() && front[i] == (key, bytes);
        assert(rows[i] == (key, bytes));
        bytes
    } else {
        assert(rows[rows.len() - 1] == (key, rows.last().1));
        rows.last().1
    }
}

/// Whether `decode` makes `record` of no other record of `key` in a table than `bytes`.
pub open spec fn means_only<K, R, D: Fn(&[u8]) -> Option<R>>(
    decode: D,
    pairs: Set<(K, Seq<u8>)>,
    key: K,
    record: R,
    bytes: Seq<u8>,
) -> bool {
    forall|b: Seq<u8>| #[trigger]
        pairs.contains((key, b)) && meaning(decode, b) == Some(record) ==> b == bytes
}

/// What none of the rows mean is not found.
proof fn not_found<K, R, D: Fn(&[u8]) -> Option<R>>(
    decode: D,
    rows: Seq<(K, Seq<u8>)>,
    key: K,
    record: R,
)
    requires
        forall|k: int|
            0 <= k < rows.len() ==> !((#[trigger] rows[k]).0 == key && meaning(decode, rows[k].1)
                == Some(record)),
    ensures
        meanings(decode, rows).to_multiset().count((key, record)) == 0,
    decreases rows.len(),
{
    broadcast use vstd::seq_lib::group_to_multiset_ensures;

    if rows.len() > 0 {
        let front = rows.drop_last();
        assert forall|k: int| 0 <= k < front.len() implies !((#[trigger] front[k]).0 == key
            && meaning(decode, front[k].1) == Some(record)) by {
            assert(rows[k] == front[k]);
        }
        not_found(decode, front, key, record);
        assert(rows[rows.len() - 1] == rows.last());
    } else {
        assert(meanings(decode, rows) =~= Seq::empty());
    }
}

/// What just one of the rows means is found once.
proof fn found_once<K, R, D: Fn(&[u8]) -> Option<R>>(
    decode: D,
    rows: Seq<(K, Seq<u8>)>,
    i: int,
    key: K,
    record: R,
)
    requires
        0 <= i < rows.len(),
        rows[i].0 == key,
        meaning(decode, rows[i].1) == Some(record),
        forall|k: int|
            0 <= k < rows.len() && k != i ==> !((#[trigger] rows[k]).0 == key && meaning(
                decode,
                rows[k].1,
            ) == Some(record)),
    ensures
        meanings(decode, rows).to_multiset().count((key, record)) == 1,
    decreases rows.len(),
{
    broadcast use vstd::seq_lib::group_to_multiset_ensures;

    let front = rows.drop_last();
    if i == rows.len() - 1 {
        assert forall|k: int| 0 <= k < front.len() implies !((#[trigger] front[k]).0 == key
            && meaning(decode, front[k].1) == Some(record)) by {
            assert(rows[k] == front[k]);
        }
        not_found(decode, front, key, record);
    } else {
        assert forall|k: int| 0 <= k < front.len() && k != i implies !((#[trigger] front[k]).0
            == key && meaning(decode, front[k].1) == Some(record)) by {
            assert(rows[k] == front[k]);
        }
        found_once(decode, front, i, key, record);
        assert(rows[rows.len() - 1] == rows.last());
    }
}

/// What `decode` makes of a record is found just once, if it makes it of no other record of the
/// key and no row occurs twice.
pub proof fn meaning_is_found_once<K, R, D: Fn(&[u8]) -> Option<R>>(
    decode: D,
    rows: Seq<(K, Seq<u8>)>,
    key: K,
    bytes: Seq<u8>,
    record: R,
)
    requires
        rows.contains((key, bytes)),
        rows.no_duplicates(),
        meaning(decode, bytes) == Some(record),
        means_only(decode, rows.to_set(), key, record, bytes),
    ensures
        meanings(decode, rows).to_multiset().count((key, record)) == 1,
{
    let i = choose|i: int| 0 <= i < rows.len() && rows[i] == (key, bytes);
    assert forall|k: int| 0 <= k < rows.len() && k != i implies !((#[trigger] rows[k]).0 == key
        && meaning(decode, rows[k].1) == Some(record)) by {
        if rows[k].0 == key && meaning(decode, rows[k].1) == Some(record) {
            assert(rows[k] == (key, rows[k].1));
            assert(rows.to_set().contains((key, rows[k].1)));
            assert(rows[k] == rows[i]);
        }
    }
    found_once(decode, rows, i, key, record);
}

/// Rows in two parts are read part by part; a single row gives what `decode` makes of it under its
/// key, or nothing.
pub proof fn meanings_of_parts<K, R, D: Fn(&[u8]) -> Option<R>>(
    decode: D,
    a: Seq<(K, Seq<u8>)>,
    b: Seq<(K, Seq<u8>)>,
    row: (K, Seq<u8>),
)
    ensures
        meanings(decode, Seq::<(K, Seq<u8>)>::empty()).len() == 0,
        meanings(decode, a + b) == meanings(decode, a) + meanings(decode, b),
        meaning(decode, row.1) is None ==> meanings(decode, seq![row]).len() == 0,
        meaning(decode, row.1) matches Some(r) ==> meanings(decode, seq![row]) == seq![(row.0, r)],
    decreases b.len(),
{
    let none = Seq::<(K, Seq<u8>)>::empty();
    assert(seq![row].drop_last() =~= none);
    assert(meanings(decode, none).len() == 0);
    if let Some(r) = meaning(decode, row.1) {
        assert(meanings(decode, seq![row]) =~= seq![(row.0, r)]);
    }
    if b.len() == 0 {
        assert(a + b =~= a);
        assert(meanings(decode, a) + meanings(decode, b) =~= meanings(decode, a));
    } else {
        assert((a + b).drop_last() =~= a + b.drop_last());
        meanings_of_parts(decode, a, b.drop_last(), row);
        assert(meanings(decode, a + b) =~= meanings(decode, a) + meanings(decode, b));
    }
}

} // verus!
