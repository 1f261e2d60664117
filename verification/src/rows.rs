//! Reading back all that a table of texts or of planes remembers.
//!
//! The tables and their iterators are redb's. What the library believes of them stands in the
//! contracts of the functions marked `external_body`. A read that fails ends an iterator or
//! passes over what could not be read; the library goes on with the rest, and hands the failure
//! out beside it.

use vstd::prelude::*;
use vstd::utf8::encode_utf8;
use crate::color::Rgba;
use crate::store::{plane_table, plane_table_for, text_table, text_table_for, StoreError};
use crate::text::{join_lines, joined, text_views};

verus! {

/// A table of texts, to be read only: redb's `ReadOnlyMultimapTable` from `&str` to `&[u8]`.
#[verifier::external_body]
pub struct SavedTexts {
    inner: redb::ReadOnlyMultimapTable<&'static str, &'static [u8]>,
}

/// What a table of texts holds: each text with its records.
pub uninterp spec fn text_rows(t: SavedTexts) -> Seq<(Seq<char>, Seq<Seq<u8>>)>;

/// The name of a table of texts that is read.
pub uninterp spec fn saved_texts_name(t: SavedTexts) -> Seq<char>;

/// A table of planes, to be read only: redb's `ReadOnlyMultimapTable` from `[u8; 4]` to `&[u8]`.
#[verifier::external_body]
pub struct SavedPlanes {
    inner: redb::ReadOnlyMultimapTable<[u8; 4], &'static [u8]>,
}

/// What a table of planes holds: each color with its records.
pub uninterp spec fn plane_rows(t: SavedPlanes) -> Seq<(Rgba, Seq<Seq<u8>>)>;

/// The name of a table of planes that is read.
pub uninterp spec fn saved_planes_name(t: SavedPlanes) -> Seq<char>;

/// A way through a table of texts: redb's `MultimapRange`.
#[verifier::external_body]
pub struct TextRange {
    inner: redb::MultimapRange<'static, &'static str, &'static [u8]>,
}

/// The texts that are still ahead, each with its records.
pub uninterp spec fn text_rest(r: TextRange) -> Seq<(Seq<char>, Seq<Seq<u8>>)>;

/// A way through a table of planes: redb's `MultimapRange`.
#[verifier::external_body]
pub struct PlaneRange {
    inner: redb::MultimapRange<'static, [u8; 4], &'static [u8]>,
}

/// The colors that are still ahead, each with its records.
pub uninterp spec fn plane_rest(r: PlaneRange) -> Seq<(Rgba, Seq<Seq<u8>>)>;

/// A way through the records of one key: redb's `MultimapValue`.
#[verifier::external_body]
pub struct RecordIter {
    inner: redb::MultimapValue<'static, &'static [u8]>,
}

/// The records that are still ahead.
pub uninterp spec fn record_rest(r: RecordIter) -> Seq<Seq<u8>>;

/// Whether `a` comes before `b` in the order of byte strings: at the first byte in which they
/// differ, or as the shorter of the two.
pub open spec fn bytes_below(a: Seq<u8>, b: Seq<u8>) -> bool
    decreases a.len(),
{
    if b.len() == 0 {
        false
    } else if a.len() == 0 {
        true
    } else if a[0] == b[0] {
        bytes_below(a.skip(1), b.skip(1))
    } else {
        a[0] < b[0]
    }
}

/// Whether the records of one key are in ascending order.
pub open spec fn records_ascend(records: Seq<Seq<u8>>) -> bool {
    forall|i: int, j: int| 0 <= i < j < records.len() ==> bytes_below(records[i], records[j])
}

/// Whether texts and their records are in ascending order.
pub open spec fn texts_ascend(rows: Seq<(Seq<char>, Seq<Seq<u8>>)>) -> bool {
    &&& forall|i: int, j: int|
        0 <= i < j < rows.len() ==> bytes_below(encode_utf8(rows[i].0), encode_utf8(rows[j].0))
    &&& forall|i: int| 0 <= i < rows.len() ==> records_ascend((#[trigger] rows[i]).1)
}

/// The bytes that a color is kept under.
pub open spec fn color_bytes(c: Rgba) -> Seq<u8> {
    seq![c.r, c.g, c.b, c.a]
}

/// Whether colors and their records are in ascending order.
pub open spec fn planes_ascend(rows: Seq<(Rgba, Seq<Seq<u8>>)>) -> bool {
    &&& forall|i: int, j: int|
        0 <= i < j < rows.len() ==> bytes_below(color_bytes(rows[i].0), color_bytes(rows[j].0))
    &&& forall|i: int| 0 <= i < rows.len() ==> records_ascend((#[trigger] rows[i]).1)
}

/// Opens a table of texts to read it, with redb's `ReadTransaction::open_multimap_table`: if that
/// succeeds, the table has the name asked for. What the table holds is not said: it was there
/// before.
#[verifier::external_body]
fn open_saved_texts(rx: &redb::ReadTransaction, name: &str) -> (r: Result<
    SavedTexts,
    redb::TableError,
>)
    requires
        name@.len() > 0,
    ensures
        r matches Ok(t) ==> saved_texts_name(t) == name@,
{
    let inner = rx.open_multimap_table(redb::MultimapTableDefinition::new(name))?;
    Ok(SavedTexts { inner })
}

/// Opens a table of planes to read it, with redb's `ReadTransaction::open_multimap_table`: if
/// that succeeds, the table has the name asked for. What the table holds is not said: it was
/// there before.
#[verifier::external_body]
fn open_saved_planes(rx: &redb::ReadTransaction, name: &str) -> (r: Result<
    SavedPlanes,
    redb::TableError,
>)
    requires
        name@.len() > 0,
    ensures
        r matches Ok(t) ==> saved_planes_name(t) == name@,
{
    let inner = rx.open_multimap_table(redb::MultimapTableDefinition::new(name))?;
    Ok(SavedPlanes { inner })
}

/// Begins a way through a whole table of texts, with redb's `ReadOnlyMultimapTable::range`: if
/// that succeeds, all that the table holds is ahead, by ascending texts and, under each, by
/// ascending records.
#[verifier::external_body]
fn text_range(t: &SavedTexts) -> (r: Result<TextRange, redb::StorageError>)
    ensures
        r matches Ok(range) ==> text_rest(range) == text_rows(*t) && texts_ascend(text_rows(*t)),
{
    let inner = t.inner.range::<&str>(..)?;
    Ok(TextRange { inner })
}

/// Begins a way through a whole table of planes, with redb's `ReadOnlyMultimapTable::range`: if
/// that succeeds, all that the table holds is ahead, by ascending colors and, under each, by
/// ascending records.
#[verifier::external_body]
fn plane_range(t: &SavedPlanes) -> (r: Result<PlaneRange, redb::StorageError>)
    ensures
        r matches Ok(range) ==> plane_rest(range) == plane_rows(*t) && planes_ascend(
            plane_rows(*t),
        ),
{
    let inner = t.inner.range::<[u8; 4]>(..)?;
    Ok(PlaneRange { inner })
}

/// Goes on to the next text, with `next` of redb's `MultimapRange`: it gives the first that is
/// ahead, with its records, and nothing at the end, where it stays. A failure passes over one text, or ends the
/// way.
#[verifier::external_body]
fn next_text(range: &mut TextRange) -> (r: Option<Result<(String, RecordIter), redb::StorageError>>)
    ensures
        (match r {
            Some(Ok(found)) => {
                &&& text_rest(*old(range)).len() > 0
                &&& found.0@ == text_rest(*old(range))[0].0
                &&& record_rest(found.1) == text_rest(*old(range))[0].1
                &&& text_rest(*final(range)) == text_rest(*old(range)).skip(1)
            },
            Some(Err(_)) => {
                &&& text_rest(*old(range)).len() > 0
                &&& text_rest(*final(range)) == text_rest(*old(range)).skip(1) || text_rest(
                    *final(range),
                ).len() == 0
            },
            None => text_rest(*old(range)).len() == 0 && text_rest(*final(range)).len() == 0,
        }),
{
    match range.inner.next()? {
        Ok((key, inner)) => Some(Ok((key.value().to_string(), RecordIter { inner }))),
        Err(e) => Some(Err(e)),
    }
}

/// Goes on to the next color, with `next` of redb's `MultimapRange`: it gives the first that is
/// ahead, with its records, and nothing at the end, where it stays. A failure passes over one color, or ends the
/// way.
#[verifier::external_body]
fn next_plane(range: &mut PlaneRange) -> (r: Option<Result<(Rgba, RecordIter), redb::StorageError>>)
    ensures
        (match r {
            Some(Ok(found)) => {
                &&& plane_rest(*old(range)).len() > 0
                &&& found.0 == plane_rest(*old(range))[0].0
                &&& record_rest(found.1) == plane_rest(*old(range))[0].1
                &&& plane_rest(*final(range)) == plane_rest(*old(range)).skip(1)
            },
            Some(Err(_)) => {
                &&& plane_rest(*old(range)).len() > 0
                &&& plane_rest(*final(range)) == plane_rest(*old(range)).skip(1) || plane_rest(
                    *final(range),
                ).len() == 0
            },
            None => plane_rest(*old(range)).len() == 0 && plane_rest(*final(range)).len() == 0,
        }),
{
    match range.inner.next()? {
        Ok((key, inner)) => {
            let [r, g, b, a] = key.value();
            Some(Ok((Rgba { r, g, b, a }, RecordIter { inner })))
        },
        Err(e) => Some(Err(e)),
    }
}

/// Goes on to the next record, with `next` of redb's `MultimapValue`: it gives the first that is
/// ahead, and nothing at the end, where it stays. A failure ends the way.
#[verifier::external_body]
fn next_record(records: &mut RecordIter) -> (r: Option<Result<Vec<u8>, redb::StorageError>>)
    ensures
        (match r {
            Some(Ok(record)) => {
                &&& record_rest(*old(records)).len() > 0
                &&& record@ == record_rest(*old(records))[0]
                &&& record_rest(*final(records)) == record_rest(*old(records)).skip(1)
            },
            Some(Err(_)) => record_rest(*old(records)).len() > 0 && record_rest(
                *final(records),
            ).len() == 0,
            None => record_rest(*old(records)).len() == 0 && record_rest(*final(records)).len() == 0,
        }),
{
    match records.inner.next()? {
        Ok(guard) => Some(Ok(guard.value().to_vec())),
        Err(e) => Some(Err(e)),
    }
}

/// Opens the table of the texts that face the camera, or of those that do not, to read it.
pub fn open_texts(rx: &redb::ReadTransaction, billboard: bool) -> (r: Result<
    SavedTexts,
    StoreError,
>)
    ensures
        (match r {
            Ok(t) => saved_texts_name(t) == text_table_for(billboard),
            Err(e) => e is Open,
        }),
{
    match open_saved_texts(rx, text_table(billboard)) {
        Ok(t) => Ok(t),
        Err(e) => Err(StoreError::Open(e)),
    }
}

/// Opens the table of the planes that face the camera, or of those that do not, to read it.
pub fn open_planes(rx: &redb::ReadTransaction, billboard: bool) -> (r: Result<
    SavedPlanes,
    StoreError,
>)
    ensures
        (match r {
            Ok(t) => saved_planes_name(t) == plane_table_for(billboard),
            Err(e) => e is Open,
        }),
{
    match open_saved_planes(rx, plane_table(billboard)) {
        Ok(t) => Ok(t),
        Err(e) => Err(StoreError::Open(e)),
    }
}

/// The records of `key`, each with its key.
pub open spec fn keyed<K>(key: K, records: Seq<Seq<u8>>) -> Seq<(K, Seq<u8>)> {
    records.map_values(|r: Seq<u8>| (key, r))
}

/// All records of `rows` in order, each with its key.
pub open spec fn listed<K>(rows: Seq<(K, Seq<Seq<u8>>)>) -> Seq<(K, Seq<u8>)>
    decreases rows.len(),
{
    if rows.len() == 0 {
        Seq::empty()
    } else {
        listed(rows.drop_last()) + keyed(rows.last().0, rows.last().1)
    }
}

/// Whether `a` is `b` with some items left out.
pub open spec fn is_part<A>(a: Seq<A>, b: Seq<A>) -> bool
    decreases b.len(),
{
    if b.len() == 0 {
        a.len() == 0
    } else {
        ||| is_part(a, b.drop_last())
        ||| a.len() > 0 && a.last() == b.last() && is_part(a.drop_last(), b.drop_last())
    }
}

/// Nothing at all is a part of anything.
proof fn nothing_is_part<A>(b: Seq<A>)
    ensures
        is_part(Seq::empty(), b),
    decreases b.len(),
{
    if b.len() > 0 {
        nothing_is_part(b.drop_last());
    }
}

/// Parts put one after the other are a part of the whole.
proof fn parts_join<A>(a: Seq<A>, b: Seq<A>, c: Seq<A>, d: Seq<A>)
    requires
        is_part(a, b),
        is_part(c, d),
    ensures
        is_part(a + c, b + d),
    decreases d.len(),
{
    if d.len() == 0 {
        assert(a + c =~= a);
        assert(b + d =~= b);
    } else {
        assert((b + d).drop_last() =~= b + d.drop_last());
        if is_part(c, d.drop_last()) {
            parts_join(a, b, c, d.drop_last());
        } else {
            parts_join(a, b, c.drop_last(), d.drop_last());
            assert((a + c).drop_last() =~= a + c.drop_last());
        }
    }
}

/// All of it is a part, too.
proof fn whole_is_part<A>(a: Seq<A>)
    ensures
        is_part(a, a),
    decreases a.len(),
{
    if a.len() > 0 {
        whole_is_part(a.drop_last());
    }
}

/// What is in a part is in the whole.
pub proof fn part_is_within<A>(a: Seq<A>, b: Seq<A>, x: A)
    requires
        is_part(a, b),
        a.contains(x),
    ensures
        b.contains(x),
    decreases b.len(),
{
    if b.len() > 0 {
        if is_part(a, b.drop_last()) {
            part_is_within(a, b.drop_last(), x);
            let i = choose|i: int| 0 <= i < b.drop_last().len() && b.drop_last()[i] == x;
            assert(b[i] == x);
        } else if x != b.last() {
            let i = choose|i: int| 0 <= i < a.len() && a[i] == x;
            assert(a.drop_last()[i] == x);
            part_is_within(a.drop_last(), b.drop_last(), x);
            let j = choose|j: int| 0 <= j < b.drop_last().len() && b.drop_last()[j] == x;
            assert(b[j] == x);
        } else {
            assert(b[b.len() - 1] == x);
        }
    }
}

/// A part of what is listed first is a part of what is listed in all.
proof fn part_of_more<K>(a: Seq<(K, Seq<u8>)>, rows: Seq<(K, Seq<Seq<u8>>)>, i: int, j: int)
    requires
        0 <= i <= j <= rows.len(),
        is_part(a, listed(rows.take(i))),
    ensures
        is_part(a, listed(rows.take(j))),
    decreases j - i,
{
    if i < j {
        part_of_more(a, rows, i, j - 1);
        assert(rows.take(j).drop_last() =~= rows.take(j - 1));
        let more = keyed(rows[j - 1].0, rows[j - 1].1);
        nothing_is_part(more);
        parts_join(a, listed(rows.take(j - 1)), Seq::empty(), more);
        assert(a + Seq::<(K, Seq<u8>)>::empty() =~= a);
    }
}

/// The first records of a key are a part of them all.
proof fn first_records_are_part<K>(key: K, records: Seq<Seq<u8>>, n: int)
    requires
        0 <= n <= records.len(),
    ensures
        is_part(keyed(key, records.take(n)), keyed(key, records)),
{
    let first = keyed(key, records.take(n));
    let rest = keyed(key, records.skip(n));
    whole_is_part(first);
    nothing_is_part(rest);
    parts_join(first, first, Seq::empty(), rest);
    assert(first + Seq::<(K, Seq<u8>)>::empty() =~= first);
    assert(first + rest =~= keyed(key, records));
}

/// What one step through a table gave: a key with what the reads of its records gave, or a
/// failure.
pub type Step<K, R, E> = Result<(K, Seq<Result<R, E>>), E>;

/// The reads that succeeded, in order.
pub open spec fn oks<A, E>(reads: Seq<Result<A, E>>) -> Seq<A>
    decreases reads.len(),
{
    if reads.len() == 0 {
        Seq::empty()
    } else {
        match reads.last() {
            Ok(a) => oks(reads.drop_last()).push(a),
            Err(_) => oks(reads.drop_last()),
        }
    }
}

/// The last of the reads that failed.
pub open spec fn last_error<A, E>(reads: Seq<Result<A, E>>) -> Option<E>
    decreases reads.len(),
{
    if reads.len() == 0 {
        None
    } else {
        match reads.last() {
            Ok(_) => last_error(reads.drop_last()),
            Err(e) => Some(e),
        }
    }
}

/// All records that could be read, in order, each with its key.
pub open spec fn gathered<K, E>(steps: Seq<Step<K, Seq<u8>, E>>) -> Seq<(K, Seq<u8>)>
    decreases steps.len(),
{
    if steps.len() == 0 {
        Seq::empty()
    } else {
        match steps.last() {
            Ok(step) => gathered(steps.drop_last()) + keyed(step.0, oks(step.1)),
            Err(_) => gathered(steps.drop_last()),
        }
    }
}

/// The last failure, of a step or of a record's read.
pub open spec fn last_failure<K, E>(steps: Seq<Step<K, Seq<u8>, E>>) -> Option<E>
    decreases steps.len(),
{
    if steps.len() == 0 {
        None
    } else {
        match steps.last() {
            Ok(step) => match last_error(step.1) {
                Some(e) => Some(e),
                None => last_failure(steps.drop_last()),
            },
            Err(e) => Some(e),
        }
    }
}

/// What the reads of records gave.
pub open spec fn read_views<E>(reads: Seq<Result<Vec<u8>, E>>) -> Seq<Result<Seq<u8>, E>> {
    reads.map_values(
        |r: Result<Vec<u8>, E>|
            match r {
                Ok(v) => Ok(v@),
                Err(e) => Err(e),
            },
    )
}

/// What a step gave.
pub open spec fn step_view<K: View, E>(step: Result<(K, Vec<Result<Vec<u8>, E>>), E>) -> Step<
    K::V,
    Seq<u8>,
    E,
> {
    match step {
        Ok(s) => Ok((s.0@, read_views(s.1@))),
        Err(e) => Err(e),
    }
}

/// What the steps gave.
pub open spec fn step_views<K: View, E>(
    steps: Seq<Result<(K, Vec<Result<Vec<u8>, E>>), E>>,
) -> Seq<Step<K::V, Seq<u8>, E>> {
    steps.map_values(|s: Result<(K, Vec<Result<Vec<u8>, E>>), E>| step_view(s))
}

/// Records that were read, with their keys.
pub open spec fn row_views<K: View>(rows: Seq<(K, Vec<u8>)>) -> Seq<(K::V, Seq<u8>)> {
    rows.map_values(|r: (K, Vec<u8>)| (r.0@, r.1@))
}

/// Whether a copy of a key is the same key.
pub open spec fn copies_keep<K: View + Clone>() -> bool {
    forall|a: K, b: K| #[trigger] cloned(a, b) ==> a@ == b@
}

/// Adds the records of one key that could be read. Gives the last failure to read one.
fn add_records<K: View + Clone, E>(
    found: &mut Vec<(K, Vec<u8>)>,
    key: &K,
    records: Vec<Result<Vec<u8>, E>>,
) -> (failure: Option<E>)
    requires
        copies_keep::<K>(),
    ensures
        row_views(final(found)@) == row_views(old(found)@) + keyed(
            key@,
            oks(read_views(records@)),
        ),
        failure == last_error(read_views(records@)),
{
    let ghost all = read_views(records@);
    let ghost before = row_views(found@);
    let mut failure: Option<E> = None;
    assert(before + keyed(key@, oks(all.take(0))) =~= before);
    for record in it: records.into_iter()
        invariant
            copies_keep::<K>(),
            it.seq() == records@,
            all == read_views(records@),
            row_views(found@) == before + keyed(key@, oks(all.take(it.index() as int))),
            failure == last_error(all.take(it.index() as int)),
    {
        let ghost i = it.index() as int;
        let ghost earlier = found@;
        assert(all.take(i + 1).drop_last() =~= all.take(i));
        match record {
            Ok(bytes) => {
                assert(all[i] == Ok::<Seq<u8>, E>(bytes@));
                let copy = key.clone();
                assert(cloned(*key, copy));
                found.push((copy, bytes));
                proof {
                    let so_far = oks(all.take(i));
                    assert(keyed(key@, so_far.push(bytes@)) =~= keyed(key@, so_far).push(
                        (key@, bytes@),
                    ));
                    assert(row_views(found@) =~= row_views(earlier).push((key@, bytes@)));
                    assert(row_views(found@) =~= before + keyed(key@, so_far.push(bytes@)));
                }
            },
            Err(e) => {
                assert(all[i] == Err::<Seq<u8>, E>(e));
                failure = Some(e);
            },
        }
    }
    assert(all.take(all.len() as int) =~= all);
    failure
}

/// Gathers what the steps through a table gave: every record that could be read, in order and
/// with its key, and the last failure.
pub fn gather<K: View + Clone, E>(steps: Vec<Result<(K, Vec<Result<Vec<u8>, E>>), E>>) -> (r: (
    Vec<(K, Vec<u8>)>,
    Option<E>,
))
    requires
        copies_keep::<K>(),
    ensures
        row_views(r.0@) == gathered(step_views(steps@)),
        r.1 == last_failure(step_views(steps@)),
{
    let ghost all = step_views(steps@);
    let mut found: Vec<(K, Vec<u8>)> = Vec::new();
    let mut failure: Option<E> = None;
    assert(row_views(found@) =~= gathered(all.take(0)));
    for step in it: steps.into_iter()
        invariant
            copies_keep::<K>(),
            it.seq() == steps@,
            all == step_views(steps@),
            row_views(found@) == gathered(all.take(it.index() as int)),
            failure == last_failure(all.take(it.index() as int)),
    {
        let ghost i = it.index() as int;
        assert(all.take(i + 1).drop_last() =~= all.take(i));
        assert(all.take(i + 1).last() == step_view(step));
        match step {
            Ok((key, records)) => {
                if let Some(e) = add_records(&mut found, &key, records) {
                    failure = Some(e);
                }
            },
            Err(e) => {
                failure = Some(e);
            },
        }
    }
    assert(all.take(all.len() as int) =~= all);
    (found, failure)
}

/// Whether `reads` is what the reads of `records` may give: each in its turn, up to a failure.
pub open spec fn reads_records<E>(records: Seq<Seq<u8>>, reads: Seq<Result<Seq<u8>, E>>) -> bool {
    ||| reads.len() == records.len() && forall|i: int|
        0 <= i < reads.len() ==> #[trigger] reads[i] == Ok::<Seq<u8>, E>(records[i])
    ||| 0 < reads.len() <= records.len() && reads.last() is Err && forall|i: int|
        0 <= i < reads.len() - 1 ==> #[trigger] reads[i] == Ok::<Seq<u8>, E>(records[i])
}

/// Whether `steps` is what the way through the first `n` of `rows` may give: each key in its
/// turn, or a failure in its place.
pub open spec fn steps_to<K, E>(
    rows: Seq<(K, Seq<Seq<u8>>)>,
    steps: Seq<Step<K, Seq<u8>, E>>,
    n: int,
) -> bool
    decreases steps.len(),
{
    if steps.len() == 0 {
        n == 0
    } else {
        &&& 0 < n <= rows.len()
        &&& steps_to(rows, steps.drop_last(), n - 1)
        &&& steps.last() matches Ok(step) ==> step.0 == rows[n - 1].0 && reads_records(
            rows[n - 1].1,
            step.1,
        )
    }
}

/// Whether `steps` is what the way through all of `rows` may give: it leads to the end, or a
/// failure ends it before.
pub open spec fn steps_through<K, E>(
    rows: Seq<(K, Seq<Seq<u8>>)>,
    steps: Seq<Step<K, Seq<u8>, E>>,
) -> bool {
    ||| steps_to(rows, steps, rows.len() as int)
    ||| steps.len() > 0 && steps.last() is Err && exists|n: int|
        0 <= n < rows.len() && #[trigger] steps_to(rows, steps.drop_last(), n)
}

/// Whether `steps` leads to the `n`th of `rows`, with `rest` ahead; or the way has ended, with
/// nothing ahead.
spec fn on_the_way<K, E>(
    rows: Seq<(K, Seq<Seq<u8>>)>,
    steps: Seq<Step<K, Seq<u8>, E>>,
    n: int,
    rest: Seq<(K, Seq<Seq<u8>>)>,
) -> bool {
    ||| 0 <= n <= rows.len() && rest == rows.skip(n) && steps_to(rows, steps, n)
    ||| rest.len() == 0 && steps_through(rows, steps)
}

/// A key that was read is one step on.
proof fn step_on<K, E>(
    rows: Seq<(K, Seq<Seq<u8>>)>,
    steps: Seq<Step<K, Seq<u8>, E>>,
    n: int,
    rest: Seq<(K, Seq<Seq<u8>>)>,
    reads: Seq<Result<Seq<u8>, E>>,
)
    requires
        on_the_way(rows, steps, n, rest),
        rest.len() > 0,
        reads_records(rest[0].1, reads),
    ensures
        on_the_way(rows, steps.push(Ok((rest[0].0, reads))), n + 1, rest.skip(1)),
{
    assert(steps.push(Ok((rest[0].0, reads))).drop_last() =~= steps);
    assert(rows.skip(n).skip(1) =~= rows.skip(n + 1));
}

/// A failure is one step on, or the last step.
proof fn step_amiss<K, E>(
    rows: Seq<(K, Seq<Seq<u8>>)>,
    steps: Seq<Step<K, Seq<u8>, E>>,
    n: int,
    rest: Seq<(K, Seq<Seq<u8>>)>,
    error: E,
    left: Seq<(K, Seq<Seq<u8>>)>,
)
    requires
        on_the_way(rows, steps, n, rest),
        rest.len() > 0,
        left == rest.skip(1) || left.len() == 0,
    ensures
        on_the_way(rows, steps.push(Err(error)), n + 1, left),
{
    let more = steps.push(Err(error));
    assert(more.drop_last() =~= steps);
    assert(rows.skip(n).skip(1) =~= rows.skip(n + 1));
    assert(steps_to(rows, more.drop_last(), n));
}

/// The reads of records that succeeded are the first of them, and all where none failed.
proof fn reads_are_first<E>(records: Seq<Seq<u8>>, reads: Seq<Result<Seq<u8>, E>>) -> (n: int)
    requires
        reads_records(records, reads),
    ensures
        0 <= n <= records.len(),
        oks(reads) == records.take(n),
        last_error(reads) is None ==> n == records.len(),
{
    if reads.len() > 0 && reads.last() is Err {
        let m = reads.len() - 1;
        all_ok(records, reads.drop_last());
        m
    } else {
        all_ok(records, reads);
        assert(records.take(reads.len() as int) =~= records);
        reads.len() as int
    }
}

/// Reads that all succeeded give the records in turn.
proof fn all_ok<E>(records: Seq<Seq<u8>>, reads: Seq<Result<Seq<u8>, E>>)
    requires
        reads.len() <= records.len(),
        forall|i: int|
            0 <= i < reads.len() ==> #[trigger] reads[i] == Ok::<Seq<u8>, E>(records[i]),
    ensures
        oks(reads) == records.take(reads.len() as int),
        last_error(reads) is None,
    decreases reads.len(),
{
    if reads.len() > 0 {
        let earlier = reads.drop_last();
        assert forall|i: int| 0 <= i < earlier.len() implies #[trigger] earlier[i] == Ok::<
            Seq<u8>,
            E,
        >(records[i]) by {
            assert(reads[i] == Ok::<Seq<u8>, E>(records[i]));
        }
        all_ok(records, earlier);
        let n = earlier.len() as int;
        assert(reads[n] == Ok::<Seq<u8>, E>(records[n]));
        assert(records.take(n + 1) =~= records.take(n).push(records[n]));
    } else {
        assert(records.take(0) =~= Seq::empty());
    }
}

/// What is gathered on the way is a part of what lies there, and all of it where nothing failed.
proof fn gathered_on_the_way<K, E>(
    rows: Seq<(K, Seq<Seq<u8>>)>,
    steps: Seq<Step<K, Seq<u8>, E>>,
    n: int,
)
    requires
        steps_to(rows, steps, n),
    ensures
        0 <= n <= rows.len(),
        is_part(gathered(steps), listed(rows.take(n))),
        last_failure(steps) is None ==> gathered(steps) == listed(rows.take(n)),
    decreases steps.len(),
{
    if steps.len() == 0 {
        assert(rows.take(0) =~= Seq::empty());
        nothing_is_part(listed(rows.take(0)));
    } else {
        let earlier = steps.drop_last();
        let row = rows[n - 1];
        gathered_on_the_way(rows, earlier, n - 1);
        assert(rows.take(n).drop_last() =~= rows.take(n - 1));
        match steps.last() {
            Ok(step) => {
                let k = reads_are_first(row.1, step.1);
                first_records_are_part(row.0, row.1, k);
                parts_join(
                    gathered(earlier),
                    listed(rows.take(n - 1)),
                    keyed(step.0, oks(step.1)),
                    keyed(row.0, row.1),
                );
                if last_error(step.1) is None {
                    assert(row.1.take(k) =~= row.1);
                }
            },
            Err(_) => {
                part_of_more(gathered(earlier), rows, n - 1, n);
            },
        }
    }
}

/// Whether a table with the rows `rows` may be read as `found`: all that the steps through it
/// gave, with their last failure.
pub open spec fn read_as<K>(
    rows: Seq<(K, Seq<Seq<u8>>)>,
    found: Seq<(K, Seq<u8>)>,
    failure: Option<StoreError>,
) -> bool {
    exists|steps: Seq<Step<K, Seq<u8>, redb::StorageError>>|
        {
            &&& #[trigger] steps_through(rows, steps)
            &&& found == gathered(steps)
            &&& failure == of_storage(last_failure(steps))
        }
}

/// A failure of the storage, as a failure of the store.
pub open spec fn of_storage(failure: Option<redb::StorageError>) -> Option<StoreError> {
    match failure {
        Some(e) => Some(StoreError::Storage(e)),
        None => None,
    }
}

/// What is read is a part of what a table holds, and all of it where no read failed.
pub proof fn read_is_part<K>(
    rows: Seq<(K, Seq<Seq<u8>>)>,
    found: Seq<(K, Seq<u8>)>,
    failure: Option<StoreError>,
)
    requires
        read_as(rows, found, failure),
    ensures
        is_part(found, listed(rows)),
        failure is None ==> found == listed(rows),
{
    let steps = choose|steps: Seq<Step<K, Seq<u8>, redb::StorageError>>|
        {
            &&& #[trigger] steps_through(rows, steps)
            &&& found == gathered(steps)
            &&& failure == of_storage(last_failure(steps))
        };
    assert(rows.take(rows.len() as int) =~= rows);
    if steps_to(rows, steps, rows.len() as int) {
        gathered_on_the_way(rows, steps, rows.len() as int);
    } else {
        let n = choose|n: int|
            0 <= n < rows.len() && #[trigger] steps_to(rows, steps.drop_last(), n);
        gathered_on_the_way(rows, steps.drop_last(), n);
        part_of_more(gathered(steps), rows, n, rows.len() as int);
    }
}

/// Reads the records of one key.
fn read_records(records: &mut RecordIter) -> (reads: Vec<Result<Vec<u8>, redb::StorageError>>)
    ensures
        reads_records(record_rest(*old(records)), read_views(reads@)),
{
    let ghost all = record_rest(*records);
    let mut reads: Vec<Result<Vec<u8>, redb::StorageError>> = Vec::new();
    assert(all.skip(0) =~= all);
    loop
        invariant_except_break
            reads@.len() <= all.len(),
            record_rest(*records) == all.skip(reads@.len() as int),
            forall|i: int|
                0 <= i < reads@.len() ==> #[trigger] read_views(reads@)[i] == Ok::<
                    Seq<u8>,
                    redb::StorageError,
                >(all[i]),
        ensures
            reads_records(all, read_views(reads@)),
        decreases record_rest(*records).len(),
    {
        match next_record(records) {
            None => {
                break;
            },
            Some(Ok(record)) => {
                let ghost before = reads@;
                let ghost n = reads@.len() as int;
                assert(record@ == all[n]);
                reads.push(Ok(record));
                assert(read_views(reads@) =~= read_views(before).push(Ok(all[n])));
                assert(all.skip(n).skip(1) =~= all.skip(n + 1));
            },
            Some(Err(e)) => {
                let ghost before = reads@;
                reads.push(Err(e));
                assert(read_views(reads@) =~= read_views(before).push(Err(e)));
                break;
            },
        }
    }
    reads
}

/// Begins a way through a whole table of texts.
pub fn text_way(t: &SavedTexts) -> (r: Result<TextRange, StoreError>)
    ensures
        (match r {
            Ok(range) => text_rest(range) == text_rows(*t) && texts_ascend(text_rows(*t)),
            Err(e) => e is Storage,
        }),
{
    match text_range(t) {
        Ok(range) => Ok(range),
        Err(e) => Err(StoreError::Storage(e)),
    }
}

/// Goes a way to its end, and reads all that lies there, in order: each record with its text.
/// What cannot be read is passed over; the last failure comes with the rest.
pub fn walk_texts(range: &mut TextRange) -> (r: (Vec<(String, Vec<u8>)>, Option<StoreError>))
    ensures
        read_as(text_rest(*old(range)), row_views(r.0@), r.1),
        text_rest(*final(range)).len() == 0,
{
    let ghost rows = text_rest(*range);
    let ghost mut n: int = 0;
    let mut steps: Vec<
        Result<(String, Vec<Result<Vec<u8>, redb::StorageError>>), redb::StorageError>,
    > = Vec::new();
    assert(rows.skip(0) =~= rows);
    loop
        invariant_except_break
            on_the_way(rows, step_views(steps@), n, text_rest(*range)),
        ensures
            steps_through(rows, step_views(steps@)),
            text_rest(*range).len() == 0,
        decreases text_rest(*range).len(),
    {
        let ghost before = steps@;
        let ghost rest = text_rest(*range);
        match next_text(range) {
            None => {
                break;
            },
            Some(Ok((key, mut records))) => {
                let reads = read_records(&mut records);
                proof {
                    step_on(rows, step_views(before), n, rest, read_views(reads@));
                    n = n + 1;
                }
                let ghost views = read_views(reads@);
                steps.push(Ok((key, reads)));
                assert(step_views(steps@) =~= step_views(before).push(Ok((key@, views))));
            },
            Some(Err(e)) => {
                proof {
                    step_amiss(rows, step_views(before), n, rest, e, text_rest(*range));
                    n = n + 1;
                }
                steps.push(Err(e));
                assert(step_views(steps@) =~= step_views(before).push(Err(e)));
            },
        }
    }
    let ghost views = step_views(steps@);
    assert(copies_keep::<String>());
    let (found, failure) = gather(steps);
    assert(steps_through(rows, views));
    (found, storage_failure(failure))
}

/// Reads all that a table of texts holds, in order: each record with its text. What could not be
/// read is left out; the last failure comes with the rest.
pub fn read_texts(t: &SavedTexts) -> (r: Result<
    (Vec<(String, Vec<u8>)>, Option<StoreError>),
    StoreError,
>)
    ensures
        (match r {
            Ok(read) => texts_ascend(text_rows(*t)) && read_as(
                text_rows(*t),
                row_views(read.0@),
                read.1,
            ),
            Err(e) => e is Storage,
        }),
{
    match text_way(t) {
        Ok(range) => {
            let mut range = range;
            Ok(walk_texts(&mut range))
        },
        Err(e) => Err(e),
    }
}

/// A failure of the storage, as a failure of the store.
pub fn storage_failure(failure: Option<redb::StorageError>) -> (r: Option<StoreError>)
    ensures
        r == of_storage(failure),
{
    match failure {
        Some(e) => Some(StoreError::Storage(e)),
        None => None,
    }
}

/// Begins a way through a whole table of planes.
pub fn plane_way(t: &SavedPlanes) -> (r: Result<PlaneRange, StoreError>)
    ensures
        (match r {
            Ok(range) => plane_rest(range) == plane_rows(*t) && planes_ascend(plane_rows(*t)),
            Err(e) => e is Storage,
        }),
{
    match plane_range(t) {
        Ok(range) => Ok(range),
        Err(e) => Err(StoreError::Storage(e)),
    }
}

/// Goes a way to its end, and reads all that lies there, in order: each record with its color.
/// What cannot be read is passed over; the last failure comes with the rest.
pub fn walk_planes(range: &mut PlaneRange) -> (r: (Vec<(Rgba, Vec<u8>)>, Option<StoreError>))
    ensures
        read_as(plane_rest(*old(range)), row_views(r.0@), r.1),
        plane_rest(*final(range)).len() == 0,
{
    let ghost rows = plane_rest(*range);
    let ghost mut n: int = 0;
    let mut steps: Vec<
        Result<(Rgba, Vec<Result<Vec<u8>, redb::StorageError>>), redb::StorageError>,
    > = Vec::new();
    assert(rows.skip(0) =~= rows);
    loop
        invariant_except_break
            on_the_way(rows, step_views(steps@), n, plane_rest(*range)),
        ensures
            steps_through(rows, step_views(steps@)),
            plane_rest(*range).len() == 0,
        decreases plane_rest(*range).len(),
    {
        let ghost before = steps@;
        let ghost rest = plane_rest(*range);
        match next_plane(range) {
            None => {
                break;
            },
            Some(Ok((key, mut records))) => {
                let reads = read_records(&mut records);
                proof {
                    step_on(rows, step_views(before), n, rest, read_views(reads@));
                    n = n + 1;
                }
                let ghost views = read_views(reads@);
                steps.push(Ok((key, reads)));
                assert(step_views(steps@) =~= step_views(before).push(Ok((key@, views))));
            },
            Some(Err(e)) => {
                proof {
                    step_amiss(rows, step_views(before), n, rest, e, plane_rest(*range));
                    n = n + 1;
                }
                steps.push(Err(e));
                assert(step_views(steps@) =~= step_views(before).push(Err(e)));
            },
        }
    }
    let ghost views = step_views(steps@);
    assert(copies_keep::<Rgba>());
    let (found, failure) = gather(steps);
    assert(steps_through(rows, views));
    (found, storage_failure(failure))
}

/// Reads all that a table of planes holds, in order: each record with its color. What could not
/// be read is left out; the last failure comes with the rest.
pub fn read_planes(t: &SavedPlanes) -> (r: Result<
    (Vec<(Rgba, Vec<u8>)>, Option<StoreError>),
    StoreError,
>)
    ensures
        (match r {
            Ok(read) => planes_ascend(plane_rows(*t)) && read_as(
                plane_rows(*t),
                row_views(read.0@),
                read.1,
            ),
            Err(e) => e is Storage,
        }),
{
    match plane_way(t) {
        Ok(range) => {
            let mut range = range;
            Ok(walk_planes(&mut range))
        },
        Err(e) => Err(e),
    }
}

/// Nothing comes before itself.
proof fn not_below_itself(a: Seq<u8>)
    ensures
        !bytes_below(a, a),
    decreases a.len(),
{
    if a.len() > 0 {
        not_below_itself(a.skip(1));
    }
}

/// What is listed comes from a row of its key.
proof fn listed_from_row<K>(rows: Seq<(K, Seq<Seq<u8>>)>, p: int) -> (i: int)
    requires
        0 <= p < listed(rows).len(),
    ensures
        0 <= i < rows.len(),
        listed(rows)[p].0 == rows[i].0,
    decreases rows.len(),
{
    let earlier = listed(rows.drop_last());
    if p < earlier.len() {
        listed_from_row(rows.drop_last(), p)
    } else {
        rows.len() - 1
    }
}

/// Different keys with different records are listed without a repetition.
proof fn listed_once<K>(rows: Seq<(K, Seq<Seq<u8>>)>)
    requires
        forall|i: int, j: int| 0 <= i < j < rows.len() ==> rows[i].0 != rows[j].0,
        forall|i: int| 0 <= i < rows.len() ==> (#[trigger] rows[i]).1.no_duplicates(),
    ensures
        listed(rows).no_duplicates(),
    decreases rows.len(),
{
    if rows.len() > 0 {
        let front = rows.drop_last();
        assert forall|i: int| 0 <= i < front.len() implies (
        #[trigger] front[i]).1.no_duplicates() by {
            assert(rows[i].1.no_duplicates());
        }
        listed_once(front);
        let earlier = listed(front);
        let all = listed(rows);
        let row = rows[rows.len() - 1];
        assert(row.1.no_duplicates());
        assert forall|p: int, q: int| 0 <= p < q < all.len() implies all[p] != all[q] by {
            if q < earlier.len() {
                assert(earlier[p] != earlier[q]);
            } else if p < earlier.len() {
                let i = listed_from_row(front, p);
                assert(front[i] == rows[i]);
                assert(all[q].0 == row.0);
            } else {
                assert(row.1[p - earlier.len()] != row.1[q - earlier.len()]);
            }
        }
    }
}

/// Records that ascend are all different.
proof fn ascending_records_differ(records: Seq<Seq<u8>>)
    requires
        records_ascend(records),
    ensures
        records.no_duplicates(),
{
    assert forall|i: int, j: int| 0 <= i < j < records.len() implies records[i] != records[j] by {
        not_below_itself(records[i]);
    }
}

/// A table of texts lists no record of a text twice.
pub proof fn texts_are_listed_once(rows: Seq<(Seq<char>, Seq<Seq<u8>>)>)
    requires
        texts_ascend(rows),
    ensures
        listed(rows).no_duplicates(),
{
    assert forall|i: int, j: int| 0 <= i < j < rows.len() implies rows[i].0 != rows[j].0 by {
        not_below_itself(encode_utf8(rows[i].0));
        assert(bytes_below(encode_utf8(rows[i].0), encode_utf8(rows[j].0)));
    }
    assert forall|i: int| 0 <= i < rows.len() implies (#[trigger] rows[i]).1.no_duplicates() by {
        ascending_records_differ(rows[i].1);
    }
    listed_once(rows);
}

/// A table of planes lists no record of a color twice.
pub proof fn planes_are_listed_once(rows: Seq<(Rgba, Seq<Seq<u8>>)>)
    requires
        planes_ascend(rows),
    ensures
        listed(rows).no_duplicates(),
{
    assert forall|i: int, j: int| 0 <= i < j < rows.len() implies rows[i].0 != rows[j].0 by {
        not_below_itself(color_bytes(rows[i].0));
        assert(bytes_below(color_bytes(rows[i].0), color_bytes(rows[j].0)));
    }
    assert forall|i: int| 0 <= i < rows.len() implies (#[trigger] rows[i]).1.no_duplicates() by {
        ascending_records_differ(rows[i].1);
    }
    listed_once(rows);
}

/// The texts of `rows`, each once.
pub open spec fn texts_of(rows: Seq<(Seq<char>, Seq<Seq<u8>>)>) -> Seq<Seq<char>> {
    rows.map_values(|row: (Seq<char>, Seq<Seq<u8>>)| row.0)
}

/// Writes down the texts of a table, each once and on a line of its own.
pub fn list_texts(t: &SavedTexts) -> (r: Result<String, StoreError>)
    ensures
        (match r {
            Ok(list) => list@ == joined(texts_of(text_rows(*t))),
            Err(e) => e is Storage,
        }),
{
    let mut range = match text_range(t) {
        Ok(range) => range,
        Err(e) => {
            return Err(StoreError::Storage(e));
        },
    };
    let ghost rows = text_rows(*t);
    let mut texts: Vec<String> = Vec::new();
    assert(rows.skip(0) =~= rows);
    assert(text_views(texts@) =~= texts_of(rows.take(0)));
    loop
        invariant_except_break
            texts@.len() <= rows.len(),
            text_rest(range) == rows.skip(texts@.len() as int),
            text_views(texts@) == texts_of(rows.take(texts@.len() as int)),
            rows == text_rows(*t),
        ensures
            text_views(texts@) == texts_of(rows),
        decreases text_rest(range).len(),
    {
        match next_text(&mut range) {
            None => {
                assert(rows.take(texts@.len() as int) =~= rows);
                break;
            },
            Some(Ok((text, _))) => {
                let ghost n = texts@.len() as int;
                let ghost before = texts@;
                texts.push(text);
                assert(text_views(texts@) =~= text_views(before).push(text@));
                assert(texts_of(rows.take(n + 1)) =~= texts_of(rows.take(n)).push(rows[n].0));
                assert(rows.skip(n).skip(1) =~= rows.skip(n + 1));
            },
            Some(Err(e)) => {
                return Err(StoreError::Storage(e));
            },
        }
    }
    Ok(join_lines(&texts))
}

/// Rows in two parts are listed part by part; a single row is listed record by record, each under
/// its key.
pub proof fn parts_are_listed_in_turn<K>(
    a: Seq<(K, Seq<Seq<u8>>)>,
    b: Seq<(K, Seq<Seq<u8>>)>,
    row: (K, Seq<Seq<u8>>),
)
    ensures
        listed(a + b) == listed(a) + listed(b),
        listed(seq![row]).len() == row.1.len(),
        forall|i: int|
            0 <= i < row.1.len() ==> #[trigger] listed(seq![row])[i] == (row.0, row.1[i]),
    decreases b.len(),
{
    let none = Seq::<(K, Seq<Seq<u8>>)>::empty();
    assert(seq![row].drop_last() =~= none);
    assert(listed(none).len() == 0);
    assert(listed(seq![row]) =~= keyed(row.0, row.1));
    if b.len() == 0 {
        assert(a + b =~= a);
        assert(listed(a) + listed(b) =~= listed(a));
    } else {
        assert((a + b).drop_last() =~= a + b.drop_last());
        parts_are_listed_in_turn(a, b.drop_last(), row);
        assert(listed(a + b) =~= listed(a) + listed(b));
    }
}

/// Reads in two parts give what succeeded in both, in turn, and the last failure of the later part,
/// if it has one, else of the earlier. A single read gives itself or its failure.
pub proof fn reads_in_turn<A, E>(a: Seq<Result<A, E>>, b: Seq<Result<A, E>>, good: A, bad: E)
    ensures
        oks(a + b) == oks(a) + oks(b),
        oks(seq![Ok::<A, E>(good)]) == seq![good],
        oks(seq![Err::<A, E>(bad)]).len() == 0,
        last_error(a + b) == (if last_error(b) is Some {
            last_error(b)
        } else {
            last_error(a)
        }),
        last_error(seq![Ok::<A, E>(good)]) is None,
        last_error(seq![Err::<A, E>(bad)]) == Some(bad),
    decreases b.len(),
{
    let none = Seq::<Result<A, E>>::empty();
    assert(seq![Ok::<A, E>(good)].drop_last() =~= none);
    assert(seq![Err::<A, E>(bad)].drop_last() =~= none);
    assert(oks(none).len() == 0 && last_error(none) is None);
    assert(oks(seq![Ok::<A, E>(good)]) =~= seq![good]);
    if b.len() == 0 {
        assert(a + b =~= a);
        assert(oks(a) + oks(b) =~= oks(a));
    } else {
        assert((a + b).drop_last() =~= a + b.drop_last());
        reads_in_turn(a, b.drop_last(), good, bad);
        assert(oks(a + b) =~= oks(a) + oks(b));
    }
}

/// Steps in two parts are gathered part by part, and the last failure is that of the later part, if
/// it has one. A single step gives the records of its key that were read, and their last failure; a
/// failed one gives nothing but its failure.
pub proof fn steps_are_gathered_in_turn<K, E>(
    a: Seq<Step<K, Seq<u8>, E>>,
    b: Seq<Step<K, Seq<u8>, E>>,
    key: K,
    reads: Seq<Result<Seq<u8>, E>>,
    bad: E,
)
    ensures
        gathered(a + b) == gathered(a) + gathered(b),
        gathered(seq![Ok::<(K, Seq<Result<Seq<u8>, E>>), E>((key, reads))]) == oks(
            reads,
        ).map_values(|r: Seq<u8>| (key, r)),
        gathered(seq![Err::<(K, Seq<Result<Seq<u8>, E>>), E>(bad)]).len() == 0,
        last_failure(a + b) == (if last_failure(b) is Some {
            last_failure(b)
        } else {
            last_failure(a)
        }),
        last_failure(seq![Ok::<(K, Seq<Result<Seq<u8>, E>>), E>((key, reads))]) == last_error(
            reads,
        ),
        last_failure(seq![Err::<(K, Seq<Result<Seq<u8>, E>>), E>(bad)]) == Some(bad),
    decreases b.len(),
{
    let one = seq![Ok::<(K, Seq<Result<Seq<u8>, E>>), E>((key, reads))];
    let failed = seq![Err::<(K, Seq<Result<Seq<u8>, E>>), E>(bad)];
    let none = Seq::<Step<K, Seq<u8>, E>>::empty();
    assert(one.drop_last() =~= none);
    assert(failed.drop_last() =~= none);
    assert(gathered(none).len() == 0 && last_failure(none) is None);
    assert(gathered(one) =~= oks(reads).map_values(|r: Seq<u8>| (key, r)));
    if b.len() == 0 {
        assert(a + b =~= a);
        assert(gathered(a) + gathered(b) =~= gathered(a));
    } else {
        assert((a + b).drop_last() =~= a + b.drop_last());
        steps_are_gathered_in_turn(a, b.drop_last(), key, reads, bad);
        assert(gathered(a + b) =~= gathered(a) + gathered(b));
    }
}

/// The texts of a table are listed in its order, each once however many records it has.
pub proof fn texts_are_named_once(rows: Seq<(Seq<char>, Seq<Seq<u8>>)>)
    ensures
        texts_of(rows).len() == rows.len(),
        forall|i: int| 0 <= i < rows.len() ==> #[trigger] texts_of(rows)[i] == rows[i].0,
        texts_ascend(rows) ==> texts_of(rows).no_duplicates(),
{
    if texts_ascend(rows) {
        assert forall|i: int, j: int| 0 <= i < j < rows.len() implies texts_of(rows)[i]
            != texts_of(rows)[j] by {
            not_below_itself(encode_utf8(rows[i].0));
            assert(bytes_below(encode_utf8(rows[i].0), encode_utf8(rows[j].0)));
        }
    }
}

} // verus!
