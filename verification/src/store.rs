//! The tables that the room is remembered in.
//!
//! The tables are redb's. What the library believes of them stands in this file, in the
//! contracts of the functions marked `external_body`; of what a call leaves behind that fails,
//! it believes nothing.

use vstd::prelude::*;
use crate::color::Rgba;
use crate::rows::{last_error, storage_failure};

verus! {

/// A transaction that writes.
#[verifier::external_type_specification]
#[verifier::external_body]
pub struct ExWriteTransaction(redb::WriteTransaction);

/// A transaction that reads.
#[verifier::external_type_specification]
#[verifier::external_body]
pub struct ExReadTransaction(redb::ReadTransaction);

/// A failure of the storage below a table.
#[verifier::external_type_specification]
#[verifier::external_body]
pub struct ExStorageError(redb::StorageError);

/// A failure to open a table.
#[verifier::external_type_specification]
#[verifier::external_body]
pub struct ExTableError(redb::TableError);

/// Why a table could not be used.
pub enum StoreError {
    /// It could not be opened.
    Open(redb::TableError),
    /// It could not be read or written.
    Storage(redb::StorageError),
}

/// How a transaction is to end.
#[derive(Clone, Copy, Debug, PartialEq, Eq, Structural)]
pub enum Ending {
    /// What was written stays.
    Commit,
    /// All is as it was before.
    Abort,
}

/// What a table holds once the transaction that turned `before` into `after` has ended.
pub open spec fn settled<A>(before: A, after: A, ending: Ending) -> A {
    if ending == Ending::Commit {
        after
    } else {
        before
    }
}

/// A table of texts with the records of where they stand: redb's `MultimapTable` from `&str` to
/// `&[u8]`, within a transaction.
#[verifier::external_body]
pub struct TextTable<'txn> {
    inner: redb::MultimapTable<'txn, &'static str, &'static [u8]>,
}

/// The pairs that a table of texts holds.
pub uninterp spec fn text_pairs(t: TextTable<'_>) -> Set<(Seq<char>, Seq<u8>)>;

/// The name of a table of texts.
pub uninterp spec fn text_table_name(t: TextTable<'_>) -> Seq<char>;

/// A table of colors with the records of the planes that have them: redb's `MultimapTable` from
/// `[u8; 4]` to `&[u8]`, within a transaction.
#[verifier::external_body]
pub struct PlaneTable<'txn> {
    inner: redb::MultimapTable<'txn, [u8; 4], &'static [u8]>,
}

/// The pairs that a table of planes holds.
pub uninterp spec fn plane_pairs(t: PlaneTable<'_>) -> Set<(Rgba, Seq<u8>)>;

/// The name of a table of planes.
pub uninterp spec fn plane_table_name(t: PlaneTable<'_>) -> Seq<char>;

/// The table of looking places by the second they were saved at: redb's `Table` from `u64` to
/// `&[u8]`, within a transaction.
#[verifier::external_body]
pub struct PlaceTable<'txn> {
    inner: redb::Table<'txn, u64, &'static [u8]>,
}

/// What the table of looking places holds.
pub uninterp spec fn places(t: PlaceTable<'_>) -> Map<u64, Seq<u8>>;

/// The name of a table of looking places.
pub uninterp spec fn place_table_name(t: PlaceTable<'_>) -> Seq<char>;

/// The table of looking places, to be read only: redb's `ReadOnlyTable` from `u64` to `&[u8]`.
#[verifier::external_body]
pub struct SavedPlaces {
    inner: redb::ReadOnlyTable<u64, &'static [u8]>,
}

/// What the table of looking places holds.
pub uninterp spec fn saved_places(t: SavedPlaces) -> Map<u64, Seq<u8>>;

/// The name of a table of looking places that is read.
pub uninterp spec fn saved_table_name(t: SavedPlaces) -> Seq<char>;

/// Opens a table of texts with redb's `WriteTransaction::open_multimap_table`: if that succeeds,
/// the table has the name asked for. What the table holds is not said: it was there before.
#[verifier::external_body]
fn open_text_table<'t>(wx: &'t redb::WriteTransaction, name: &str) -> (r: Result<
    TextTable<'t>,
    redb::TableError,
>)
    requires
        name@.len() > 0,
    ensures
        r matches Ok(t) ==> text_table_name(t) == name@,
{
    let inner = wx.open_multimap_table(redb::MultimapTableDefinition::new(name))?;
    Ok(TextTable { inner })
}

/// Opens a table of planes with redb's `WriteTransaction::open_multimap_table`: if that succeeds,
/// the table has the name asked for. What the table holds is not said: it was there before.
#[verifier::external_body]
fn open_plane_table<'t>(wx: &'t redb::WriteTransaction, name: &str) -> (r: Result<
    PlaneTable<'t>,
    redb::TableError,
>)
    requires
        name@.len() > 0,
    ensures
        r matches Ok(t) ==> plane_table_name(t) == name@,
{
    let inner = wx.open_multimap_table(redb::MultimapTableDefinition::new(name))?;
    Ok(PlaneTable { inner })
}

/// Opens a table of looking places with redb's `WriteTransaction::open_table`: if that succeeds,
/// the table has the name asked for. What the table holds is not said: it was there before.
#[verifier::external_body]
fn open_place_table<'t>(wx: &'t redb::WriteTransaction, name: &str) -> (r: Result<
    PlaceTable<'t>,
    redb::TableError,
>)
    requires
        name@.len() > 0,
    ensures
        r matches Ok(t) ==> place_table_name(t) == name@,
{
    let inner = wx.open_table(redb::TableDefinition::new(name))?;
    Ok(PlaceTable { inner })
}

/// Opens a table of looking places to read it, with redb's `ReadTransaction::open_table`: if that
/// succeeds, the table has the name asked for. What the table holds is not said: it was there
/// before.
#[verifier::external_body]
fn open_saved_places(rx: &redb::ReadTransaction, name: &str) -> (r: Result<
    SavedPlaces,
    redb::TableError,
>)
    requires
        name@.len() > 0,
    ensures
        r matches Ok(t) ==> saved_table_name(t) == name@,
{
    let inner = rx.open_table(redb::TableDefinition::new(name))?;
    Ok(SavedPlaces { inner })
}

/// Adds a pair with redb's `MultimapTable::insert`, which says whether the pair was there: if it
/// succeeds, the table holds the pair and what it held before, and nothing else.
#[verifier::external_body]
fn insert_text(t: &mut TextTable<'_>, text: &str, record: &[u8]) -> (r: Result<
    bool,
    redb::StorageError,
>)
    ensures
        r matches Ok(present) ==> {
            &&& present == text_pairs(*old(t)).contains((text@, record@))
            &&& text_pairs(*final(t)) == text_pairs(*old(t)).insert((text@, record@))
        },
        text_table_name(*final(t)) == text_table_name(*old(t)),
{
    t.inner.insert(text, record)
}

/// Takes a pair out with redb's `MultimapTable::remove`, which says whether the pair was there:
/// if it succeeds, the table holds what it held before, but for the pair.
#[verifier::external_body]
fn remove_text(t: &mut TextTable<'_>, text: &str, record: &[u8]) -> (r: Result<
    bool,
    redb::StorageError,
>)
    ensures
        r matches Ok(present) ==> {
            &&& present == text_pairs(*old(t)).contains((text@, record@))
            &&& text_pairs(*final(t)) == text_pairs(*old(t)).remove((text@, record@))
        },
        text_table_name(*final(t)) == text_table_name(*old(t)),
{
    t.inner.remove(text, record)
}

/// Adds a pair with redb's `MultimapTable::insert`, which says whether the pair was there: if it
/// succeeds, the table holds the pair and what it held before, and nothing else. The key is the
/// four channels of the color, red first.
#[verifier::external_body]
fn insert_plane(t: &mut PlaneTable<'_>, color: Rgba, record: &[u8]) -> (r: Result<
    bool,
    redb::StorageError,
>)
    ensures
        r matches Ok(present) ==> {
            &&& present == plane_pairs(*old(t)).contains((color, record@))
            &&& plane_pairs(*final(t)) == plane_pairs(*old(t)).insert((color, record@))
        },
        plane_table_name(*final(t)) == plane_table_name(*old(t)),
{
    t.inner.insert([color.r, color.g, color.b, color.a], record)
}

/// Takes a pair out with redb's `MultimapTable::remove`, which says whether the pair was there:
/// if it succeeds, the table holds what it held before, but for the pair. The key is the four
/// channels of the color, red first.
#[verifier::external_body]
fn remove_plane(t: &mut PlaneTable<'_>, color: Rgba, record: &[u8]) -> (r: Result<
    bool,
    redb::StorageError,
>)
    ensures
        r matches Ok(present) ==> {
            &&& present == plane_pairs(*old(t)).contains((color, record@))
            &&& plane_pairs(*final(t)) == plane_pairs(*old(t)).remove((color, record@))
        },
        plane_table_name(*final(t)) == plane_table_name(*old(t)),
{
    t.inner.remove([color.r, color.g, color.b, color.a], record)
}

/// The bytes of an optional record.
pub open spec fn record_view(record: Option<Vec<u8>>) -> Option<Seq<u8>> {
    match record {
        Some(v) => Some(v@),
        None => None,
    }
}

/// What `m` holds under `key`.
pub open spec fn lookup(m: Map<u64, Seq<u8>>, key: u64) -> Option<Seq<u8>> {
    if m.dom().contains(key) {
        Some(m[key])
    } else {
        None
    }
}

/// Whether `key` is the greatest in `m`.
pub open spec fn is_last(m: Map<u64, Seq<u8>>, key: u64) -> bool {
    m.dom().contains(key) && forall|k: u64| #[trigger] m.dom().contains(k) ==> k <= key
}

/// Whether `keys` lists the keys of `m` from the least to the greatest.
pub open spec fn lists_keys(m: Map<u64, Seq<u8>>, keys: Seq<u64>) -> bool {
    &&& forall|i: int, j: int| 0 <= i < j < keys.len() ==> keys[i] < keys[j]
    &&& forall|k: u64| #[trigger] m.dom().contains(k) <==> keys.contains(k)
}

/// Whether `key` is the one in `m` that has just `n` keys below it.
pub open spec fn is_nth(m: Map<u64, Seq<u8>>, n: int, key: u64) -> bool {
    exists|keys: Seq<u64>| #[trigger] lists_keys(m, keys) && 0 <= n < keys.len() && keys[n] == key
}

/// Puts a record into the table with redb's `Table::insert`, which gives back the record that was
/// there under the same key: if it succeeds, the table holds the new one in its place and is
/// otherwise the same.
#[verifier::external_body]
fn insert_place(t: &mut PlaceTable<'_>, ts: u64, record: &[u8]) -> (r: Result<
    Option<Vec<u8>>,
    redb::StorageError,
>)
    ensures
        r matches Ok(previous) ==> {
            &&& record_view(previous) == lookup(places(*old(t)), ts)
            &&& places(*final(t)) == places(*old(t)).insert(ts, record@)
        },
        place_table_name(*final(t)) == place_table_name(*old(t)),
{
    match t.inner.insert(ts, record)? {
        Some(guard) => Ok(Some(guard.value().to_vec())),
        None => Ok(None),
    }
}

/// Looks a record up with redb's `ReadOnlyTable::get`: if that succeeds, it gives what the table
/// holds under the key.
#[verifier::external_body]
fn get_place(t: &SavedPlaces, ts: u64) -> (r: Result<Option<Vec<u8>>, redb::StorageError>)
    ensures
        r matches Ok(found) ==> record_view(found) == lookup(saved_places(*t), ts),
{
    match t.inner.get(ts)? {
        Some(guard) => Ok(Some(guard.value().to_vec())),
        None => Ok(None),
    }
}

/// Gives the last record with redb's `ReadableTable::last`: if that succeeds, it is the one under
/// the greatest key, and there is none only in an empty table.
#[verifier::external_body]
fn last_place(t: &SavedPlaces) -> (r: Result<Option<(u64, Vec<u8>)>, redb::StorageError>)
    ensures
        (match r {
            Ok(Some(found)) => is_last(saved_places(*t), found.0) && saved_places(*t)[found.0]
                == found.1@,
            Ok(None) => saved_places(*t) == Map::<u64, Seq<u8>>::empty(),
            Err(_) => true,
        }),
{
    match redb::ReadableTable::last(&t.inner)? {
        Some((key, guard)) => Ok(Some((key.value(), guard.value().to_vec()))),
        None => Ok(None),
    }
}

/// A way through the table of looking places: redb's `Range`.
#[verifier::external_body]
pub struct PlaceIter<'a> {
    inner: redb::Range<'a, u64, &'static [u8]>,
}

/// The looking places that are still ahead.
pub uninterp spec fn place_rest(it: PlaceIter<'_>) -> Seq<(u64, Seq<u8>)>;

/// The keys of `rows`.
pub open spec fn keys_of(rows: Seq<(u64, Seq<u8>)>) -> Seq<u64> {
    rows.map_values(|row: (u64, Seq<u8>)| row.0)
}

/// Whether `rows` lists what `m` holds from the least key to the greatest.
pub open spec fn lists_rows(m: Map<u64, Seq<u8>>, rows: Seq<(u64, Seq<u8>)>) -> bool {
    &&& lists_keys(m, keys_of(rows))
    &&& forall|i: int| 0 <= i < rows.len() ==> (#[trigger] rows[i]).1 == m[rows[i].0]
}

/// Begins a way through the table with redb's `ReadableTable::iter`: if that succeeds, all that
/// the table holds is ahead, by ascending keys.
#[verifier::external_body]
fn place_iter<'a>(t: &'a SavedPlaces) -> (r: Result<PlaceIter<'a>, redb::StorageError>)
    ensures
        r matches Ok(it) ==> lists_rows(saved_places(*t), place_rest(it)),
{
    let inner = redb::ReadableTable::iter(&t.inner)?;
    Ok(PlaceIter { inner })
}

/// Goes on to the next looking place with `next` of redb's `Range`: it gives the first that is
/// ahead, and nothing at the end, where it stays. A failure ends the way.
#[verifier::external_body]
fn next_place(it: &mut PlaceIter<'_>) -> (r: Option<Result<(u64, Vec<u8>), redb::StorageError>>)
    ensures
        (match r {
            Some(Ok(found)) => {
                &&& place_rest(*old(it)).len() > 0
                &&& found.0 == place_rest(*old(it))[0].0
                &&& found.1@ == place_rest(*old(it))[0].1
                &&& place_rest(*final(it)) == place_rest(*old(it)).skip(1)
            },
            Some(Err(_)) => place_rest(*old(it)).len() > 0 && place_rest(*final(it)).len() == 0,
            None => place_rest(*old(it)).len() == 0 && place_rest(*final(it)).len() == 0,
        }),
{
    match it.inner.next()? {
        Ok((key, guard)) => Some(Ok((key.value(), guard.value().to_vec()))),
        Err(e) => Some(Err(e)),
    }
}

/// The name of the table of the texts that face the camera, or of those that do not.
pub open spec fn text_table_for(billboard: bool) -> Seq<char> {
    if billboard {
        "TEXTS"@
    } else {
        "NON_BILLBOARD_TEXTS"@
    }
}

/// The name of the table of the planes that face the camera, or of those that do not.
pub open spec fn plane_table_for(billboard: bool) -> Seq<char> {
    if billboard {
        "COLORED_PLANE_BILLBOARDS"@
    } else {
        "COLORED_PLANES"@
    }
}

/// The name of the table of looking places.
pub open spec fn place_table_for() -> Seq<char> {
    "LOOKING_PLACES"@
}

/// The name of a table of texts.
pub fn text_table(billboard: bool) -> (name: &'static str)
    ensures
        name@ == text_table_for(billboard),
        name@.len() > 0,
{
    proof {
        reveal_strlit("TEXTS");
        reveal_strlit("NON_BILLBOARD_TEXTS");
    }
    if billboard {
        "TEXTS"
    } else {
        "NON_BILLBOARD_TEXTS"
    }
}

/// The name of a table of planes.
pub fn plane_table(billboard: bool) -> (name: &'static str)
    ensures
        name@ == plane_table_for(billboard),
        name@.len() > 0,
{
    proof {
        reveal_strlit("COLORED_PLANE_BILLBOARDS");
        reveal_strlit("COLORED_PLANES");
    }
    if billboard {
        "COLORED_PLANE_BILLBOARDS"
    } else {
        "COLORED_PLANES"
    }
}

/// The name of the table of looking places.
pub fn place_table() -> (name: &'static str)
    ensures
        name@ == place_table_for(),
        name@.len() > 0,
{
    proof {
        reveal_strlit("LOOKING_PLACES");
    }
    "LOOKING_PLACES"
}

/// Each kind of thing is remembered in a table of its own.
pub proof fn tables_are_apart()
    ensures
        text_table_for(true) != text_table_for(false),
        plane_table_for(true) != plane_table_for(false),
        forall|a: bool, b: bool| text_table_for(a) != plane_table_for(b),
        forall|a: bool| text_table_for(a) != place_table_for(),
        forall|a: bool| plane_table_for(a) != place_table_for(),
{
    reveal_strlit("TEXTS");
    reveal_strlit("NON_BILLBOARD_TEXTS");
    reveal_strlit("COLORED_PLANE_BILLBOARDS");
    reveal_strlit("COLORED_PLANES");
    reveal_strlit("LOOKING_PLACES");
    assert("TEXTS"@.len() == 5);
    assert("NON_BILLBOARD_TEXTS"@.len() == 19);
    assert("COLORED_PLANE_BILLBOARDS"@.len() == 24);
    assert("COLORED_PLANES"@.len() == 14);
    assert("LOOKING_PLACES"@.len() == 14);
    assert("COLORED_PLANES"@[0] != "LOOKING_PLACES"@[0]);
}

/// Opens the table of the texts that face the camera, or of those that do not.
pub fn open_texts<'t>(wx: &'t redb::WriteTransaction, billboard: bool) -> (r: Result<
    TextTable<'t>,
    StoreError,
>)
    ensures
        (match r {
            Ok(t) => text_table_name(t) == text_table_for(billboard),
            Err(e) => e is Open,
        }),
{
    match open_text_table(wx, text_table(billboard)) {
        Ok(t) => Ok(t),
        Err(e) => Err(StoreError::Open(e)),
    }
}

/// Opens the table of the planes that face the camera, or of those that do not.
pub fn open_planes<'t>(wx: &'t redb::WriteTransaction, billboard: bool) -> (r: Result<
    PlaneTable<'t>,
    StoreError,
>)
    ensures
        (match r {
            Ok(t) => plane_table_name(t) == plane_table_for(billboard),
            Err(e) => e is Open,
        }),
{
    match open_plane_table(wx, plane_table(billboard)) {
        Ok(t) => Ok(t),
        Err(e) => Err(StoreError::Open(e)),
    }
}

/// Opens the table of looking places to write it.
pub fn open_places<'t>(wx: &'t redb::WriteTransaction) -> (r: Result<PlaceTable<'t>, StoreError>)
    ensures
        (match r {
            Ok(t) => place_table_name(t) == place_table_for(),
            Err(e) => e is Open,
        }),
{
    match open_place_table(wx, place_table()) {
        Ok(t) => Ok(t),
        Err(e) => Err(StoreError::Open(e)),
    }
}

/// Opens the table of looking places to read it.
pub fn read_places(rx: &redb::ReadTransaction) -> (r: Result<SavedPlaces, StoreError>)
    ensures
        (match r {
            Ok(t) => saved_table_name(t) == place_table_for(),
            Err(e) => e is Open,
        }),
{
    match open_saved_places(rx, place_table()) {
        Ok(t) => Ok(t),
        Err(e) => Err(StoreError::Open(e)),
    }
}

/// `pairs` without the record `record` of `key`, if there is one.
pub open spec fn released<K>(pairs: Set<(K, Seq<u8>)>, key: K, record: Option<Seq<u8>>) -> Set<
    (K, Seq<u8>),
> {
    match record {
        Some(bytes) => pairs.remove((key, bytes)),
        None => pairs,
    }
}

/// The bytes of an optional slice.
pub open spec fn slice_view(record: Option<&[u8]>) -> Option<Seq<u8>> {
    match record {
        Some(bytes) => Some(bytes@),
        None => None,
    }
}

/// Takes the record `stale` of `text` out, if there is one, and then adds `new`. Says whether `new`
/// was still there.
pub fn exchange_text(t: &mut TextTable<'_>, text: &str, stale: Option<&[u8]>, new: &[u8]) -> (r:
    Result<bool, StoreError>)
    ensures
        (match r {
            Ok(present) => {
                let kept = released(text_pairs(*old(t)), text@, slice_view(stale));
                &&& present == kept.contains((text@, new@))
                &&& text_pairs(*final(t)) == kept.insert((text@, new@))
            },
            Err(e) => e is Storage,
        }),
        text_table_name(*final(t)) == text_table_name(*old(t)),
{
    if let Some(bytes) = stale {
        if let Err(e) = remove_text(t, text, bytes) {
            return Err(StoreError::Storage(e));
        }
    }
    match insert_text(t, text, new) {
        Ok(present) => Ok(present),
        Err(e) => Err(StoreError::Storage(e)),
    }
}

/// Takes the record `record` of `text` out. Says whether it was there.
pub fn forget_text(t: &mut TextTable<'_>, text: &str, record: &[u8]) -> (r: Result<
    bool,
    StoreError,
>)
    ensures
        (match r {
            Ok(present) => {
                &&& present == text_pairs(*old(t)).contains((text@, record@))
                &&& text_pairs(*final(t)) == text_pairs(*old(t)).remove((text@, record@))
            },
            Err(e) => e is Storage,
        }),
        text_table_name(*final(t)) == text_table_name(*old(t)),
{
    match remove_text(t, text, record) {
        Ok(present) => Ok(present),
        Err(e) => Err(StoreError::Storage(e)),
    }
}

/// `pairs` without `stale`, if there is one.
pub open spec fn dropped(pairs: Set<(Rgba, Seq<u8>)>, stale: Option<(Rgba, Seq<u8>)>) -> Set<
    (Rgba, Seq<u8>),
> {
    match stale {
        Some(pair) => pairs.remove(pair),
        None => pairs,
    }
}

/// A color and a record's bytes.
pub open spec fn plane_view(plane: Option<(Rgba, &[u8])>) -> Option<(Rgba, Seq<u8>)> {
    match plane {
        Some(p) => Some((p.0, p.1@)),
        None => None,
    }
}

/// Adds the record `new` of `color`, and then takes `stale` out, if there is one.
pub fn exchange_plane(
    t: &mut PlaneTable<'_>,
    color: Rgba,
    new: &[u8],
    stale: Option<(Rgba, &[u8])>,
) -> (r: Result<(), StoreError>)
    ensures
        (match r {
            Ok(_) => plane_pairs(*final(t)) == dropped(
                plane_pairs(*old(t)).insert((color, new@)),
                plane_view(stale),
            ),
            Err(e) => e is Storage,
        }),
        plane_table_name(*final(t)) == plane_table_name(*old(t)),
{
    if let Err(e) = insert_plane(t, color, new) {
        return Err(StoreError::Storage(e));
    }
    if let Some((stale_color, bytes)) = stale {
        if let Err(e) = remove_plane(t, stale_color, bytes) {
            return Err(StoreError::Storage(e));
        }
    }
    Ok(())
}

/// Whether two records are the same.
fn same_bytes(a: &Vec<u8>, b: &[u8]) -> (r: bool)
    ensures
        r == (a@ == b@),
{
    if a.len() != b.len() {
        return false;
    }
    let mut i: usize = 0;
    while i < a.len()
        invariant
            i <= a@.len(),
            a@.len() == b@.len(),
            forall|j: int| 0 <= j < i ==> a@[j] == b@[j],
        decreases a@.len() - i,
    {
        if a[i] != b[i] {
            return false;
        }
        i = i + 1;
    }
    assert(a@ =~= b@);
    true
}

/// Puts the looking place `record` under the second `ts`. The transaction is to be aborted if the
/// very same place was there.
pub fn save_place(t: &mut PlaceTable<'_>, ts: u64, record: &[u8]) -> (r: Result<
    Ending,
    StoreError,
>)
    ensures
        (match r {
            Ok(ending) => {
                &&& places(*final(t)) == places(*old(t)).insert(ts, record@)
                &&& ending == (if lookup(places(*old(t)), ts) == Some(record@) {
                    Ending::Abort
                } else {
                    Ending::Commit
                })
            },
            Err(e) => e is Storage,
        }),
        place_table_name(*final(t)) == place_table_name(*old(t)),
{
    match insert_place(t, ts, record) {
        Ok(Some(previous)) => {
            if same_bytes(&previous, record) {
                Ok(Ending::Abort)
            } else {
                Ok(Ending::Commit)
            }
        },
        Ok(None) => Ok(Ending::Commit),
        Err(e) => Err(StoreError::Storage(e)),
    }
}

/// The record of the looking place saved at `ts`.
pub fn place_at(t: &SavedPlaces, ts: u64) -> (r: Result<Option<Vec<u8>>, StoreError>)
    ensures
        (match r {
            Ok(found) => record_view(found) == lookup(saved_places(*t), ts),
            Err(e) => e is Storage,
        }),
{
    match get_place(t, ts) {
        Ok(found) => Ok(found),
        Err(e) => Err(StoreError::Storage(e)),
    }
}

/// The second and the record of the looking place saved last.
pub fn latest_place(t: &SavedPlaces) -> (r: Result<Option<(u64, Vec<u8>)>, StoreError>)
    ensures
        (match r {
            Ok(Some(found)) => is_last(saved_places(*t), found.0) && saved_places(*t)[found.0]
                == found.1@,
            Ok(None) => saved_places(*t) == Map::<u64, Seq<u8>>::empty(),
            Err(e) => e is Storage,
        }),
{
    match last_place(t) {
        Ok(found) => Ok(found),
        Err(e) => Err(StoreError::Storage(e)),
    }
}

/// A place that was found.
pub open spec fn place_view(found: (u64, Vec<u8>)) -> (u64, Seq<u8>) {
    (found.0, found.1@)
}

/// What the reads of looking places gave.
pub open spec fn place_reads<E>(reads: Seq<Result<(u64, Vec<u8>), E>>) -> Seq<
    Result<(u64, Seq<u8>), E>,
> {
    reads.map_values(
        |r: Result<(u64, Vec<u8>), E>|
            match r {
                Ok(found) => Ok(place_view(found)),
                Err(e) => Err(e),
            },
    )
}

/// Whether `reads` is what the first reads of `rows` may give, as far as the place with `n` before
/// it: each in its turn, up to a failure.
pub open spec fn reads_as_far<E>(
    rows: Seq<(u64, Seq<u8>)>,
    reads: Seq<Result<(u64, Seq<u8>), E>>,
    n: int,
) -> bool {
    &&& reads.len() <= n + 1
    &&& reads.len() <= rows.len()
    &&& forall|i: int|
        0 <= i < reads.len() ==> match #[trigger] reads[i] {
            Ok(found) => found == rows[i],
            Err(_) => i == reads.len() - 1,
        }
    &&& reads.len() <= n ==> reads.len() == rows.len() || reads.len() > 0 && reads.last() is Err
}

/// What the reads tell of the place with `n` before it: there is none where they end before it, and
/// a failure at that very place is an error.
pub open spec fn nth_given<E>(reads: Seq<Result<(u64, Seq<u8>), E>>, n: int) -> Result<
    Option<(u64, Seq<u8>)>,
    E,
> {
    if n < reads.len() {
        match reads[n] {
            Ok(found) => Ok(Some(found)),
            Err(e) => Err(e),
        }
    } else {
        Ok(None)
    }
}

/// The last failure before the place with `n` before it.
pub open spec fn passed_over<E>(reads: Seq<Result<(u64, Seq<u8>), E>>, n: int) -> Option<E> {
    last_error(
        if n < reads.len() {
            reads.take(n)
        } else {
            reads
        },
    )
}

/// A place that was found, if there was one.
pub open spec fn nth_view<E>(found: Result<Option<(u64, Vec<u8>)>, E>) -> Result<
    Option<(u64, Seq<u8>)>,
    E,
> {
    match found {
        Ok(Some(place)) => Ok(Some(place_view(place))),
        Ok(None) => Ok(None),
        Err(e) => Err(e),
    }
}

/// Makes out the place with `n` before it from what the reads gave: a failure before it counts for
/// nothing but that the reads ended there, and comes beside; one at that very place is an error.
pub fn nth_read<E>(reads: Vec<Result<(u64, Vec<u8>), E>>, n: usize) -> (r: (
    Result<Option<(u64, Vec<u8>)>, E>,
    Option<E>,
))
    ensures
        nth_view(r.0) == nth_given(place_reads(reads@), n as int),
        r.1 == passed_over(place_reads(reads@), n as int),
{
    let ghost all = place_reads(reads@);
    let mut found: Result<Option<(u64, Vec<u8>)>, E> = Ok(None);
    let mut failure: Option<E> = None;
    let mut i: usize = 0;
    let len: usize = reads.len();
    for read in it: reads.into_iter()
        invariant
            it.seq() == reads@,
            len == reads@.len(),
            all == place_reads(reads@),
            i == it.index(),
            nth_view(found) == nth_given(all.take(i as int), n as int),
            failure == passed_over(all.take(i as int), n as int),
    {
        let ghost now = all.take(i as int);
        let ghost then = all.take(i + 1);
        assert(then.drop_last() =~= now);
        assert(then.last() == all[i as int]);
        assert(i < n ==> last_error(then) == match all[i as int] {
            Ok(_) => last_error(now),
            Err(e) => Some(e),
        });
        assert(i == n ==> then.take(n as int) =~= now);
        assert(i > n ==> then.take(n as int) =~= now.take(n as int));
        if i < n {
            if let Err(e) = read {
                failure = Some(e);
            }
        } else if i == n {
            found = match read {
                Ok(place) => Ok(Some(place)),
                Err(e) => Err(e),
            };
        }
        i = i + 1;
    }
    assert(all.take(all.len() as int) =~= all);
    (found, failure)
}

/// Begins a way through the table of looking places.
pub fn place_way<'a>(t: &'a SavedPlaces) -> (r: Result<PlaceIter<'a>, StoreError>)
    ensures
        (match r {
            Ok(it) => lists_rows(saved_places(*t), place_rest(it)),
            Err(e) => e is Storage,
        }),
{
    match place_iter(t) {
        Ok(it) => Ok(it),
        Err(e) => Err(StoreError::Storage(e)),
    }
}

/// Goes a way as far as the place with `n` before it, or to its end.
pub fn walk_places(it: &mut PlaceIter<'_>, n: usize) -> (reads: Vec<
    Result<(u64, Vec<u8>), redb::StorageError>,
>)
    ensures
        reads_as_far(place_rest(*old(it)), place_reads(reads@), n as int),
        reads@.len() <= n ==> place_rest(*final(it)).len() == 0,
{
    let ghost rows = place_rest(*it);
    let mut reads: Vec<Result<(u64, Vec<u8>), redb::StorageError>> = Vec::new();
    assert(rows.skip(0) =~= rows);
    loop
        invariant_except_break
            reads@.len() <= n + 1,
            reads@.len() <= rows.len(),
            forall|i: int|
                0 <= i < reads@.len() ==> match #[trigger] place_reads(reads@)[i] {
                    Ok(found) => found == rows[i],
                    Err(_) => i == reads@.len() - 1,
                },
            (reads@.len() > 0 && place_reads(reads@).last() is Err) ==> place_rest(*it).len() == 0,
            !(reads@.len() > 0 && place_reads(reads@).last() is Err) ==> place_rest(*it)
                == rows.skip(reads@.len() as int),
        ensures
            reads_as_far(rows, place_reads(reads@), n as int),
            reads@.len() <= n ==> place_rest(*it).len() == 0,
        decreases n + 1 - reads@.len(),
    {
        if reads.len() > n {
            break;
        }
        let ghost before = reads@;
        let ghost k = reads@.len() as int;
        match next_place(it) {
            None => {
                break;
            },
            Some(Ok(place)) => {
                reads.push(Ok(place));
                assert(place_reads(reads@) =~= place_reads(before).push(Ok(place_view(place))));
                assert(rows.skip(k).skip(1) =~= rows.skip(k + 1));
                assert(k > 0 ==> place_reads(before)[k - 1] is Ok);
            },
            Some(Err(e)) => {
                reads.push(Err(e));
                assert(place_reads(reads@) =~= place_reads(before).push(Err(e)));
                assert(k > 0 ==> place_reads(before)[k - 1] is Ok);
            },
        }
    }
    reads
}

/// Whether `found` and `failure` are what the way through `rows` may tell of the place with `n`
/// before it.
pub open spec fn tells_of_nth(
    rows: Seq<(u64, Seq<u8>)>,
    n: int,
    found: Result<Option<(u64, Seq<u8>)>, redb::StorageError>,
    failure: Option<redb::StorageError>,
) -> bool {
    exists|reads: Seq<Result<(u64, Seq<u8>), redb::StorageError>>|
        {
            &&& #[trigger] reads_as_far(rows, reads, n)
            &&& found == nth_given(reads, n)
            &&& failure == passed_over(reads, n)
        }
}

/// The place with `n` before it on a way. A failure before it ends the way: none is found, and the
/// failure comes beside. A failure at that very place is the error, and the way leads as far.
pub fn place_from(it: &mut PlaceIter<'_>, n: usize) -> (r: (
    Result<Option<(u64, Vec<u8>)>, redb::StorageError>,
    Option<redb::StorageError>,
))
    ensures
        tells_of_nth(place_rest(*old(it)), n as int, nth_view(r.0), r.1),
        (match r {
            (Ok(Some(found)), failure) => failure is None && n < place_rest(*old(it)).len()
                && place_view(found) == place_rest(*old(it))[n as int],
            (Ok(None), None) => place_rest(*old(it)).len() <= n,
            (Ok(None), Some(_)) => place_rest(*old(it)).len() > 0,
            (Err(_), failure) => failure is None && n < place_rest(*old(it)).len(),
        }),
{
    let reads = walk_places(it, n);
    let ghost given = place_reads(reads@);
    proof {
        no_failure_before(given, n as int);
    }
    nth_read(reads, n)
}

/// The second and the record of the looking place with just `n` older ones. With a failure on the
/// way to it there is none, though the table may hold one; the failure is handed out beside.
pub fn numbered_place(t: &SavedPlaces, n: usize) -> (r: Result<
    (Option<(u64, Vec<u8>)>, Option<StoreError>),
    StoreError,
>)
    ensures
        (match r {
            Ok((Some(found), failure)) => failure is None && is_nth(
                saved_places(*t),
                n as int,
                found.0,
            ) && saved_places(*t)[found.0] == found.1@,
            Ok((None, Some(e))) => e is Storage && !has_at_most(saved_places(*t), 0),
            Ok((None, None)) => has_at_most(saved_places(*t), n as int),
            Err(e) => e is Storage,
        }),
{
    let mut it = match place_way(t) {
        Ok(it) => it,
        Err(e) => {
            return Err(e);
        },
    };
    proof {
        let m = saved_places(*t);
        let rows = place_rest(it);
        if rows.len() > 0 {
            not_empty(m, rows);
        }
        if rows.len() <= n {
            short_list(m, rows, n as int);
        } else {
            assert(keys_of(rows)[n as int] == rows[n as int].0);
        }
    }
    let (found, failure) = place_from(&mut it, n);
    match found {
        Ok(place) => Ok((place, storage_failure(failure))),
        Err(e) => Err(StoreError::Storage(e)),
    }
}

/// Reads that fail at their end only have no failure before a place that they reach, and have one
/// before a place that they do not reach just if they end with one.
proof fn no_failure_before<E>(reads: Seq<Result<(u64, Seq<u8>), E>>, n: int)
    requires
        0 <= n,
        forall|i: int| 0 <= i < reads.len() - 1 ==> #[trigger] reads[i] is Ok,
    ensures
        n < reads.len() ==> passed_over(reads, n) is None,
        n >= reads.len() ==> (passed_over(reads, n) is None <==> (reads.len() == 0
            || reads.last() is Ok)),
{
    if n < reads.len() {
        all_were_read(reads.take(n));
    } else if reads.len() > 0 {
        all_were_read(reads.drop_last());
    }
}

/// Where all was read there is no failure.
proof fn all_were_read<E>(reads: Seq<Result<(u64, Seq<u8>), E>>)
    requires
        forall|i: int| 0 <= i < reads.len() ==> #[trigger] reads[i] is Ok,
    ensures
        last_error(reads) is None,
    decreases reads.len(),
{
    if reads.len() > 0 {
        assert(reads[reads.len() - 1] is Ok);
        let front = reads.drop_last();
        assert forall|i: int| 0 <= i < front.len() implies #[trigger] front[i] is Ok by {
            assert(reads[i] is Ok);
        }
        all_were_read(front);
    }
}

/// A table that is listed in one row or more is not empty.
proof fn not_empty(m: Map<u64, Seq<u8>>, rows: Seq<(u64, Seq<u8>)>)
    requires
        lists_rows(m, rows),
        rows.len() > 0,
    ensures
        !has_at_most(m, 0),
{
    let keys = keys_of(rows);
    assert(keys.contains(keys[0]));
    if has_at_most(m, 0) {
        let few = choose|keys: Seq<u64>| #[trigger] lists_keys(m, keys) && keys.len() <= 0;
        assert(m.dom().contains(keys[0]));
        assert(few.contains(keys[0]));
    }
}

/// Whether `m` has no more than `n` keys.
pub open spec fn has_at_most(m: Map<u64, Seq<u8>>, n: int) -> bool {
    exists|keys: Seq<u64>| #[trigger] lists_keys(m, keys) && keys.len() <= n
}

/// A table that is listed in `n` rows or fewer has no more than `n` keys.
proof fn short_list(m: Map<u64, Seq<u8>>, rows: Seq<(u64, Seq<u8>)>, n: int)
    requires
        lists_rows(m, rows),
        rows.len() <= n,
    ensures
        has_at_most(m, n),
{
    assert(lists_keys(m, keys_of(rows)) && keys_of(rows).len() <= n);
}

/// Whatever was asked to be stored is stored once the transaction has ended: it is aborted only
/// where the record was there.
pub proof fn exchange_stores<K>(
    pairs: Set<(K, Seq<u8>)>,
    key: K,
    stale: Option<Seq<u8>>,
    new: Seq<u8>,
    ending: Ending,
)
    requires
        ending == Ending::Abort ==> released(pairs, key, stale).contains((key, new)),
    ensures
        settled(pairs, released(pairs, key, stale).insert((key, new)), ending).contains((key, new)),
{
}

/// An exchange touches no pair but the two that it names.
pub proof fn exchange_leaves_the_rest<K>(
    pairs: Set<(K, Seq<u8>)>,
    key: K,
    stale: Option<Seq<u8>>,
    new: Seq<u8>,
    ending: Ending,
    other: (K, Seq<u8>),
)
    requires
        other != (key, new),
        stale matches Some(bytes) ==> other != (key, bytes),
    ensures
        settled(pairs, released(pairs, key, stale).insert((key, new)), ending).contains(other)
            == pairs.contains(other),
{
}

/// Taking a record out after it was added gives the table back as it was, if the record was new.
pub proof fn forgetting_undoes_adding<K>(pairs: Set<(K, Seq<u8>)>, key: K, record: Seq<u8>)
    requires
        !pairs.contains((key, record)),
    ensures
        pairs.insert((key, record)).remove((key, record)) == pairs,
{
    assert(pairs.insert((key, record)).remove((key, record)) =~= pairs);
}

/// A plane that replaces another is stored in its place, and the other is gone.
pub proof fn plane_takes_the_place(
    pairs: Set<(Rgba, Seq<u8>)>,
    new: (Rgba, Seq<u8>),
    stale: (Rgba, Seq<u8>),
)
    ensures
        !dropped(pairs.insert(new), Some(stale)).contains(stale),
        new != stale ==> dropped(pairs.insert(new), Some(stale)).contains(new),
{
}

/// A looking place is found under the second that it was saved at, once the transaction has ended;
/// and those of other seconds stay as they were.
pub proof fn saved_place_is_found(
    before: Map<u64, Seq<u8>>,
    ts: u64,
    record: Seq<u8>,
    ending: Ending,
    other: u64,
)
    requires
        ending == Ending::Abort ==> lookup(before, ts) == Some(record),
        other != ts,
    ensures
        lookup(settled(before, before.insert(ts, record), ending), ts) == Some(record),
        lookup(settled(before, before.insert(ts, record), ending), other) == lookup(before, other),
{
}

/// The place saved last is the one that is recalled: with no later second in the table, it is the
/// last.
pub proof fn saved_place_is_last(before: Map<u64, Seq<u8>>, ts: u64, record: Seq<u8>)
    requires
        forall|k: u64| #[trigger] before.dom().contains(k) ==> k <= ts,
    ensures
        is_last(before.insert(ts, record), ts),
{
}

/// A table has one last second, and one of each number: there is no choice in what is given.
pub proof fn keys_are_found_in_one_way(
    m: Map<u64, Seq<u8>>,
    n: int,
    a: u64,
    b: u64,
)
    ensures
        is_last(m, a) && is_last(m, b) ==> a == b,
        is_nth(m, n, a) && is_nth(m, n, b) ==> a == b,
{
    if is_nth(m, n, a) && is_nth(m, n, b) {
        let ka = choose|keys: Seq<u64>|
            #[trigger] lists_keys(m, keys) && 0 <= n < keys.len() && keys[n] == a;
        let kb = choose|keys: Seq<u64>|
            #[trigger] lists_keys(m, keys) && 0 <= n < keys.len() && keys[n] == b;
        same_keys(m, ka, kb, n);
    }
}

/// The last of `n` looking places has the number `n - 1`, since they are counted from zero.
pub proof fn last_has_the_greatest_number(m: Map<u64, Seq<u8>>, n: int, key: u64)
    requires
        is_nth(m, n - 1, key),
        has_at_most(m, n),
    ensures
        is_last(m, key),
{
    let keys = choose|keys: Seq<u64>|
        #[trigger] lists_keys(m, keys) && 0 <= n - 1 < keys.len() && keys[n - 1] == key;
    let few = choose|keys: Seq<u64>| #[trigger] lists_keys(m, keys) && keys.len() <= n;
    assert(keys.contains(key));
    assert forall|k: u64| #[trigger] m.dom().contains(k) implies k <= key by {
        assert(few.contains(k));
        let i = choose|i: int| 0 <= i < few.len() && few[i] == k;
        assert(keys.contains(k));
        let j = choose|j: int| 0 <= j < keys.len() && keys[j] == k;
        same_keys(m, keys, few, i);
        if j > n - 1 {
            assert(keys[i] < keys[j]);
        }
    }
}

/// Two lists of the keys of a table agree as far as both go.
proof fn same_keys(m: Map<u64, Seq<u8>>, ka: Seq<u64>, kb: Seq<u64>, n: int)
    requires
        lists_keys(m, ka),
        lists_keys(m, kb),
        0 <= n < ka.len(),
        n < kb.len(),
    ensures
        ka[n] == kb[n],
    decreases n,
{
    assert forall|i: int| 0 <= i < n implies ka[i] == kb[i] by {
        same_keys(m, ka, kb, i);
    }
    assert(ka.contains(ka[n]));
    assert(m.dom().contains(ka[n]));
    assert(kb.contains(ka[n]));
    let i = choose|i: int| 0 <= i < kb.len() && kb[i] == ka[n];
    assert(kb.contains(kb[n]));
    assert(m.dom().contains(kb[n]));
    assert(ka.contains(kb[n]));
    let j = choose|j: int| 0 <= j < ka.len() && ka[j] == kb[n];
    if i < n {
        assert(ka[i] == kb[i]);
    }
    if j < n {
        assert(ka[j] == kb[j]);
    }
}

/// The reads tell of the `n`th place what the `n`th read gave: a place, or the failure there. Without
/// that read there is none. What failed before comes beside, and a failure at the place does not.
pub proof fn nth_is_what_the_nth_read_gave<E>(
    before: Seq<Result<(u64, Seq<u8>), E>>,
    place: (u64, Seq<u8>),
    bad: E,
    after: Seq<Result<(u64, Seq<u8>), E>>,
    n: int,
)
    requires
        before.len() <= n,
    ensures
        nth_given(before, n) == Ok::<Option<(u64, Seq<u8>)>, E>(None),
        passed_over(before, n) == last_error(before),
        before.len() == n ==> nth_given(before + seq![Ok(place)] + after, n) == Ok::<
            Option<(u64, Seq<u8>)>,
            E,
        >(Some(place)),
        before.len() == n ==> nth_given(before + seq![Err(bad)] + after, n) == Err::<
            Option<(u64, Seq<u8>)>,
            E,
        >(bad),
        before.len() == n ==> passed_over(before + seq![Err(bad)] + after, n) == last_error(before),
        before.len() == n ==> passed_over(before + seq![Ok(place)] + after, n) == last_error(
            before,
        ),
{
    if before.len() == n {
        assert((before + seq![Err(bad)] + after).take(n) =~= before);
        assert((before + seq![Ok(place)] + after).take(n) =~= before);
    }
}

/// A place is looked up under its own second only: what was put there is found, and other seconds
/// keep what they had.
pub proof fn places_are_looked_up_by_second(
    m: Map<u64, Seq<u8>>,
    ts: u64,
    record: Seq<u8>,
    other: u64,
)
    ensures
        lookup(m.insert(ts, record), ts) == Some(record),
        lookup(m.remove(ts), ts) is None,
        other != ts ==> lookup(m.insert(ts, record), other) == lookup(m, other),
        lookup(m, ts) is None <==> !m.dom().contains(ts),
{
}

} // verus!
