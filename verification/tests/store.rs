use redb::backends::InMemoryBackend;
use redb::{Database, ReadableDatabase};
use textspace::codec::{restore, restore_rows, write_down};
use textspace::color::Rgba;
use textspace::records::{
    ColoredPlaneInstance, ColoredPlaneInstanceBillboard, LookingPlace, PlaceError, TextInstance,
    TextInstanceNonBillboard,
};
use textspace::rows;
use textspace::space::{Pose, Scalar, Triple};
use textspace::store::{
    exchange_plane, exchange_text, forget_text, latest_place, nth_read, numbered_place,
    open_places, open_planes, open_texts, place_at, place_table, place_way, plane_table,
    read_places, save_place, text_table, walk_places, Ending, StoreError,
};

fn room() -> Database {
    Database::builder().create_with_backend(InMemoryBackend::new()).unwrap()
}

fn scalar(x: f32) -> Scalar {
    Scalar { bits: x.to_bits() }
}

fn pose(x: f32) -> Pose {
    let triple = |y: f32| Triple { x: scalar(x), y: scalar(y), z: scalar(0.25) };
    Pose { translation: triple(1.0), angles: triple(2.0), turn: triple(3.0), scale: triple(4.0) }
}

const RED: Rgba = Rgba { r: 255, g: 0, b: 0, a: 255 };
const DIM: Rgba = Rgba { r: 1, g: 2, b: 3, a: 4 };

fn put(out: &mut Vec<u8>, scalars: &[Scalar]) {
    for s in scalars {
        out.extend_from_slice(&s.bits.to_be_bytes());
    }
}

fn scalars(bytes: &[u8], n: usize) -> Option<Vec<Scalar>> {
    if bytes.len() != 4 * n {
        return None;
    }
    Some(
        bytes
            .chunks(4)
            .map(|c| Scalar { bits: u32::from_be_bytes([c[0], c[1], c[2], c[3]]) })
            .collect(),
    )
}

fn word(bytes: &[u8]) -> Option<u64> {
    Some(u64::from_be_bytes(bytes.get(..8)?.try_into().ok()?))
}

fn encode_text(r: &TextInstance) -> Vec<u8> {
    let mut out = r.colors.to_be_bytes().to_vec();
    put(&mut out, &[r.size, r.x, r.y, r.z]);
    out
}

fn decode_text(bytes: &[u8]) -> Option<TextInstance> {
    let colors = word(bytes)?;
    let s = scalars(&bytes[8..], 4)?;
    Some(TextInstance { colors, size: s[0], x: s[1], y: s[2], z: s[3] })
}

fn encode_fixed(r: &TextInstanceNonBillboard) -> Vec<u8> {
    let mut out = r.colors.to_be_bytes().to_vec();
    put(&mut out, &[r.size, r.x, r.y, r.z, r.a, r.b, r.c]);
    out
}

fn decode_fixed(bytes: &[u8]) -> Option<TextInstanceNonBillboard> {
    let colors = word(bytes)?;
    let s = scalars(&bytes[8..], 7)?;
    Some(TextInstanceNonBillboard {
        colors,
        size: s[0],
        x: s[1],
        y: s[2],
        z: s[3],
        a: s[4],
        b: s[5],
        c: s[6],
    })
}

fn encode_plane(r: &ColoredPlaneInstance) -> Vec<u8> {
    let mut out = vec![];
    put(&mut out, &[r.x, r.y, r.z, r.a, r.b, r.c, r.r, r.t, r.s]);
    out
}

fn decode_plane(bytes: &[u8]) -> Option<ColoredPlaneInstance> {
    let s = scalars(bytes, 9)?;
    Some(ColoredPlaneInstance {
        x: s[0],
        y: s[1],
        z: s[2],
        a: s[3],
        b: s[4],
        c: s[5],
        r: s[6],
        t: s[7],
        s: s[8],
    })
}

fn encode_facing(r: &ColoredPlaneInstanceBillboard) -> Vec<u8> {
    let mut out = vec![];
    put(&mut out, &[r.x, r.y, r.z, r.r, r.t, r.s]);
    out
}

fn decode_facing(bytes: &[u8]) -> Option<ColoredPlaneInstanceBillboard> {
    let s = scalars(bytes, 6)?;
    Some(ColoredPlaneInstanceBillboard { x: s[0], y: s[1], z: s[2], r: s[3], t: s[4], s: s[5] })
}

fn encode_place(r: &LookingPlace) -> Vec<u8> {
    let mut out = vec![];
    put(&mut out, &[r.x, r.y, r.z, r.a, r.b, r.c]);
    out
}

fn decode_place(bytes: &[u8]) -> Option<LookingPlace> {
    let s = scalars(bytes, 6)?;
    Some(LookingPlace { x: s[0], y: s[1], z: s[2], a: s[3], b: s[4], c: s[5] })
}

fn end(wx: redb::WriteTransaction, ending: Ending) {
    match ending {
        Ending::Commit => wx.commit().unwrap(),
        Ending::Abort => wx.abort().unwrap(),
    }
}

fn ok<T>(r: Result<T, StoreError>) -> T {
    match r {
        Ok(t) => t,
        Err(_) => panic!("the store failed"),
    }
}

fn attach(db: &Database, r: TextInstance, text: &str, from: Option<&Pose>) -> Ending {
    let wx = db.begin_write().unwrap();
    let ending = {
        let mut t = ok(open_texts(&wx, true));
        ok(r.attach(&mut t, text, from, encode_text))
    };
    end(wx, ending);
    ending
}

fn texts(db: &Database) -> Vec<(String, TextInstance)> {
    let rx = db.begin_read().unwrap();
    let t = ok(rows::open_texts(&rx, true));
    let (found, failure) = ok(TextInstance::instantiate(&t, decode_text));
    assert!(failure.is_none());
    found
}

fn save(db: &Database, ts: u64, tf: &Pose) -> (LookingPlace, Ending) {
    let wx = db.begin_write().unwrap();
    let saved = {
        let mut t = ok(open_places(&wx));
        ok(LookingPlace::from_transform(&mut t, tf, ts, encode_place))
    };
    end(wx, saved.1);
    saved
}

#[test]
fn tables_have_their_names() {
    assert_eq!(text_table(true), "TEXTS");
    assert_eq!(text_table(false), "NON_BILLBOARD_TEXTS");
    assert_eq!(plane_table(true), "COLORED_PLANE_BILLBOARDS");
    assert_eq!(plane_table(false), "COLORED_PLANES");
    assert_eq!(place_table(), "LOOKING_PLACES");
}

#[test]
fn missing_table_cannot_be_read() {
    let db = room();
    let rx = db.begin_read().unwrap();
    assert!(matches!(rows::open_texts(&rx, true), Err(StoreError::Open(_))));
    assert!(matches!(rows::open_planes(&rx, false), Err(StoreError::Open(_))));
    assert!(matches!(read_places(&rx), Err(StoreError::Open(_))));
}

#[test]
fn table_is_opened_once_at_a_time() {
    let db = room();
    let wx = db.begin_write().unwrap();
    let _texts = ok(open_texts(&wx, true));
    assert!(matches!(open_texts(&wx, true), Err(StoreError::Open(_))));
    let _planes = ok(open_planes(&wx, true));
    assert!(matches!(open_planes(&wx, true), Err(StoreError::Open(_))));
    let _places = ok(open_places(&wx));
    assert!(matches!(open_places(&wx), Err(StoreError::Open(_))));
}

#[test]
fn texts_are_exchanged() {
    let db = room();
    let wx = db.begin_write().unwrap();
    {
        let mut t = ok(open_texts(&wx, false));
        assert!(!ok(exchange_text(&mut t, "a", None, &[1])));
        assert!(ok(exchange_text(&mut t, "a", None, &[1])));
        assert!(!ok(exchange_text(&mut t, "a", Some(&[1]), &[1])));
        assert!(!ok(exchange_text(&mut t, "a", Some(&[9]), &[2])));
        assert!(!ok(exchange_text(&mut t, "b", Some(&[1]), &[1])));
        assert!(ok(forget_text(&mut t, "a", &[1])));
        assert!(!ok(forget_text(&mut t, "a", &[1])));
    }
    wx.commit().unwrap();
    let rx = db.begin_read().unwrap();
    let t = ok(rows::open_texts(&rx, false));
    let (rows, failure) = ok(rows::read_texts(&t));
    assert!(failure.is_none());
    assert_eq!(rows, vec![("a".to_string(), vec![2]), ("b".to_string(), vec![1])]);
}

#[test]
fn rows_are_read_in_order() {
    let db = room();
    let wx = db.begin_write().unwrap();
    {
        let mut t = ok(open_texts(&wx, true));
        for (text, byte) in [("b", 1u8), ("\u{e9}", 1), ("a", 9), ("a", 3), ("ab", 0), ("B", 7)] {
            ok(exchange_text(&mut t, text, None, &[byte]));
        }
        let mut p = ok(open_planes(&wx, true));
        ok(exchange_plane(&mut p, RED, &[2], None));
        ok(exchange_plane(&mut p, DIM, &[1, 1], None));
        ok(exchange_plane(&mut p, DIM, &[1], None));
    }
    wx.commit().unwrap();
    let rx = db.begin_read().unwrap();
    let t = ok(rows::open_texts(&rx, true));
    let expected: Vec<(String, Vec<u8>)> = [("B", 7u8), ("a", 3), ("a", 9), ("ab", 0), ("b", 1), ("\u{e9}", 1)]
        .iter()
        .map(|(text, byte)| (text.to_string(), vec![*byte]))
        .collect();
    let (rows, failure) = ok(rows::read_texts(&t));
    assert!(failure.is_none());
    assert_eq!(rows, expected);
    assert_eq!(ok(rows::list_texts(&t)), "B\na\nab\nb\n\u{e9}");
    let p = ok(rows::open_planes(&rx, true));
    let (rows, failure) = ok(rows::read_planes(&p));
    assert!(failure.is_none());
    assert_eq!(rows, vec![(DIM, vec![1]), (DIM, vec![1, 1]), (RED, vec![2])]);
}

#[test]
fn attached_text_is_read_back() {
    let db = room();
    let r = TextInstance::new(RED, DIM, scalar(0.5), &pose(1.0));
    assert_eq!(attach(&db, r, "hi", None), Ending::Commit);
    assert_eq!(texts(&db), vec![("hi".to_string(), r)]);
    assert_eq!(attach(&db, r, "hi", None), Ending::Abort);
    assert_eq!(texts(&db), vec![("hi".to_string(), r)]);
    assert_eq!(attach(&db, r, "hi", Some(&pose(1.0))), Ending::Commit);
    assert_eq!(texts(&db), vec![("hi".to_string(), r)]);
}

#[test]
fn moved_text_replaces_the_old_one() {
    let db = room();
    let before = TextInstance::new(RED, DIM, scalar(0.5), &pose(1.0));
    let after = TextInstance::new(RED, DIM, scalar(0.5), &pose(2.0));
    attach(&db, before, "hi", None);
    attach(&db, before, "ho", None);
    assert_eq!(attach(&db, after, "hi", Some(&pose(1.0))), Ending::Commit);
    assert_eq!(texts(&db), vec![("hi".to_string(), after), ("ho".to_string(), before)]);
    attach(&db, before, "hi", None);
    assert_eq!(attach(&db, after, "hi", Some(&pose(1.0))), Ending::Abort);
    assert_eq!(texts(&db).len(), 3);
}

#[test]
fn removed_text_is_gone() {
    let db = room();
    let r = TextInstance::new(RED, DIM, scalar(0.5), &pose(1.0));
    attach(&db, r, "hi", None);
    attach(&db, r, "ho", None);
    let wx = db.begin_write().unwrap();
    let ending = {
        let mut t = ok(open_texts(&wx, true));
        ok(r.remove(&mut t, "hi", encode_text))
    };
    assert_eq!(ending, Ending::Commit);
    end(wx, ending);
    assert_eq!(texts(&db), vec![("ho".to_string(), r)]);
}

#[test]
fn unreadable_records_are_left_out() {
    let db = room();
    let r = TextInstance::new(RED, DIM, scalar(0.5), &pose(1.0));
    attach(&db, r, "hi", None);
    let wx = db.begin_write().unwrap();
    {
        let mut t = ok(open_texts(&wx, true));
        ok(exchange_text(&mut t, "hi", None, &[1, 2, 3]));
        ok(exchange_text(&mut t, "a", None, &[]));
    }
    wx.commit().unwrap();
    assert_eq!(texts(&db), vec![("hi".to_string(), r)]);
}

#[test]
fn fixed_texts_have_their_own_table() {
    let db = room();
    let near = TextInstanceNonBillboard::new(RED, DIM, scalar(1.0), &pose(1.0));
    let far = TextInstanceNonBillboard::new(RED, DIM, scalar(1.0), &pose(9.0));
    let wx = db.begin_write().unwrap();
    {
        ok(open_texts(&wx, true));
        let mut t = ok(open_texts(&wx, false));
        assert_eq!(ok(near.attach(&mut t, "x", None, encode_fixed)), Ending::Commit);
        assert_eq!(ok(near.attach(&mut t, "x", None, encode_fixed)), Ending::Commit);
        assert_eq!(ok(far.attach(&mut t, "x", Some(&pose(1.0)), encode_fixed)), Ending::Commit);
        assert_eq!(ok(near.attach(&mut t, "y", None, encode_fixed)), Ending::Commit);
        assert_eq!(ok(near.attach(&mut t, "z", None, encode_fixed)), Ending::Commit);
        assert_eq!(ok(near.remove(&mut t, "z", encode_fixed)), Ending::Commit);
    }
    wx.commit().unwrap();
    assert_eq!(texts(&db), vec![]);
    let rx = db.begin_read().unwrap();
    let t = ok(rows::open_texts(&rx, false));
    let (found, failure) = ok(TextInstanceNonBillboard::instantiate(&t, decode_fixed));
    assert!(failure.is_none());
    assert_eq!(found, vec![("x".to_string(), far), ("y".to_string(), near)]);
}

#[test]
fn planes_are_attached_and_replaced() {
    let db = room();
    let one = ColoredPlaneInstance::new(pose(1.0));
    let two = ColoredPlaneInstance::new(pose(2.0));
    let wx = db.begin_write().unwrap();
    {
        let mut t = ok(open_planes(&wx, false));
        assert_eq!(ok(one.attach(&mut t, RED, None, encode_plane)), Ending::Commit);
        assert_eq!(ok(two.attach(&mut t, DIM, Some((RED, one)), encode_plane)), Ending::Commit);
        assert_eq!(ok(one.attach(&mut t, DIM, None, encode_plane)), Ending::Commit);
        assert_eq!(ok(one.attach(&mut t, DIM, Some((DIM, one)), encode_plane)), Ending::Commit);
    }
    wx.commit().unwrap();
    let rx = db.begin_read().unwrap();
    let t = ok(rows::open_planes(&rx, false));
    let (found, failure) = ok(ColoredPlaneInstance::instantiate(&t, decode_plane));
    assert!(failure.is_none());
    assert_eq!(found, vec![(DIM, two)]);
}

#[test]
fn facing_planes_are_attached_and_replaced() {
    let db = room();
    let one = ColoredPlaneInstanceBillboard::new(pose(1.0));
    let two = ColoredPlaneInstanceBillboard::new(pose(2.0));
    let wx = db.begin_write().unwrap();
    {
        let mut t = ok(open_planes(&wx, true));
        assert_eq!(ok(one.attach(&mut t, RED, None, encode_facing)), Ending::Commit);
        assert_eq!(ok(two.attach(&mut t, RED, None, encode_facing)), Ending::Commit);
        assert_eq!(ok(one.attach(&mut t, DIM, Some((RED, one)), encode_facing)), Ending::Commit);
    }
    wx.commit().unwrap();
    let rx = db.begin_read().unwrap();
    let t = ok(rows::open_planes(&rx, true));
    let (found, failure) = ok(ColoredPlaneInstanceBillboard::instantiate(&t, decode_facing));
    assert!(failure.is_none());
    assert_eq!(found, vec![(DIM, one), (RED, two)]);
}

#[test]
fn saved_place_is_recalled_here() {
    let db = room();
    let (lp, ending) = save(&db, 100, &pose(1.0));
    assert_eq!(ending, Ending::Commit);
    assert_eq!((lp.x, lp.a, lp.b), (scalar(1.0), scalar(1.0), scalar(2.0)));
    assert_eq!(save(&db, 100, &pose(1.0)).1, Ending::Abort);
    let (later, ending) = save(&db, 200, &pose(2.0));
    assert_eq!(ending, Ending::Commit);
    let rx = db.begin_read().unwrap();
    let t = ok(read_places(&rx));
    assert!(matches!(LookingPlace::from_timestamp(&t, 100, decode_place), Ok(p) if p == lp));
    assert!(matches!(LookingPlace::last(&t, decode_place), Ok((p, 200)) if p == later));
    assert!(matches!(LookingPlace::nth(&t, 0, decode_place), (Ok(p), None) if p == lp));
    assert!(matches!(LookingPlace::nth(&t, 1, decode_place), (Ok(p), None) if p == later));
    assert!(matches!(
        LookingPlace::nth(&t, 2, decode_place),
        (Err(PlaceError::NoneSuch), None)
    ));
    assert!(matches!(
        LookingPlace::nth(&t, usize::MAX, decode_place),
        (Err(PlaceError::NoneSuch), None)
    ));
    assert!(matches!(
        LookingPlace::from_timestamp(&t, 150, decode_place),
        Err(PlaceError::NotThen)
    ));
}

#[test]
fn place_of_a_second_is_replaced() {
    let db = room();
    save(&db, 7, &pose(1.0));
    let (lp, ending) = save(&db, 7, &pose(2.0));
    assert_eq!(ending, Ending::Commit);
    let rx = db.begin_read().unwrap();
    let t = ok(read_places(&rx));
    assert!(matches!(LookingPlace::last(&t, decode_place), Ok((p, 7)) if p == lp));
    assert_eq!(ok(place_at(&t, 7)), Some(encode_place(&lp)));
    assert_eq!(ok(place_at(&t, 8)), None);
    assert_eq!(ok(latest_place(&t)), Some((7, encode_place(&lp))));
    let (found, failure) = ok(numbered_place(&t, 0));
    assert!(failure.is_none());
    assert_eq!(found, Some((7, encode_place(&lp))));
    assert!(matches!(ok(numbered_place(&t, 1)), (None, None)));
}

#[test]
fn no_place_is_recalled_from_an_empty_table() {
    let db = room();
    let wx = db.begin_write().unwrap();
    ok(open_places(&wx));
    wx.commit().unwrap();
    let rx = db.begin_read().unwrap();
    let t = ok(read_places(&rx));
    assert!(matches!(LookingPlace::last(&t, decode_place), Err(PlaceError::NoneSuch)));
    assert!(matches!(
        LookingPlace::nth(&t, 0, decode_place),
        (Err(PlaceError::NoneSuch), None)
    ));
}

#[test]
fn unreadable_place_is_not_found() {
    let db = room();
    let wx = db.begin_write().unwrap();
    {
        let mut t = ok(open_places(&wx));
        assert_eq!(ok(save_place(&mut t, 5, &[1, 2])), Ending::Commit);
        assert_eq!(ok(save_place(&mut t, 5, &[1, 2])), Ending::Abort);
        assert_eq!(ok(save_place(&mut t, 5, &[1])), Ending::Commit);
    }
    wx.commit().unwrap();
    let rx = db.begin_read().unwrap();
    let t = ok(read_places(&rx));
    assert!(matches!(
        LookingPlace::from_timestamp(&t, 5, decode_place),
        Err(PlaceError::NotThen)
    ));
    assert!(matches!(LookingPlace::last(&t, decode_place), Err(PlaceError::NoneSuch)));
    assert!(matches!(
        LookingPlace::nth(&t, 0, decode_place),
        (Err(PlaceError::NoneSuch), None)
    ));
}

#[test]
fn all_that_could_be_read_is_gathered() {
    let steps: Vec<Result<(String, Vec<Result<Vec<u8>, u8>>), u8>> = vec![
        Ok(("a".to_string(), vec![Ok(vec![1]), Ok(vec![2]), Err(7)])),
        Err(8),
        Ok(("b".to_string(), vec![])),
        Ok(("c".to_string(), vec![Ok(vec![3])])),
    ];
    let (found, failure) = rows::gather(steps);
    assert_eq!(
        found,
        vec![
            ("a".to_string(), vec![1]),
            ("a".to_string(), vec![2]),
            ("c".to_string(), vec![3])
        ]
    );
    assert_eq!(failure, Some(8));
    let steps: Vec<Result<(Rgba, Vec<Result<Vec<u8>, u8>>), u8>> =
        vec![Err(1), Ok((RED, vec![Ok(vec![9]), Err(2)])), Ok((DIM, vec![Ok(vec![4])]))];
    let (found, failure) = rows::gather(steps);
    assert_eq!(found, vec![(RED, vec![9]), (DIM, vec![4])]);
    assert_eq!(failure, Some(2));
    let none: Vec<Result<(Rgba, Vec<Result<Vec<u8>, u8>>), u8>> = vec![];
    assert_eq!(rows::gather(none), (vec![], None));
}

#[test]
fn text_attached_often_comes_back_once() {
    let db = room();
    let r = TextInstance::new(RED, DIM, scalar(0.5), &pose(1.0));
    for from in [None, Some(&pose(1.0)), Some(&pose(2.0)), None] {
        attach(&db, r, "hi", from);
        let found = texts(&db);
        assert_eq!(found.iter().filter(|f| **f == ("hi".to_string(), r)).count(), 1);
        assert_eq!(found, texts(&db));
    }
}

#[test]
fn removing_takes_attaching_back() {
    let db = room();
    let kept = TextInstance::new(DIM, RED, scalar(0.5), &pose(3.0));
    let r = TextInstance::new(RED, DIM, scalar(0.5), &pose(1.0));
    attach(&db, kept, "hi", None);
    let before = texts(&db);
    attach(&db, r, "hi", None);
    assert_eq!(texts(&db).len(), 2);
    for _ in 0..2 {
        let wx = db.begin_write().unwrap();
        let ending = {
            let mut t = ok(open_texts(&wx, true));
            ok(r.remove(&mut t, "hi", encode_text))
        };
        end(wx, ending);
        assert_eq!(texts(&db), before);
    }
}

#[test]
fn nth_place_is_made_out_of_reads() {
    let place = |k: u64| (k, vec![k as u8]);
    let reads = || -> Vec<Result<(u64, Vec<u8>), u8>> { vec![Ok(place(3)), Ok(place(5)), Err(9)] };
    assert_eq!(nth_read(reads(), 0), (Ok(Some(place(3))), None));
    assert_eq!(nth_read(reads(), 1), (Ok(Some(place(5))), None));
    assert_eq!(nth_read(reads(), 2), (Err(9), None));
    assert_eq!(nth_read(reads(), 3), (Ok(None), Some(9)));
    assert_eq!(nth_read(reads(), usize::MAX), (Ok(None), Some(9)));
    let none: Vec<Result<(u64, Vec<u8>), u8>> = vec![];
    assert_eq!(nth_read(none, 0), (Ok(None), None));
}

#[test]
fn ways_lead_to_their_end() {
    let db = room();
    save(&db, 4, &pose(1.0));
    save(&db, 6, &pose(2.0));
    let r = TextInstance::new(RED, DIM, scalar(0.5), &pose(1.0));
    attach(&db, r, "hi", None);
    let wx = db.begin_write().unwrap();
    ok(exchange_plane(&mut ok(open_planes(&wx, false)), RED, &[2], None));
    wx.commit().unwrap();
    let rx = db.begin_read().unwrap();

    let places = ok(read_places(&rx));
    let mut way = ok(place_way(&places));
    let reads = walk_places(&mut way, 0);
    assert_eq!(reads.len(), 1);
    assert!(matches!(&reads[0], Ok((4, _))));
    let reads = walk_places(&mut way, 5);
    assert_eq!(reads.len(), 1);
    assert!(matches!(&reads[0], Ok((6, _))));
    assert!(walk_places(&mut way, 5).is_empty());

    let t = ok(rows::open_texts(&rx, true));
    let mut way = ok(rows::text_way(&t));
    let (found, failure) = rows::walk_texts(&mut way);
    assert!(failure.is_none());
    assert_eq!(found, vec![("hi".to_string(), encode_text(&r))]);
    assert!(rows::walk_texts(&mut way).0.is_empty());

    let p = ok(rows::open_planes(&rx, false));
    let mut way = ok(rows::plane_way(&p));
    assert_eq!(rows::walk_planes(&mut way).0, vec![(RED, vec![2])]);
    assert!(rows::walk_planes(&mut way).0.is_empty());
}

#[test]
fn records_are_written_and_restored() {
    let lp = LookingPlace {
        x: scalar(1.0),
        y: scalar(2.0),
        z: scalar(3.0),
        a: scalar(4.0),
        b: scalar(5.0),
        c: scalar(-0.0),
    };
    let bytes = write_down(&lp, &encode_place);
    assert_eq!(bytes, encode_place(&lp));
    assert_eq!(restore(&Some(bytes.clone()), decode_place), Some(lp));
    assert_eq!(restore(&Some(vec![1]), decode_place), None);
    assert_eq!(restore(&None, decode_place), None);
    let rows = vec![(RED, vec![1]), (DIM, bytes)];
    assert_eq!(restore_rows(rows, decode_place), vec![(DIM, lp)]);
}

#[test]
fn failure_at_the_place_is_the_error() {
    let lp = LookingPlace {
        x: scalar(1.0),
        y: scalar(2.0),
        z: scalar(3.0),
        a: scalar(4.0),
        b: scalar(5.0),
        c: scalar(6.0),
    };
    let failed = || StoreError::Storage(redb::StorageError::ValueTooLarge(7));
    assert!(matches!(
        LookingPlace::from_numbered(Ok((Some((1, encode_place(&lp))), None)), decode_place),
        (Ok(p), None) if p == lp
    ));
    assert!(matches!(
        LookingPlace::from_numbered(Ok((Some((1, vec![])), None)), decode_place),
        (Err(PlaceError::NoneSuch), None)
    ));
    assert!(matches!(
        LookingPlace::from_numbered(Ok((None, Some(failed()))), decode_place),
        (Err(PlaceError::NoneSuch), Some(StoreError::Storage(_)))
    ));
    assert!(matches!(
        LookingPlace::from_numbered(Err(failed()), decode_place),
        (Err(PlaceError::Store(StoreError::Storage(_))), None)
    ));
}
