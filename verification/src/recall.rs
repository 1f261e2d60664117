//! What comes back: the way of a thing from the room into its table and back into the room.

use vstd::prelude::*;
use crate::codec::{code, meaning, plane_attached, reads_back};
use crate::color::Rgba;
use crate::flight::{asks_recall, asks_save, flown, jump_of, memory_of, place_mark, Memory};
use crate::keys::{KeyCode, Keys};
use crate::records::{
    after_attaching, after_saving, attached_plane_comes_back, attached_text_comes_back,
    facing_plane, fixed_plane, gives_back, looking_place, looking_placement, recalled,
    saved_place_is_recalled_last, stays, ColoredPlaneInstance, ColoredPlaneInstanceBillboard,
    LookingPlace, TextInstance, TextInstanceNonBillboard,
};
use crate::rows::{listed, planes_ascend, texts_ascend};
use crate::scene::{
    background, placed, puts_back_fixed_texts, puts_back_texts, recalled_facing_plane,
    recalled_facing_planes, recalled_plane, recalled_planes, recalls_fixed_text, recalls_text,
    remembered_plane_comes_back, remembered_text_comes_back, ColoredPlane, FloatingTextModel, Keep,
};
use crate::space::{Placement, Pose};
use crate::state::StateModel;
use crate::store::is_last;
use crate::text::{digits, digits_are_digits};

verus! {

/// Recalling leads back to the place that was saved last. The frame that saved it asked for just
/// that, with nothing placed before; the frame now asks to recall. The table gives what was written
/// then, under its second, and so the camera's place of that time, if `decode` reads it back. The
/// mark that is put up there shows the second and is not remembered. Afterwards nothing placed
/// counts.
///
/// The camera was at `tf` when the place was saved, and the table holds none of a later second.
pub proof fn recalling_leads_back<
    E: Fn(&LookingPlace) -> Vec<u8>,
    D: Fn(&[u8]) -> Option<LookingPlace>,
>(
    encode: E,
    decode: D,
    before: Map<u64, Seq<u8>>,
    ts: u64,
    tf: Pose,
    saving: StateModel,
    saving_keys: Keys,
    s: StateModel,
    keys: Keys,
    found: u64,
    here: Pose,
)
    requires
        asks_save(saving_keys),
        !saving.placed_already,
        forall|k: u64| #[trigger] before.dom().contains(k) ==> k <= ts,
        asks_recall(keys),
        !keys.holds(KeyCode::Backspace),
        is_last(after_saving(encode, before, ts, looking_place(tf)), found),
    ensures
        memory_of(saving, saving_keys) == Memory::Save,
        memory_of(s, keys) == Memory::Recall,
        jump_of(s, keys) is None,
        found == ts,
        meaning(decode, after_saving(encode, before, ts, looking_place(tf))[found]) == meaning(
            decode,
            code(encode, looking_place(tf)),
        ),
        reads_back(encode, decode, looking_place(tf)) ==> meaning(
            decode,
            after_saving(encode, before, ts, looking_place(tf))[found],
        ) == Some(looking_place(tf)),
        looking_placement(looking_place(tf)) == (Placement {
            translation: tf.translation,
            angles: Some(tf.angles),
            scale: None,
        }),
        place_mark(found).text == digits(ts as nat),
        place_mark(found).billboard,
        placed(place_mark(found), here) matches Some(p) && p.keep is Nothing,
        flown(s, keys) == (StateModel { placed_already: false, ..s }),
{
    saved_place_is_recalled_last(encode, decode, before, ts, looking_place(tf), found);
    digits_are_digits(ts as nat);
}

/// A text that faces the camera and was remembered is put back into the room: as what `decode`
/// makes of what was written, and so as it was, if `decode` reads it back. Its transaction ended as
/// it should, its record was not taken out since, and no read fails.
pub proof fn remembered_text_is_put_back<
    E: Fn(&TextInstance) -> Vec<u8>,
    D: Fn(&[u8]) -> Option<TextInstance>,
>(
    encode: E,
    decode: D,
    t: FloatingTextModel,
    tf: Pose,
    before: Set<(Seq<char>, Seq<u8>)>,
    stale: Option<TextInstance>,
    record: TextInstance,
    tables: Seq<Set<(Seq<char>, Seq<u8>)>>,
    rows: Seq<(Seq<char>, Seq<Seq<u8>>)>,
    found: Seq<(Seq<char>, TextInstance)>,
    put: Seq<(FloatingTextModel, Placement)>,
)
    requires
        placed(t, tf) matches Some(p) && (p.keep matches Keep::Billboard { facing, .. } && facing
            == record),
        tables.len() > 0,
        tables[0] == after_attaching(encode, before, t.text, stale, record, false),
        stays(tables, (t.text, code(encode, record))),
        listed(rows).to_set() == tables.last(),
        texts_ascend(rows),
        recalled(decode, rows, found, None),
        puts_back_texts(found, put),
    ensures
        meaning(decode, code(encode, record)) matches Some(back) ==> exists|i: int|
            0 <= i < put.len() && recalls_text(t.text, back, (#[trigger] put[i]).0, put[i].1),
        reads_back(encode, decode, record) ==> put.contains(
            (
                FloatingTextModel {
                    bg_color: Some(background(t.bg_color)),
                    save: false,
                    editing: false,
                    ..t
                },
                Placement { translation: tf.translation, angles: None, scale: None },
            ),
        ),
{
    attached_text_comes_back(
        encode,
        decode,
        before,
        t.text,
        stale,
        record,
        false,
        tables,
        rows,
        found,
    );
    if let Some(back) = meaning(decode, code(encode, record)) {
        assert(gives_back(decode, tables.last(), t.text, code(encode, record), found));
        let i = choose|i: int| 0 <= i < found.len() && found[i] == (t.text, back);
        assert(recalls_text(t.text, back, put[i].0, put[i].1));
        if back == record {
            remembered_text_comes_back(t, tf, put[i].0, put[i].1);
            let whole = (
                FloatingTextModel {
                    bg_color: Some(background(t.bg_color)),
                    save: false,
                    editing: false,
                    ..t
                },
                Placement { translation: tf.translation, angles: None, scale: None },
            );
            assert(put[i] == whole);
        }
    }
}

/// A text that stands as it was put and was remembered is put back into the room: as what `decode`
/// makes of what was written, and so as it was, if `decode` reads it back. Its record was not taken
/// out since, and no read fails.
pub proof fn remembered_fixed_text_is_put_back<
    E: Fn(&TextInstanceNonBillboard) -> Vec<u8>,
    D: Fn(&[u8]) -> Option<TextInstanceNonBillboard>,
>(
    encode: E,
    decode: D,
    t: FloatingTextModel,
    tf: Pose,
    before: Set<(Seq<char>, Seq<u8>)>,
    stale: Option<TextInstanceNonBillboard>,
    record: TextInstanceNonBillboard,
    tables: Seq<Set<(Seq<char>, Seq<u8>)>>,
    rows: Seq<(Seq<char>, Seq<Seq<u8>>)>,
    found: Seq<(Seq<char>, TextInstanceNonBillboard)>,
    put: Seq<(FloatingTextModel, Placement)>,
)
    requires
        placed(t, tf) matches Some(p) && (p.keep matches Keep::Fixed { fixed, .. } && fixed
            == record),
        tables.len() > 0,
        tables[0] == after_attaching(encode, before, t.text, stale, record, true),
        stays(tables, (t.text, code(encode, record))),
        listed(rows).to_set() == tables.last(),
        texts_ascend(rows),
        recalled(decode, rows, found, None),
        puts_back_fixed_texts(found, put),
    ensures
        meaning(decode, code(encode, record)) matches Some(back) ==> exists|i: int|
            0 <= i < put.len() && recalls_fixed_text(t.text, back, (#[trigger] put[i]).0, put[i].1),
        reads_back(encode, decode, record) ==> put.contains(
            (
                FloatingTextModel {
                    bg_color: Some(background(t.bg_color)),
                    save: false,
                    editing: false,
                    ..t
                },
                Placement { translation: tf.translation, angles: Some(tf.angles), scale: None },
            ),
        ),
{
    attached_text_comes_back(
        encode,
        decode,
        before,
        t.text,
        stale,
        record,
        true,
        tables,
        rows,
        found,
    );
    if let Some(back) = meaning(decode, code(encode, record)) {
        assert(gives_back(decode, tables.last(), t.text, code(encode, record), found));
        let i = choose|i: int| 0 <= i < found.len() && found[i] == (t.text, back);
        assert(recalls_fixed_text(t.text, back, put[i].0, put[i].1));
        if back == record {
            remembered_text_comes_back(t, tf, put[i].0, put[i].1);
            let whole = (
                FloatingTextModel {
                    bg_color: Some(background(t.bg_color)),
                    save: false,
                    editing: false,
                    ..t
                },
                Placement { translation: tf.translation, angles: Some(tf.angles), scale: None },
            );
            assert(put[i] == whole);
        }
    }
}

/// A plane that stands as it was put and was remembered is put back into the room: as what `decode`
/// makes of what was written, and so at its place and in its size and color, if `decode` reads it
/// back; the vector part of its quaternion comes back as its angles, so that a plane that was not
/// turned is not turned again. Its record was not taken out since, and no read fails.
pub proof fn remembered_plane_is_put_back<
    E: Fn(&ColoredPlaneInstance) -> Vec<u8>,
    D: Fn(&[u8]) -> Option<ColoredPlaneInstance>,
>(
    encode: E,
    decode: D,
    color: Rgba,
    tf: Pose,
    before: Set<(Rgba, Seq<u8>)>,
    tables: Seq<Set<(Rgba, Seq<u8>)>>,
    rows: Seq<(Rgba, Seq<Seq<u8>>)>,
    found: Seq<(Rgba, ColoredPlaneInstance)>,
)
    requires
        tables.len() > 0,
        tables[0] == plane_attached(encode, before, color, fixed_plane(tf), None),
        stays(tables, (color, code(encode, fixed_plane(tf)))),
        listed(rows).to_set() == tables.last(),
        planes_ascend(rows),
        recalled(decode, rows, found, None),
    ensures
        meaning(decode, code(encode, fixed_plane(tf))) matches Some(back) ==> recalled_planes(
            found,
        ).contains(recalled_plane(color, back)),
        reads_back(encode, decode, fixed_plane(tf)) ==> recalled_planes(found).contains(
            (ColoredPlane {
                billboard: false,
                color,
                place: Placement {
                    translation: tf.translation,
                    angles: Some(tf.turn),
                    scale: Some(tf.scale),
                },
                save: false,
            }),
        ),
{
    attached_plane_comes_back(
        encode,
        decode,
        before,
        color,
        fixed_plane(tf),
        None,
        tables,
        rows,
        found,
    );
    if let Some(back) = meaning(decode, code(encode, fixed_plane(tf))) {
        assert(gives_back(decode, tables.last(), color, code(encode, fixed_plane(tf)), found));
        let i = choose|i: int| 0 <= i < found.len() && found[i] == (color, back);
        assert(recalled_planes(found)[i] == recalled_plane(color, back));
    }
    remembered_plane_comes_back(color, tf);
}

/// A plane that faces the camera and was remembered is put back into the room: as what `decode`
/// makes of what was written, and so at its place and in its size and color, if `decode` reads it
/// back. Its record was not taken out since, and no read fails.
pub proof fn remembered_facing_plane_is_put_back<
    E: Fn(&ColoredPlaneInstanceBillboard) -> Vec<u8>,
    D: Fn(&[u8]) -> Option<ColoredPlaneInstanceBillboard>,
>(
    encode: E,
    decode: D,
    color: Rgba,
    tf: Pose,
    before: Set<(Rgba, Seq<u8>)>,
    tables: Seq<Set<(Rgba, Seq<u8>)>>,
    rows: Seq<(Rgba, Seq<Seq<u8>>)>,
    found: Seq<(Rgba, ColoredPlaneInstanceBillboard)>,
)
    requires
        tables.len() > 0,
        tables[0] == plane_attached(encode, before, color, facing_plane(tf), None),
        stays(tables, (color, code(encode, facing_plane(tf)))),
        listed(rows).to_set() == tables.last(),
        planes_ascend(rows),
        recalled(decode, rows, found, None),
    ensures
        meaning(decode, code(encode, facing_plane(tf))) matches Some(back) ==> recalled_facing_planes(
            found,
        ).contains(recalled_facing_plane(color, back)),
        reads_back(encode, decode, facing_plane(tf)) ==> recalled_facing_planes(found).contains(
            (ColoredPlane {
                billboard: true,
                color,
                place: Placement {
                    translation: tf.translation,
                    angles: None,
                    scale: Some(tf.scale),
                },
                save: false,
            }),
        ),
{
    attached_plane_comes_back(
        encode,
        decode,
        before,
        color,
        facing_plane(tf),
        None,
        tables,
        rows,
        found,
    );
    if let Some(back) = meaning(decode, code(encode, facing_plane(tf))) {
        assert(gives_back(decode, tables.last(), color, code(encode, facing_plane(tf)), found));
        let i = choose|i: int| 0 <= i < found.len() && found[i] == (color, back);
        assert(recalled_facing_planes(found)[i] == recalled_facing_plane(color, back));
    }
    remembered_plane_comes_back(color, tf);
}

} // verus!
