//! What is put into the room: texts and planes.

use vstd::prelude::*;
use crate::codec::keyed_records;
use crate::color::{clear, packed, packed_fits, packing_keeps_both_colors, u64_to_2_rgba_colors, Rgba};
use crate::edit::{byte_len, bytes_of_something, text_len, Editing};
use crate::records::{
    facing_plane, fixed_plane, fixed_text_instance, text_instance, ColoredPlaneInstance,
    ColoredPlaneInstanceBillboard, TextInstance, TextInstanceNonBillboard,
};
use crate::space::{Placement, Pose, Scalar, Triple};

verus! {

/// A text that is asked for.
pub struct FloatingText {
    /// The text keeps facing the camera.
    pub billboard: bool,
    pub text: String,
    pub size: Scalar,
    pub color: Rgba,
    /// The color behind the text; nothing is drawn there without one.
    pub bg_color: Option<Rgba>,
    /// The text is remembered.
    pub save: bool,
    /// The text is edited from the start.
    pub editing: bool,
}

/// The value of a [`FloatingText`].
pub struct FloatingTextModel {
    pub billboard: bool,
    pub text: Seq<char>,
    pub size: Scalar,
    pub color: Rgba,
    pub bg_color: Option<Rgba>,
    pub save: bool,
    pub editing: bool,
}

impl View for FloatingText {
    type V = FloatingTextModel;

    open spec fn view(&self) -> FloatingTextModel {
        FloatingTextModel {
            billboard: self.billboard,
            text: self.text@,
            size: self.size,
            color: self.color,
            bg_color: self.bg_color,
            save: self.save,
            editing: self.editing,
        }
    }
}

/// How a text or a plane that is put into the room is remembered.
#[derive(Debug, PartialEq, Eq)]
pub enum Keep<B, F> {
    Nothing,
    /// As one that faces the camera; the record like it at `stale` is replaced.
    Billboard { facing: B, stale: Option<Pose> },
    /// As one that stands as it was put; the record like it at `stale` is replaced.
    Fixed { fixed: F, stale: Option<Pose> },
}

/// A text that is put into the room.
#[derive(Debug, PartialEq, Eq)]
pub struct PlacedText {
    /// The color behind the text.
    pub bg_color: Rgba,
    pub keep: Keep<TextInstance, TextInstanceNonBillboard>,
    /// Where it is edited from the start.
    pub editing: Option<Editing>,
}

/// The color behind a text.
pub open spec fn background(bg_color: Option<Rgba>) -> Rgba {
    match bg_color {
        Some(c) => c,
        None => clear(),
    }
}

/// What is put into the room for the text `t` at `tf`: nothing for an empty one.
pub open spec fn placed(t: FloatingTextModel, tf: Pose) -> Option<PlacedText> {
    if t.text.len() == 0 {
        None
    } else {
        let bg_color = background(t.bg_color);
        Some(
            PlacedText {
                bg_color,
                keep: if !t.save {
                    Keep::Nothing
                } else if t.billboard {
                    Keep::Billboard {
                        facing: text_instance(t.color, bg_color, t.size, tf),
                        stale: Some(tf),
                    }
                } else {
                    Keep::Fixed {
                        fixed: fixed_text_instance(t.color, bg_color, t.size, tf),
                        stale: None,
                    }
                },
                editing: if t.editing {
                    Some(Editing { idx: (byte_len(t.text) - 1) as usize })
                } else {
                    None
                },
            },
        )
    }
}

/// Works out what is put into the room for a text that is asked for at `tf`.
pub fn floating_txt(t: &FloatingText, tf: &Pose) -> (r: Option<PlacedText>)
    ensures
        r == placed(t@, *tf),
{
    let len: usize = text_len(t.text.as_str());
    proof {
        bytes_of_something(t.text@);
    }
    if len == 0 {
        return None;
    }
    let bg_color = match t.bg_color {
        Some(c) => c,
        None => Rgba { r: 0, g: 0, b: 0, a: 0 },
    };
    let keep = if !t.save {
        Keep::Nothing
    } else if t.billboard {
        Keep::Billboard {
            facing: TextInstance::new(t.color, bg_color, t.size, tf),
            stale: Some(*tf),
        }
    } else {
        Keep::Fixed {
            fixed: TextInstanceNonBillboard::new(t.color, bg_color, t.size, tf),
            stale: None,
        }
    };
    let editing = if t.editing {
        Some(Editing { idx: len - 1 })
    } else {
        None
    };
    Some(PlacedText { bg_color, keep, editing })
}

/// What is remembered of a text of the room that is let go at `tf`: it takes the place of its own
/// record there.
pub fn put_down(billboard: bool, color: Rgba, bg_color: Rgba, size: Scalar, tf: &Pose) -> (r: Keep<
    TextInstance,
    TextInstanceNonBillboard,
>)
    ensures
        r == (if billboard {
            Keep::Billboard {
                facing: text_instance(color, bg_color, size, *tf),
                stale: Some(*tf),
            }
        } else {
            Keep::Fixed {
                fixed: fixed_text_instance(color, bg_color, size, *tf),
                stale: Some(*tf),
            }
        }),
{
    if billboard {
        Keep::Billboard {
            facing: TextInstance::new(color, bg_color, size, tf),
            stale: Some(*tf),
        }
    } else {
        Keep::Fixed {
            fixed: TextInstanceNonBillboard::new(color, bg_color, size, tf),
            stale: Some(*tf),
        }
    }
}

/// What is to be forgotten of a text that is taken out of the room at `tf`.
pub fn taken_out(billboard: bool, color: Rgba, bg_color: Rgba, size: Scalar, tf: &Pose) -> (r: Keep<
    TextInstance,
    TextInstanceNonBillboard,
>)
    ensures
        r == (if billboard {
            Keep::Billboard { facing: text_instance(color, bg_color, size, *tf), stale: None }
        } else {
            Keep::Fixed { fixed: fixed_text_instance(color, bg_color, size, *tf), stale: None }
        }),
{
    if billboard {
        Keep::Billboard { facing: TextInstance::new(color, bg_color, size, tf), stale: None }
    } else {
        Keep::Fixed {
            fixed: TextInstanceNonBillboard::new(color, bg_color, size, tf),
            stale: None,
        }
    }
}

/// What is remembered of a text at `tf` whose edit is finished: it is kept as one that faces the
/// camera, whichever it was, and takes no other's place.
pub fn edit_finished(color: Rgba, bg_color: Rgba, size: Scalar, tf: &Pose) -> (r: Keep<
    TextInstance,
    TextInstanceNonBillboard,
>)
    ensures
        (match r {
            Keep::Billboard { facing, stale } => facing == text_instance(color, bg_color, size, *tf)
                && stale is None,
            _ => false,
        }),
{
    Keep::Billboard { facing: TextInstance::new(color, bg_color, size, tf), stale: None }
}

/// How a plane at `tf` is remembered.
pub open spec fn plane_kept(tf: Pose, billboard: bool, save: bool) -> Keep<
    ColoredPlaneInstanceBillboard,
    ColoredPlaneInstance,
> {
    if !save {
        Keep::Nothing
    } else if billboard {
        Keep::Billboard { facing: facing_plane(tf), stale: None }
    } else {
        Keep::Fixed { fixed: fixed_plane(tf), stale: None }
    }
}

/// What is remembered of a plane that is put into the room at `tf`: nothing, unless that is asked
/// for.
pub fn spawn_colored_plane(tf: Pose, billboard: bool, save: bool) -> (r: Keep<
    ColoredPlaneInstanceBillboard,
    ColoredPlaneInstance,
>)
    ensures
        r == plane_kept(tf, billboard, save),
{
    if !save {
        Keep::Nothing
    } else if billboard {
        Keep::Billboard { facing: ColoredPlaneInstanceBillboard::new(tf), stale: None }
    } else {
        Keep::Fixed { fixed: ColoredPlaneInstance::new(tf), stale: None }
    }
}

/// The record `ti` of a text that faces the camera, as a text to be put into the room: of its
/// colors and its size, and not to be remembered again.
pub open spec fn recalls_text(
    text: Seq<char>,
    ti: TextInstance,
    t: FloatingTextModel,
    place: Placement,
) -> bool {
    &&& t.billboard && !t.save && !t.editing
    &&& t.text == text
    &&& t.size == ti.size
    &&& t.bg_color is Some
    &&& packed(t.color, t.bg_color->0) == ti.colors
    &&& place == (Placement {
        translation: Triple { x: ti.x, y: ti.y, z: ti.z },
        angles: None,
        scale: None,
    })
}

/// The record `ti` of a text that stands as it was put, as a text to be put into the room: of its
/// colors and its size, turned as it was, and not to be remembered again.
pub open spec fn recalls_fixed_text(
    text: Seq<char>,
    ti: TextInstanceNonBillboard,
    t: FloatingTextModel,
    place: Placement,
) -> bool {
    &&& !t.billboard && !t.save && !t.editing
    &&& t.text == text
    &&& t.size == ti.size
    &&& t.bg_color is Some
    &&& packed(t.color, t.bg_color->0) == ti.colors
    &&& place == (Placement {
        translation: Triple { x: ti.x, y: ti.y, z: ti.z },
        angles: Some(Triple { x: ti.a, y: ti.b, z: ti.c }),
        scale: None,
    })
}

/// Texts that are put into the room, with their places.
pub open spec fn put_views(put: Seq<(FloatingText, Placement)>) -> Seq<
    (FloatingTextModel, Placement),
> {
    put.map_values(|p: (FloatingText, Placement)| (p.0@, p.1))
}

/// Whether `put` is what is put into the room for `found`, one by one and in order.
pub open spec fn puts_back_texts(
    found: Seq<(Seq<char>, TextInstance)>,
    put: Seq<(FloatingTextModel, Placement)>,
) -> bool {
    &&& put.len() == found.len()
    &&& forall|i: int|
        0 <= i < found.len() ==> recalls_text(
            (#[trigger] found[i]).0,
            found[i].1,
            put[i].0,
            put[i].1,
        )
}

/// Whether `put` is what is put into the room for `found`, one by one and in order.
pub open spec fn puts_back_fixed_texts(
    found: Seq<(Seq<char>, TextInstanceNonBillboard)>,
    put: Seq<(FloatingTextModel, Placement)>,
) -> bool {
    &&& put.len() == found.len()
    &&& forall|i: int|
        0 <= i < found.len() ==> recalls_fixed_text(
            (#[trigger] found[i]).0,
            found[i].1,
            put[i].0,
            put[i].1,
        )
}

/// Works out what is put into the room for the texts that face the camera, in their order.
pub fn recall_texts(found: &Vec<(String, TextInstance)>) -> (r: Vec<(FloatingText, Placement)>)
    ensures
        puts_back_texts(keyed_records(found@), put_views(r@)),
{
    let mut r: Vec<(FloatingText, Placement)> = Vec::new();
    let mut i: usize = 0;
    while i < found.len()
        invariant
            i <= found@.len(),
            r@.len() == i,
            forall|j: int|
                0 <= j < i ==> recalls_text(
                    (#[trigger] found@[j]).0@,
                    found@[j].1,
                    r@[j].0@,
                    r@[j].1,
                ),
        decreases found@.len() - i,
    {
        let ti = found[i].1;
        let (color, bg_color) = u64_to_2_rgba_colors(ti.colors);
        let text = FloatingText {
            billboard: true,
            text: found[i].0.clone(),
            size: ti.size,
            color,
            bg_color: Some(bg_color),
            save: false,
            editing: false,
        };
        let place = Placement {
            translation: Triple { x: ti.x, y: ti.y, z: ti.z },
            angles: None,
            scale: None,
        };
        r.push((text, place));
        i = i + 1;
    }
    assert forall|i: int| 0 <= i < found@.len() implies recalls_text(
        (#[trigger] keyed_records(found@)[i]).0,
        keyed_records(found@)[i].1,
        put_views(r@)[i].0,
        put_views(r@)[i].1,
    ) by {
        assert(recalls_text(found@[i].0@, found@[i].1, r@[i].0@, r@[i].1));
    }
    r
}

/// Works out what is put into the room for the texts that stand as they were put, in their order.
pub fn recall_fixed_texts(found: &Vec<(String, TextInstanceNonBillboard)>) -> (r: Vec<
    (FloatingText, Placement),
>)
    ensures
        puts_back_fixed_texts(keyed_records(found@), put_views(r@)),
{
    let mut r: Vec<(FloatingText, Placement)> = Vec::new();
    let mut i: usize = 0;
    while i < found.len()
        invariant
            i <= found@.len(),
            r@.len() == i,
            forall|j: int|
                0 <= j < i ==> recalls_fixed_text(
                    (#[trigger] found@[j]).0@,
                    found@[j].1,
                    r@[j].0@,
                    r@[j].1,
                ),
        decreases found@.len() - i,
    {
        let ti = found[i].1;
        let (color, bg_color) = u64_to_2_rgba_colors(ti.colors);
        let text = FloatingText {
            billboard: false,
            text: found[i].0.clone(),
            size: ti.size,
            color,
            bg_color: Some(bg_color),
            save: false,
            editing: false,
        };
        let place = Placement {
            translation: Triple { x: ti.x, y: ti.y, z: ti.z },
            angles: Some(Triple { x: ti.a, y: ti.b, z: ti.c }),
            scale: None,
        };
        r.push((text, place));
        i = i + 1;
    }
    assert forall|i: int| 0 <= i < found@.len() implies recalls_fixed_text(
        (#[trigger] keyed_records(found@)[i]).0,
        keyed_records(found@)[i].1,
        put_views(r@)[i].0,
        put_views(r@)[i].1,
    ) by {
        assert(recalls_fixed_text(found@[i].0@, found@[i].1, r@[i].0@, r@[i].1));
    }
    r
}

/// A plane that is asked for.
#[derive(Clone, Copy, Debug, PartialEq, Eq, Structural)]
pub struct ColoredPlane {
    /// The plane keeps facing the camera.
    pub billboard: bool,
    pub color: Rgba,
    pub place: Placement,
    /// The plane is remembered.
    pub save: bool,
}

/// The record `cpi` of a plane that stands as it was put, as a plane to be put into the room: not
/// to be remembered again. The vector part of its quaternion is taken for its angles.
pub open spec fn recalled_plane(color: Rgba, cpi: ColoredPlaneInstance) -> ColoredPlane {
    ColoredPlane {
        billboard: false,
        color,
        place: Placement {
            translation: Triple { x: cpi.x, y: cpi.y, z: cpi.z },
            angles: Some(Triple { x: cpi.a, y: cpi.b, z: cpi.c }),
            scale: Some(Triple { x: cpi.r, y: cpi.t, z: cpi.s }),
        },
        save: false,
    }
}

/// The record `cpi` of a plane that faces the camera, as a plane to be put into the room: not to
/// be remembered again.
pub open spec fn recalled_facing_plane(
    color: Rgba,
    cpi: ColoredPlaneInstanceBillboard,
) -> ColoredPlane {
    ColoredPlane {
        billboard: true,
        color,
        place: Placement {
            translation: Triple { x: cpi.x, y: cpi.y, z: cpi.z },
            angles: None,
            scale: Some(Triple { x: cpi.r, y: cpi.t, z: cpi.s }),
        },
        save: false,
    }
}

/// What is put into the room for `found`, one by one and in order.
pub open spec fn recalled_planes(found: Seq<(Rgba, ColoredPlaneInstance)>) -> Seq<ColoredPlane> {
    found.map_values(|f: (Rgba, ColoredPlaneInstance)| recalled_plane(f.0, f.1))
}

/// What is put into the room for `found`, one by one and in order.
pub open spec fn recalled_facing_planes(found: Seq<(Rgba, ColoredPlaneInstanceBillboard)>) -> Seq<
    ColoredPlane,
> {
    found.map_values(|f: (Rgba, ColoredPlaneInstanceBillboard)| recalled_facing_plane(f.0, f.1))
}

/// Works out what is put into the room for the planes that stand as they were put, in their order.
pub fn recall_planes(found: &Vec<(Rgba, ColoredPlaneInstance)>) -> (r: Vec<ColoredPlane>)
    ensures
        r@ == recalled_planes(found@),
{
    let mut r: Vec<ColoredPlane> = Vec::new();
    let mut i: usize = 0;
    while i < found.len()
        invariant
            i <= found@.len(),
            r@.len() == i,
            forall|j: int|
                0 <= j < i ==> #[trigger] r@[j] == recalled_plane(found@[j].0, found@[j].1),
        decreases found@.len() - i,
    {
        let (color, cpi) = found[i];
        r.push(
            ColoredPlane {
                billboard: false,
                color,
                place: Placement {
                    translation: Triple { x: cpi.x, y: cpi.y, z: cpi.z },
                    angles: Some(Triple { x: cpi.a, y: cpi.b, z: cpi.c }),
                    scale: Some(Triple { x: cpi.r, y: cpi.t, z: cpi.s }),
                },
                save: false,
            },
        );
        i = i + 1;
    }
    r
}

/// Works out what is put into the room for the planes that face the camera, in their order.
pub fn recall_facing_planes(found: &Vec<(Rgba, ColoredPlaneInstanceBillboard)>) -> (r: Vec<
    ColoredPlane,
>)
    ensures
        r@ == recalled_facing_planes(found@),
{
    let mut r: Vec<ColoredPlane> = Vec::new();
    let mut i: usize = 0;
    while i < found.len()
        invariant
            i <= found@.len(),
            r@.len() == i,
            forall|j: int|
                0 <= j < i ==> #[trigger] r@[j] == recalled_facing_plane(found@[j].0, found@[j].1),
        decreases found@.len() - i,
    {
        let (color, cpi) = found[i];
        r.push(
            ColoredPlane {
                billboard: true,
                color,
                place: Placement {
                    translation: Triple { x: cpi.x, y: cpi.y, z: cpi.z },
                    angles: None,
                    scale: Some(Triple { x: cpi.r, y: cpi.t, z: cpi.s }),
                },
                save: false,
            },
        );
        i = i + 1;
    }
    r
}

/// A text that was remembered comes back as it was put: with its words, its size, its colors and
/// its place, and with its angles unless it faces the camera.
pub proof fn remembered_text_comes_back(
    t: FloatingTextModel,
    tf: Pose,
    again: FloatingTextModel,
    place: Placement,
)
    requires
        placed(t, tf) matches Some(p) && (match p.keep {
            Keep::Nothing => false,
            Keep::Billboard { facing, .. } => recalls_text(t.text, facing, again, place),
            Keep::Fixed { fixed, .. } => recalls_fixed_text(t.text, fixed, again, place),
        }),
    ensures
        again.billboard == t.billboard,
        again.text == t.text,
        again.size == t.size,
        again.color == t.color,
        again.bg_color == Some(background(t.bg_color)),
        place.translation == tf.translation,
        place.angles == (if t.billboard {
            None
        } else {
            Some(tf.angles)
        }),
{
    let bg = background(t.bg_color);
    packed_fits(t.color, bg);
    packing_keeps_both_colors(again.color, again.bg_color->0, t.color, bg);
}

/// What was remembered is not remembered a second time when it is recalled.
pub proof fn recalled_text_is_not_kept_again(
    text: Seq<char>,
    ti: TextInstance,
    fixed: TextInstanceNonBillboard,
    t: FloatingTextModel,
    place: Placement,
    tf: Pose,
)
    requires
        recalls_text(text, ti, t, place) || recalls_fixed_text(text, fixed, t, place),
    ensures
        placed(t, tf) matches Some(p) ==> p.keep is Nothing && p.editing is None,
{
}

/// A plane that was remembered comes back at its place and in its size and color. The vector part
/// of its quaternion comes back as its angles, unless it faces the camera.
pub proof fn remembered_plane_comes_back(color: Rgba, tf: Pose)
    ensures
        recalled_plane(color, fixed_plane(tf)) == (ColoredPlane {
            billboard: false,
            color,
            place: Placement {
                translation: tf.translation,
                angles: Some(tf.turn),
                scale: Some(tf.scale),
            },
            save: false,
        }),
        recalled_facing_plane(color, facing_plane(tf)) == (ColoredPlane {
            billboard: true,
            color,
            place: Placement {
                translation: tf.translation,
                angles: None,
                scale: Some(tf.scale),
            },
            save: false,
        }),
{
}

/// Nothing is put up for an empty text, and something for any other. It is remembered just if that
/// is asked for: facing the camera, its own record at its place is replaced; else none is. It is
/// edited from its last byte on, just if that is asked for. Without a color behind it, that is clear.
pub proof fn placing_follows_what_is_asked(t: FloatingTextModel, tf: Pose)
    ensures
        placed(t, tf) is None <==> t.text.len() == 0,
        (match placed(t, tf) {
            Some(p) => {
                &&& t.bg_color matches Some(c) ==> p.bg_color == c
                &&& t.bg_color is None ==> p.bg_color == (Rgba { r: 0, g: 0, b: 0, a: 0 })
                &&& p.keep is Nothing <==> !t.save
                &&& p.keep is Billboard <==> t.save && t.billboard
                &&& p.keep is Fixed <==> t.save && !t.billboard
                &&& p.keep matches Keep::Billboard { facing, stale } ==> stale == Some(tf)
                    && facing.colors == packed(t.color, p.bg_color) && facing.size == t.size
                    && facing.x == tf.translation.x && facing.y == tf.translation.y && facing.z
                    == tf.translation.z
                &&& p.keep matches Keep::Fixed { fixed, stale } ==> stale is None && fixed.colors
                    == packed(t.color, p.bg_color) && fixed.size == t.size && fixed.x
                    == tf.translation.x && fixed.y == tf.translation.y && fixed.z
                    == tf.translation.z && fixed.a == tf.angles.x && fixed.b == tf.angles.y
                    && fixed.c == tf.angles.z
                &&& p.editing is Some <==> t.editing
                &&& p.editing matches Some(e) ==> e.idx == (byte_len(t.text) - 1) as usize
            },
            None => true,
        }),
{
    packed_fits(t.color, background(t.bg_color));
}

/// What is recalled of planes keeps number and order, and each its own color.
pub proof fn recalled_planes_keep_their_colors(
    found: Seq<(Rgba, ColoredPlaneInstance)>,
    facing: Seq<(Rgba, ColoredPlaneInstanceBillboard)>,
    i: int,
)
    ensures
        recalled_planes(found).len() == found.len(),
        recalled_facing_planes(facing).len() == facing.len(),
        0 <= i < found.len() ==> recalled_planes(found)[i].color == found[i].0
            && !recalled_planes(found)[i].billboard && !recalled_planes(found)[i].save,
        0 <= i < facing.len() ==> recalled_facing_planes(facing)[i].color == facing[i].0
            && recalled_facing_planes(facing)[i].billboard
            && !recalled_facing_planes(facing)[i].save,
{
}

/// A plane is remembered just if that is asked for, as what it is, at its place, and takes no
/// other's.
pub proof fn planes_are_kept_as_asked(tf: Pose, billboard: bool, save: bool)
    ensures
        plane_kept(tf, billboard, save) is Nothing <==> !save,
        plane_kept(tf, billboard, save) is Billboard <==> save && billboard,
        plane_kept(tf, billboard, save) is Fixed <==> save && !billboard,
        plane_kept(tf, billboard, save) matches Keep::Billboard { facing, stale } ==> stale is None
            && facing.x == tf.translation.x && facing.y == tf.translation.y && facing.z
            == tf.translation.z && facing.r == tf.scale.x && facing.t == tf.scale.y && facing.s
            == tf.scale.z,
        plane_kept(tf, billboard, save) matches Keep::Fixed { fixed, stale } ==> stale is None
            && fixed.x == tf.translation.x && fixed.y == tf.translation.y && fixed.z
            == tf.translation.z && fixed.a == tf.turn.x && fixed.b == tf.turn.y && fixed.c
            == tf.turn.z && fixed.r == tf.scale.x && fixed.t == tf.scale.y && fixed.s == tf.scale.z,
{
}

/// A text that is recalled has the words, the size and the colors of its record, and stands where
/// the record says; it is turned just if it does not face the camera, and in its own size. It is
/// neither remembered again nor edited.
pub proof fn recalled_texts_follow_their_records(
    text: Seq<char>,
    ti: TextInstance,
    fixed: TextInstanceNonBillboard,
    t: FloatingTextModel,
    place: Placement,
)
    ensures
        recalls_text(text, ti, t, place) <==> {
            &&& t.text == text && t.billboard && !t.save && !t.editing
            &&& t.size == ti.size
            &&& t.bg_color matches Some(bg) && packed(t.color, bg) == ti.colors
            &&& place.translation.x == ti.x && place.translation.y == ti.y && place.translation.z
                == ti.z
            &&& place.angles is None && place.scale is None
        },
        recalls_fixed_text(text, fixed, t, place) <==> {
            &&& t.text == text && !t.billboard && !t.save && !t.editing
            &&& t.size == fixed.size
            &&& t.bg_color matches Some(bg) && packed(t.color, bg) == fixed.colors
            &&& place.translation.x == fixed.x && place.translation.y == fixed.y
                && place.translation.z == fixed.z
            &&& place.angles matches Some(turn) && turn.x == fixed.a && turn.y == fixed.b && turn.z
                == fixed.c
            &&& place.scale is None
        },
{
}

/// A plane that is recalled stands where its record says, in the size that it says; it is turned by
/// what the record holds, just if it does not face the camera.
pub proof fn recalled_planes_follow_their_records(
    color: Rgba,
    cpi: ColoredPlaneInstance,
    facing: ColoredPlaneInstanceBillboard,
)
    ensures
        ({
            let p = recalled_plane(color, cpi).place;
            &&& p.translation.x == cpi.x && p.translation.y == cpi.y && p.translation.z == cpi.z
            &&& p.angles matches Some(turn) && turn.x == cpi.a && turn.y == cpi.b && turn.z == cpi.c
            &&& p.scale matches Some(size) && size.x == cpi.r && size.y == cpi.t && size.z == cpi.s
        }),
        ({
            let p = recalled_facing_plane(color, facing).place;
            &&& p.translation.x == facing.x && p.translation.y == facing.y && p.translation.z
                == facing.z
            &&& p.angles is None
            &&& p.scale matches Some(size) && size.x == facing.r && size.y == facing.t && size.z
                == facing.s
        }),
{
}

} // verus!
