//! The records that texts, planes and looking places are remembered as.

use vstd::prelude::*;
use crate::codec::{
    attach_plane, attach_text, attached, code, code_of_plane, detach_text, detached,
    found_has_meaning, is_decoder, is_encoder, keyed_records, meaning, meaning_is_found,
    meaning_is_found_once, meaning_of_found, meanings, means_only, plane_attached, reads_back,
    restore, restore_rows, was_still_there, write_down,
};
use crate::color::{color_pair_to_u64, packed, Rgba};
use crate::rows::{
    listed, part_is_within, plane_rows, planes_are_listed_once, planes_ascend, read_as,
    read_is_part, read_planes, read_texts, row_views, saved_planes_name, saved_texts_name,
    text_rows, texts_are_listed_once, texts_ascend, SavedPlanes, SavedTexts,
};
use crate::space::{Placement, Pose, Scalar, Triple};
use crate::store::{
    has_at_most, is_last, is_nth, latest_place, lookup, numbered_place, place_at,
    place_table_for, place_table_name, places, plane_pairs, plane_table_for, plane_table_name,
    save_place, saved_places, saved_table_name, settled, text_pairs, text_table_for,
    text_table_name, Ending, PlaceTable, PlaneTable, SavedPlaces, StoreError, TextTable,
};

verus! {

/// A text that faces the camera.
#[derive(Clone, Copy, Debug, PartialEq, Eq, Structural)]
pub struct TextInstance {
    /// The color of the text and the one behind it, as one number.
    pub colors: u64,
    pub size: Scalar,
    pub x: Scalar,
    pub y: Scalar,
    pub z: Scalar,
}

/// The record of a text that faces the camera.
pub open spec fn text_instance(c: Rgba, bg_c: Rgba, size: Scalar, tf: Pose) -> TextInstance {
    TextInstance {
        colors: packed(c, bg_c) as u64,
        size,
        x: tf.translation.x,
        y: tf.translation.y,
        z: tf.translation.z,
    }
}

/// Whether `found` is what a table with the rows `rows` gives back, read by `decode`: all that
/// could be read, with the last failure.
pub open spec fn recalled<K, R, D: Fn(&[u8]) -> Option<R>>(
    decode: D,
    rows: Seq<(K, Seq<Seq<u8>>)>,
    found: Seq<(K, R)>,
    failure: Option<StoreError>,
) -> bool {
    exists|read: Seq<(K, Seq<u8>)>| #[trigger]
        read_as(rows, read, failure) && found == meanings(decode, read)
}

/// How a transaction is to end that may have found nothing to do.
pub open spec fn ending_of(present: bool) -> Ending {
    if present {
        Ending::Abort
    } else {
        Ending::Commit
    }
}

impl TextInstance {
    /// The same text at another place.
    pub open spec fn at(self, tf: Pose) -> TextInstance {
        TextInstance {
            x: tf.translation.x,
            y: tf.translation.y,
            z: tf.translation.z,
            ..self
        }
    }

    /// The record that is taken out where the text came from `rm_old`.
    pub open spec fn stale(self, rm_old: Option<&Pose>) -> Option<TextInstance> {
        match rm_old {
            Some(tf) => Some(self.at(*tf)),
            None => None,
        }
    }

    /// The record of a text of the colors `c` on `bg_c` at `tf`.
    pub fn new(c: Rgba, bg_c: Rgba, size: Scalar, tf: &Pose) -> (r: Self)
        ensures
            r == text_instance(c, bg_c, size, *tf),
            r.colors == packed(c, bg_c),
    {
        TextInstance {
            colors: color_pair_to_u64(c, bg_c),
            size,
            x: tf.translation.x,
            y: tf.translation.y,
            z: tf.translation.z,
        }
    }

    /// Remembers the text, and forgets the one like it at `rm_old`, if that is given. Says how the
    /// transaction is to end: what was remembered before is left alone.
    pub fn attach<F: Fn(&TextInstance) -> Vec<u8>>(
        &self,
        t: &mut TextTable<'_>,
        text: &str,
        rm_old: Option<&Pose>,
        encode: F,
    ) -> (r: Result<Ending, StoreError>)
        requires
            text_table_name(*old(t)) == text_table_for(true),
            is_encoder(encode),
        ensures
            (match r {
                Ok(ending) => {
                    let (before, stale) = (text_pairs(*old(t)), self.stale(rm_old));
                    &&& text_pairs(*final(t)) == attached(encode, before, text@, stale, *self)
                    &&& ending == ending_of(was_still_there(encode, before, text@, stale, *self))
                },
                Err(e) => e is Storage,
            }),
            text_table_name(*final(t)) == text_table_name(*old(t)),
    {
        let stale = match rm_old {
            Some(tf) => Some(
                TextInstance {
                    colors: self.colors,
                    size: self.size,
                    x: tf.translation.x,
                    y: tf.translation.y,
                    z: tf.translation.z,
                },
            ),
            None => None,
        };
        match attach_text(t, text, stale, self, encode) {
            Ok(present) => if present {
                Ok(Ending::Abort)
            } else {
                Ok(Ending::Commit)
            },
            Err(e) => Err(e),
        }
    }

    /// All texts that face the camera, with their records: those that could be read. A failure
    /// to read the table comes beside them.
    pub fn instantiate<F: Fn(&[u8]) -> Option<TextInstance>>(
        t: &SavedTexts,
        decode: F,
    ) -> (r: Result<(Vec<(String, TextInstance)>, Option<StoreError>), StoreError>)
        requires
            saved_texts_name(*t) == text_table_for(true),
            is_decoder(decode),
        ensures
            (match r {
                Ok(found) => {
                    &&& texts_ascend(text_rows(*t))
                    &&& recalled(decode, text_rows(*t), keyed_records(found.0@), found.1)
                },
                Err(e) => e is Storage,
            }),
    {
        match read_texts(t) {
            Ok((rows, failure)) => {
                assert(read_as(text_rows(*t), row_views(rows@), failure));
                Ok((restore_rows(rows, decode), failure))
            },
            Err(e) => Err(e),
        }
    }

    /// Forgets the text. The transaction is to be committed.
    pub fn remove<F: Fn(&TextInstance) -> Vec<u8>>(
        &self,
        t: &mut TextTable<'_>,
        text: &str,
        encode: F,
    ) -> (r: Result<Ending, StoreError>)
        requires
            text_table_name(*old(t)) == text_table_for(true),
            is_encoder(encode),
        ensures
            (match r {
                Ok(ending) => {
                    &&& text_pairs(*final(t)) == detached(
                        encode,
                        text_pairs(*old(t)),
                        text@,
                        *self,
                    )
                    &&& ending == Ending::Commit
                },
                Err(e) => e is Storage,
            }),
            text_table_name(*final(t)) == text_table_name(*old(t)),
    {
        match detach_text(t, text, self, encode) {
            Ok(_) => Ok(Ending::Commit),
            Err(e) => Err(e),
        }
    }
}

/// A text that stands as it was put.
#[derive(Clone, Copy, Debug, PartialEq, Eq, Structural)]
pub struct TextInstanceNonBillboard {
    /// The color of the text and the one behind it, as one number.
    pub colors: u64,
    pub size: Scalar,
    pub x: Scalar,
    pub y: Scalar,
    pub z: Scalar,
    pub a: Scalar,
    pub b: Scalar,
    pub c: Scalar,
}

/// The record of a text that stands as it was put.
pub open spec fn fixed_text_instance(
    color: Rgba,
    bg_color: Rgba,
    size: Scalar,
    tf: Pose,
) -> TextInstanceNonBillboard {
    TextInstanceNonBillboard {
        colors: packed(color, bg_color) as u64,
        size,
        x: tf.translation.x,
        y: tf.translation.y,
        z: tf.translation.z,
        a: tf.angles.x,
        b: tf.angles.y,
        c: tf.angles.z,
    }
}

impl TextInstanceNonBillboard {
    /// The same text at another place, turned as it is there.
    pub open spec fn at(self, tf: Pose) -> TextInstanceNonBillboard {
        TextInstanceNonBillboard {
            x: tf.translation.x,
            y: tf.translation.y,
            z: tf.translation.z,
            a: tf.angles.x,
            b: tf.angles.y,
            c: tf.angles.z,
            ..self
        }
    }

    /// The record that is taken out where the text came from `rm_old`.
    pub open spec fn stale(self, rm_old: Option<&Pose>) -> Option<TextInstanceNonBillboard> {
        match rm_old {
            Some(tf) => Some(self.at(*tf)),
            None => None,
        }
    }

    /// The record of a text of the colors `color` on `bg_color` at `tf`.
    pub fn new(color: Rgba, bg_color: Rgba, size: Scalar, tf: &Pose) -> (r: Self)
        ensures
            r == fixed_text_instance(color, bg_color, size, *tf),
            r.colors == packed(color, bg_color),
    {
        TextInstanceNonBillboard {
            colors: color_pair_to_u64(color, bg_color),
            size,
            x: tf.translation.x,
            y: tf.translation.y,
            z: tf.translation.z,
            a: tf.angles.x,
            b: tf.angles.y,
            c: tf.angles.z,
        }
    }

    /// Remembers the text, and forgets the one like it at `rm_old`, if that is given. The
    /// transaction is to be committed.
    pub fn attach<F: Fn(&TextInstanceNonBillboard) -> Vec<u8>>(
        &self,
        t: &mut TextTable<'_>,
        text: &str,
        rm_old: Option<&Pose>,
        encode: F,
    ) -> (r: Result<Ending, StoreError>)
        requires
            text_table_name(*old(t)) == text_table_for(false),
            is_encoder(encode),
        ensures
            (match r {
                Ok(ending) => {
                    &&& text_pairs(*final(t)) == attached(
                        encode,
                        text_pairs(*old(t)),
                        text@,
                        self.stale(rm_old),
                        *self,
                    )
                    &&& ending == Ending::Commit
                },
                Err(e) => e is Storage,
            }),
            text_table_name(*final(t)) == text_table_name(*old(t)),
    {
        let stale = match rm_old {
            Some(tf) => Some(
                TextInstanceNonBillboard {
                    colors: self.colors,
                    size: self.size,
                    x: tf.translation.x,
                    y: tf.translation.y,
                    z: tf.translation.z,
                    a: tf.angles.x,
                    b: tf.angles.y,
                    c: tf.angles.z,
                },
            ),
            None => None,
        };
        match attach_text(t, text, stale, self, encode) {
            Ok(_) => Ok(Ending::Commit),
            Err(e) => Err(e),
        }
    }

    /// All texts that stand as they were put, with their records: those that could be read. A
    /// failure to read the table comes beside them.
    pub fn instantiate<F: Fn(&[u8]) -> Option<TextInstanceNonBillboard>>(
        t: &SavedTexts,
        decode: F,
    ) -> (r: Result<(Vec<(String, TextInstanceNonBillboard)>, Option<StoreError>), StoreError>)
        requires
            saved_texts_name(*t) == text_table_for(false),
            is_decoder(decode),
        ensures
            (match r {
                Ok(found) => {
                    &&& texts_ascend(text_rows(*t))
                    &&& recalled(decode, text_rows(*t), keyed_records(found.0@), found.1)
                },
                Err(e) => e is Storage,
            }),
    {
        match read_texts(t) {
            Ok((rows, failure)) => {
                assert(read_as(text_rows(*t), row_views(rows@), failure));
                Ok((restore_rows(rows, decode), failure))
            },
            Err(e) => Err(e),
        }
    }

    /// Forgets the text. The transaction is to be committed.
    pub fn remove<F: Fn(&TextInstanceNonBillboard) -> Vec<u8>>(
        &self,
        t: &mut TextTable<'_>,
        text: &str,
        encode: F,
    ) -> (r: Result<Ending, StoreError>)
        requires
            text_table_name(*old(t)) == text_table_for(false),
            is_encoder(encode),
        ensures
            (match r {
                Ok(ending) => {
                    &&& text_pairs(*final(t)) == detached(
                        encode,
                        text_pairs(*old(t)),
                        text@,
                        *self,
                    )
                    &&& ending == Ending::Commit
                },
                Err(e) => e is Storage,
            }),
            text_table_name(*final(t)) == text_table_name(*old(t)),
    {
        match detach_text(t, text, self, encode) {
            Ok(_) => Ok(Ending::Commit),
            Err(e) => Err(e),
        }
    }
}

/// A plane that stands as it was put.
#[derive(Clone, Copy, Debug, PartialEq, Eq, Structural)]
pub struct ColoredPlaneInstance {
    pub x: Scalar,
    pub y: Scalar,
    pub z: Scalar,
    pub a: Scalar,
    pub b: Scalar,
    pub c: Scalar,
    pub r: Scalar,
    pub t: Scalar,
    pub s: Scalar,
}

/// The record of a plane that stands as it was put, at `tf`.
pub open spec fn fixed_plane(tf: Pose) -> ColoredPlaneInstance {
    ColoredPlaneInstance {
        x: tf.translation.x,
        y: tf.translation.y,
        z: tf.translation.z,
        a: tf.turn.x,
        b: tf.turn.y,
        c: tf.turn.z,
        r: tf.scale.x,
        t: tf.scale.y,
        s: tf.scale.z,
    }
}

impl ColoredPlaneInstance {
    /// The record of a plane at `tf`.
    pub fn new(tf: Pose) -> (r: Self)
        ensures
            r == fixed_plane(tf),
    {
        ColoredPlaneInstance {
            x: tf.translation.x,
            y: tf.translation.y,
            z: tf.translation.z,
            a: tf.turn.x,
            b: tf.turn.y,
            c: tf.turn.z,
            r: tf.scale.x,
            t: tf.scale.y,
            s: tf.scale.z,
        }
    }

    /// Remembers the plane, and forgets `stale`, if that is given. The transaction is to be
    /// committed.
    pub fn attach<F: Fn(&ColoredPlaneInstance) -> Vec<u8>>(
        &self,
        t: &mut PlaneTable<'_>,
        color: Rgba,
        stale: Option<(Rgba, ColoredPlaneInstance)>,
        encode: F,
    ) -> (r: Result<Ending, StoreError>)
        requires
            plane_table_name(*old(t)) == plane_table_for(false),
            is_encoder(encode),
        ensures
            (match r {
                Ok(ending) => {
                    &&& plane_pairs(*final(t)) == plane_attached(
                        encode,
                        plane_pairs(*old(t)),
                        color,
                        *self,
                        stale,
                    )
                    &&& ending == Ending::Commit
                },
                Err(e) => e is Storage,
            }),
            plane_table_name(*final(t)) == plane_table_name(*old(t)),
    {
        match attach_plane(t, color, self, stale, encode) {
            Ok(_) => Ok(Ending::Commit),
            Err(e) => Err(e),
        }
    }

    /// All planes that stand as they were put, by their colors: those that could be read. A
    /// failure to read the table comes beside them.
    pub fn instantiate<F: Fn(&[u8]) -> Option<ColoredPlaneInstance>>(
        t: &SavedPlanes,
        decode: F,
    ) -> (r: Result<(Vec<(Rgba, ColoredPlaneInstance)>, Option<StoreError>), StoreError>)
        requires
            saved_planes_name(*t) == plane_table_for(false),
            is_decoder(decode),
        ensures
            (match r {
                Ok(found) => {
                    &&& planes_ascend(plane_rows(*t))
                    &&& recalled(decode, plane_rows(*t), found.0@, found.1)
                },
                Err(e) => e is Storage,
            }),
    {
        match read_planes(t) {
            Ok((rows, failure)) => {
                assert(read_as(plane_rows(*t), row_views(rows@), failure));
                let found = restore_rows(rows, decode);
                assert(keyed_records(found@) =~= found@);
                Ok((found, failure))
            },
            Err(e) => Err(e),
        }
    }
}

/// A plane that faces the camera.
#[derive(Clone, Copy, Debug, PartialEq, Eq, Structural)]
pub struct ColoredPlaneInstanceBillboard {
    pub x: Scalar,
    pub y: Scalar,
    pub z: Scalar,
    pub r: Scalar,
    pub t: Scalar,
    pub s: Scalar,
}

/// The record of a plane that faces the camera, at `tf`.
pub open spec fn facing_plane(tf: Pose) -> ColoredPlaneInstanceBillboard {
    ColoredPlaneInstanceBillboard {
        x: tf.translation.x,
        y: tf.translation.y,
        z: tf.translation.z,
        r: tf.scale.x,
        t: tf.scale.y,
        s: tf.scale.z,
    }
}

impl ColoredPlaneInstanceBillboard {
    /// The record of a plane at `tf`.
    pub fn new(tf: Pose) -> (r: Self)
        ensures
            r == facing_plane(tf),
    {
        ColoredPlaneInstanceBillboard {
            x: tf.translation.x,
            y: tf.translation.y,
            z: tf.translation.z,
            r: tf.scale.x,
            t: tf.scale.y,
            s: tf.scale.z,
        }
    }

    /// Remembers the plane, and forgets `stale`, if that is given. The transaction is to be
    /// committed.
    pub fn attach<F: Fn(&ColoredPlaneInstanceBillboard) -> Vec<u8>>(
        &self,
        t: &mut PlaneTable<'_>,
        color: Rgba,
        stale: Option<(Rgba, ColoredPlaneInstanceBillboard)>,
        encode: F,
    ) -> (r: Result<Ending, StoreError>)
        requires
            plane_table_name(*old(t)) == plane_table_for(true),
            is_encoder(encode),
        ensures
            (match r {
                Ok(ending) => {
                    &&& plane_pairs(*final(t)) == plane_attached(
                        encode,
                        plane_pairs(*old(t)),
                        color,
                        *self,
                        stale,
                    )
                    &&& ending == Ending::Commit
                },
                Err(e) => e is Storage,
            }),
            plane_table_name(*final(t)) == plane_table_name(*old(t)),
    {
        match attach_plane(t, color, self, stale, encode) {
            Ok(_) => Ok(Ending::Commit),
            Err(e) => Err(e),
        }
    }

    /// All planes that face the camera, by their colors: those that could be read. A failure
    /// to read the table comes beside them.
    pub fn instantiate<F: Fn(&[u8]) -> Option<ColoredPlaneInstanceBillboard>>(
        t: &SavedPlanes,
        decode: F,
    ) -> (r: Result<(Vec<(Rgba, ColoredPlaneInstanceBillboard)>, Option<StoreError>), StoreError>)
        requires
            saved_planes_name(*t) == plane_table_for(true),
            is_decoder(decode),
        ensures
            (match r {
                Ok(found) => {
                    &&& planes_ascend(plane_rows(*t))
                    &&& recalled(decode, plane_rows(*t), found.0@, found.1)
                },
                Err(e) => e is Storage,
            }),
    {
        match read_planes(t) {
            Ok((rows, failure)) => {
                assert(read_as(plane_rows(*t), row_views(rows@), failure));
                let found = restore_rows(rows, decode);
                assert(keyed_records(found@) =~= found@);
                Ok((found, failure))
            },
            Err(e) => Err(e),
        }
    }
}

/// A place and a way to look from it.
#[derive(Clone, Copy, Debug, PartialEq, Eq, Structural)]
pub struct LookingPlace {
    pub x: Scalar,
    pub y: Scalar,
    pub z: Scalar,
    pub a: Scalar,
    pub b: Scalar,
    pub c: Scalar,
}

/// The looking place of a camera at `tf`.
pub open spec fn looking_place(tf: Pose) -> LookingPlace {
    LookingPlace {
        x: tf.translation.x,
        y: tf.translation.y,
        z: tf.translation.z,
        a: tf.angles.x,
        b: tf.angles.y,
        c: tf.angles.z,
    }
}

/// Where the looking place `lp` puts the camera.
pub open spec fn looking_placement(lp: LookingPlace) -> Placement {
    Placement {
        translation: Triple { x: lp.x, y: lp.y, z: lp.z },
        angles: Some(Triple { x: lp.a, y: lp.b, z: lp.c }),
        scale: None,
    }
}

/// Why no looking place was found.
pub enum PlaceError {
    /// The table could not be read.
    Store(StoreError),
    /// There is none of that second, or its record cannot be read.
    NotThen,
    /// There is none at all or of that number, or its record cannot be read.
    NoneSuch,
}

impl PlaceError {
    /// What there is to say, where the table is not to blame.
    pub fn excuse(&self) -> (r: Option<&'static str>)
        ensures
            (match *self {
                PlaceError::Store(_) => r is None,
                PlaceError::NotThen => r matches Some(s) && s@
                    == "didn't find that looking place from that time"@,
                PlaceError::NoneSuch => r matches Some(s) && s@
                    == "didn't find any looking places"@,
            }),
    {
        match self {
            PlaceError::Store(_) => None,
            PlaceError::NotThen => Some("didn't find that looking place from that time"),
            PlaceError::NoneSuch => Some("didn't find any looking places"),
        }
    }
}

/// The time is before the epoch that seconds are counted from.
#[derive(Clone, Copy, Debug, PartialEq, Eq, Structural)]
pub struct ClockError;

/// The second that is `dur` seconds from now; `since_epoch` is what the clock shows, if it shows
/// a time since the epoch.
pub fn unix_now(since_epoch: Option<u64>, dur: u64) -> (r: Result<u64, ClockError>)
    requires
        since_epoch matches Some(secs) ==> secs + dur <= u64::MAX,
    ensures
        (match since_epoch {
            Some(secs) => r matches Ok(ts) && ts == secs + dur,
            None => r == Err::<u64, ClockError>(ClockError),
        }),
{
    match since_epoch {
        Some(secs) => Ok(secs + dur),
        None => Err(ClockError),
    }
}

impl LookingPlace {
    /// Saves the looking place of a camera at `tf`, under the second `ts`. Says how the
    /// transaction is to end: there is nothing to do where the very same place was saved.
    pub fn from_transform<F: Fn(&LookingPlace) -> Vec<u8>>(
        t: &mut PlaceTable<'_>,
        tf: &Pose,
        ts: u64,
        encode: F,
    ) -> (r: Result<(LookingPlace, Ending), StoreError>)
        requires
            place_table_name(*old(t)) == place_table_for(),
            is_encoder(encode),
        ensures
            (match r {
                Ok(saved) => {
                    &&& saved.0 == looking_place(*tf)
                    &&& places(*final(t)) == place_saved(encode, places(*old(t)), ts, saved.0)
                    &&& saved.1 == ending_of(place_was_saved(encode, places(*old(t)), ts, saved.0))
                },
                Err(e) => e is Storage,
            }),
            place_table_name(*final(t)) == place_table_name(*old(t)),
    {
        let lp = LookingPlace {
            x: tf.translation.x,
            y: tf.translation.y,
            z: tf.translation.z,
            a: tf.angles.x,
            b: tf.angles.y,
            c: tf.angles.z,
        };
        let bytes = write_down(&lp, &encode);
        match save_place(t, ts, bytes.as_slice()) {
            Ok(ending) => Ok((lp, ending)),
            Err(e) => Err(e),
        }
    }

    /// The looking place that was saved at the second `ts`.
    pub fn from_timestamp<F: Fn(&[u8]) -> Option<LookingPlace>>(
        t: &SavedPlaces,
        ts: u64,
        decode: F,
    ) -> (r: Result<LookingPlace, PlaceError>)
        requires
            saved_table_name(*t) == place_table_for(),
            is_decoder(decode),
        ensures
            (match r {
                Ok(lp) => meaning_of_found(decode, lookup(saved_places(*t), ts)) == Some(lp),
                Err(PlaceError::NotThen) => meaning_of_found(
                    decode,
                    lookup(saved_places(*t), ts),
                ) is None,
                Err(PlaceError::Store(e)) => e is Storage,
                Err(PlaceError::NoneSuch) => false,
            }),
    {
        match place_at(t, ts) {
            Ok(found) => match restore(&found, decode) {
                Some(lp) => Ok(lp),
                None => Err(PlaceError::NotThen),
            },
            Err(e) => Err(PlaceError::Store(e)),
        }
    }

    /// The looking place that was saved last, and its second.
    pub fn last<F: Fn(&[u8]) -> Option<LookingPlace>>(t: &SavedPlaces, decode: F) -> (r: Result<
        (LookingPlace, u64),
        PlaceError,
    >)
        requires
            saved_table_name(*t) == place_table_for(),
            is_decoder(decode),
        ensures
            (match r {
                Ok(found) => is_last(saved_places(*t), found.1) && meaning(
                    decode,
                    saved_places(*t)[found.1],
                ) == Some(found.0),
                Err(PlaceError::NoneSuch) => saved_places(*t) == Map::<u64, Seq<u8>>::empty()
                    || exists|ts: u64| #[trigger]
                    is_last(saved_places(*t), ts) && meaning(decode, saved_places(*t)[ts]) is None,
                Err(PlaceError::Store(e)) => e is Storage,
                Err(PlaceError::NotThen) => false,
            }),
    {
        match latest_place(t) {
            Ok(Some((ts, bytes))) => match restore(&Some(bytes), decode) {
                Some(lp) => Ok((lp, ts)),
                None => {
                    assert(is_last(saved_places(*t), ts));
                    Err(PlaceError::NoneSuch)
                },
            },
            Ok(None) => Err(PlaceError::NoneSuch),
            Err(e) => Err(PlaceError::Store(e)),
        }
    }

    /// The looking place with just `n` older ones. With a failure on the way to it none is found;
    /// the failure comes beside.
    pub fn nth<F: Fn(&[u8]) -> Option<LookingPlace>>(t: &SavedPlaces, n: usize, decode: F) -> (r: (
        Result<LookingPlace, PlaceError>,
        Option<StoreError>,
    ))
        requires
            saved_table_name(*t) == place_table_for(),
            is_decoder(decode),
        ensures
            (match r.0 {
                Ok(lp) => r.1 is None && exists|ts: u64| #[trigger]
                    is_nth(saved_places(*t), n as int, ts) && meaning(
                        decode,
                        saved_places(*t)[ts],
                    ) == Some(lp),
                Err(PlaceError::NoneSuch) => r.1 is None ==> (has_at_most(saved_places(*t), n as int) || (
                exists|ts: u64| #[trigger]
                    is_nth(saved_places(*t), n as int, ts) && meaning(
                        decode,
                        saved_places(*t)[ts],
                    ) is None)),
                Err(PlaceError::Store(e)) => r.1 is None && e is Storage,
                Err(PlaceError::NotThen) => false,
            }),
            r.1 matches Some(e) ==> e is Storage,
    {
        let numbered = numbered_place(t, n);
        assert(numbered matches Ok((Some(found), _)) ==> is_nth(
            saved_places(*t),
            n as int,
            found.0,
        ));
        LookingPlace::from_numbered(numbered, decode)
    }

    /// The looking place that was found by its number. One that was not found or that cannot be
    /// read is missing, whatever failed on the way; a failure at the place itself is the error.
    pub fn from_numbered<F: Fn(&[u8]) -> Option<LookingPlace>>(
        numbered: Result<(Option<(u64, Vec<u8>)>, Option<StoreError>), StoreError>,
        decode: F,
    ) -> (r: (Result<LookingPlace, PlaceError>, Option<StoreError>))
        requires
            is_decoder(decode),
        ensures
            (match numbered {
                Ok((Some(found), failure)) => r.1 == failure && match meaning(decode, found.1@) {
                    Some(lp) => r.0 == Ok::<LookingPlace, PlaceError>(lp),
                    None => r.0 == Err::<LookingPlace, PlaceError>(PlaceError::NoneSuch),
                },
                Ok((None, failure)) => r.1 == failure && r.0 == Err::<LookingPlace, PlaceError>(
                    PlaceError::NoneSuch,
                ),
                Err(e) => r.1 is None && r.0 == Err::<LookingPlace, PlaceError>(
                    PlaceError::Store(e),
                ),
            }),
    {
        match numbered {
            Ok((Some((_, bytes)), failure)) => match restore(&Some(bytes), decode) {
                Some(lp) => (Ok(lp), failure),
                None => (Err(PlaceError::NoneSuch), failure),
            },
            Ok((None, failure)) => (Err(PlaceError::NoneSuch), failure),
            Err(e) => (Err(PlaceError::Store(e)), None),
        }
    }
}

impl LookingPlace {
    /// Where the looking place puts the camera.
    pub fn to_transform(&self) -> (r: Placement)
        ensures
            r == looking_placement(*self),
    {
        Placement {
            translation: Triple { x: self.x, y: self.y, z: self.z },
            angles: Some(Triple { x: self.a, y: self.b, z: self.c }),
            scale: None,
        }
    }
}

/// What a table of looking places that held `before` holds once `lp` was saved under `ts`.
pub open spec fn place_saved<F: Fn(&LookingPlace) -> Vec<u8>>(
    encode: F,
    before: Map<u64, Seq<u8>>,
    ts: u64,
    lp: LookingPlace,
) -> Map<u64, Seq<u8>> {
    before.insert(ts, code(encode, lp))
}

/// Whether the very same place was saved under `ts`.
pub open spec fn place_was_saved<F: Fn(&LookingPlace) -> Vec<u8>>(
    encode: F,
    before: Map<u64, Seq<u8>>,
    ts: u64,
    lp: LookingPlace,
) -> bool {
    lookup(before, ts) == Some(code(encode, lp))
}

/// A table of looking places once `lp` was saved under `ts` and the transaction has ended as it
/// should.
pub open spec fn after_saving<F: Fn(&LookingPlace) -> Vec<u8>>(
    encode: F,
    before: Map<u64, Seq<u8>>,
    ts: u64,
    lp: LookingPlace,
) -> Map<u64, Seq<u8>> {
    settled(
        before,
        place_saved(encode, before, ts, lp),
        ending_of(place_was_saved(encode, before, ts, lp)),
    )
}

/// A place that was saved is recalled by its second: what is read there is what was written, and
/// so the same place, if `decode` reads it back. Other seconds keep their places.
pub proof fn saved_place_is_recalled<
    E: Fn(&LookingPlace) -> Vec<u8>,
    D: Fn(&[u8]) -> Option<LookingPlace>,
>(encode: E, decode: D, before: Map<u64, Seq<u8>>, ts: u64, lp: LookingPlace, other: u64)
    ensures
        lookup(after_saving(encode, before, ts, lp), ts) == Some(code(encode, lp)),
        meaning_of_found(decode, lookup(after_saving(encode, before, ts, lp), ts)) == meaning(
            decode,
            code(encode, lp),
        ),
        reads_back(encode, decode, lp) ==> meaning_of_found(
            decode,
            lookup(after_saving(encode, before, ts, lp), ts),
        ) == Some(lp),
        other != ts ==> lookup(after_saving(encode, before, ts, lp), other) == lookup(
            before,
            other,
        ),
{
}

/// A place that was saved is the one that is recalled as the last, unless the table holds one of a
/// later second.
pub proof fn saved_place_is_recalled_last<
    E: Fn(&LookingPlace) -> Vec<u8>,
    D: Fn(&[u8]) -> Option<LookingPlace>,
>(encode: E, decode: D, before: Map<u64, Seq<u8>>, ts: u64, lp: LookingPlace, found: u64)
    requires
        forall|k: u64| #[trigger] before.dom().contains(k) ==> k <= ts,
        is_last(after_saving(encode, before, ts, lp), found),
    ensures
        found == ts,
        after_saving(encode, before, ts, lp)[found] == code(encode, lp),
        reads_back(encode, decode, lp) ==> meaning(
            decode,
            after_saving(encode, before, ts, lp)[found],
        ) == Some(lp),
{
    let now = after_saving(encode, before, ts, lp);
    assert(now.dom().contains(ts));
    assert(before.dom().contains(found) ==> found <= ts);
}

/// A text that is remembered where it stands replaces its own record and no other.
pub proof fn text_replaces_itself(c: Rgba, bg_c: Rgba, size: Scalar, tf: Pose)
    ensures
        text_instance(c, bg_c, size, tf).stale(Some(&tf)) == Some(
            text_instance(c, bg_c, size, tf),
        ),
        fixed_text_instance(c, bg_c, size, tf).stale(Some(&tf)) == Some(
            fixed_text_instance(c, bg_c, size, tf),
        ),
{
}

/// A table of texts once the text was attached and the transaction has ended: committed, or as it
/// should by what was there.
pub open spec fn after_attaching<R, E: Fn(&R) -> Vec<u8>>(
    encode: E,
    before: Set<(Seq<char>, Seq<u8>)>,
    text: Seq<char>,
    stale: Option<R>,
    record: R,
    committed: bool,
) -> Set<(Seq<char>, Seq<u8>)> {
    settled(
        before,
        attached(encode, before, text, stale, record),
        if committed {
            Ending::Commit
        } else {
            ending_of(was_still_there(encode, before, text, stale, record))
        },
    )
}

/// Whether `pair` stays from each of `tables` to the next.
pub open spec fn stays<K>(tables: Seq<Set<(K, Seq<u8>)>>, pair: (K, Seq<u8>)) -> bool {
    forall|i: int|
        0 <= i < tables.len() - 1 && (#[trigger] tables[i]).contains(pair) ==> tables[i
            + 1].contains(pair)
}

/// What was in one of `tables` is in the last, if it was never taken out.
proof fn stays_to_the_end<K>(tables: Seq<Set<(K, Seq<u8>)>>, pair: (K, Seq<u8>), i: int)
    requires
        stays(tables, pair),
        0 <= i < tables.len(),
        tables[i].contains(pair),
    ensures
        tables.last().contains(pair),
    decreases tables.len() - i,
{
    if i < tables.len() - 1 {
        assert(tables[i + 1].contains(pair));
        stays_to_the_end(tables, pair, i + 1);
    }
}

/// All that a table lists is recalled where no read fails.
proof fn all_is_recalled<K, R, D: Fn(&[u8]) -> Option<R>>(
    decode: D,
    rows: Seq<(K, Seq<Seq<u8>>)>,
    found: Seq<(K, R)>,
)
    requires
        recalled(decode, rows, found, None),
    ensures
        found == meanings(decode, listed(rows)),
{
    let read = choose|read: Seq<(K, Seq<u8>)>| #[trigger]
        read_as(rows, read, None) && found == meanings(decode, read);
    read_is_part(rows, read, None);
}

/// Whether `found` gives back what was written as `bytes` under `key`: what `decode` makes of it,
/// if anything, and that once, unless it makes it of another record of the key in `pairs` too.
pub open spec fn gives_back<K, R, D: Fn(&[u8]) -> Option<R>>(
    decode: D,
    pairs: Set<(K, Seq<u8>)>,
    key: K,
    bytes: Seq<u8>,
    found: Seq<(K, R)>,
) -> bool {
    meaning(decode, bytes) matches Some(back) ==> {
        &&& found.contains((key, back))
        &&& means_only(decode, pairs, key, back, bytes) ==> found.to_multiset().count((key, back))
            == 1
    }
}

/// What a table holds is given back when it is read.
proof fn held_is_given_back<K, R, D: Fn(&[u8]) -> Option<R>>(
    decode: D,
    rows: Seq<(K, Seq<Seq<u8>>)>,
    found: Seq<(K, R)>,
    key: K,
    bytes: Seq<u8>,
)
    requires
        listed(rows).no_duplicates(),
        listed(rows).to_set().contains((key, bytes)),
        recalled(decode, rows, found, None),
    ensures
        listed(rows).to_multiset().count((key, bytes)) == 1,
        gives_back(decode, listed(rows).to_set(), key, bytes, found),
{
    let all = listed(rows);
    all_is_recalled(decode, rows, found);
    all.lemma_multiset_has_no_duplicates();
    broadcast use vstd::seq_lib::group_to_multiset_ensures;

    assert(all.to_multiset().contains((key, bytes)));
    if let Some(back) = meaning(decode, bytes) {
        meaning_is_found(decode, all, key, bytes, back);
        if means_only(decode, all.to_set(), key, back, bytes) {
            meaning_is_found_once(decode, all, key, bytes, back);
        }
    }
}

/// A text that was attached, once or more often, comes back when its table is read, with no failing
/// read: the table lists what was written just once, and what `decode` makes of it is found, just
/// once unless another record of the text is taken for the same. Where `decode` reads the record
/// back, it is the record itself.
///
/// The first of `tables` is what the transaction left, the last is what is read; the record was not
/// taken out between.
pub proof fn attached_text_comes_back<R, E: Fn(&R) -> Vec<u8>, D: Fn(&[u8]) -> Option<R>>(
    encode: E,
    decode: D,
    before: Set<(Seq<char>, Seq<u8>)>,
    text: Seq<char>,
    stale: Option<R>,
    record: R,
    committed: bool,
    tables: Seq<Set<(Seq<char>, Seq<u8>)>>,
    rows: Seq<(Seq<char>, Seq<Seq<u8>>)>,
    found: Seq<(Seq<char>, R)>,
)
    requires
        tables.len() > 0,
        tables[0] == after_attaching(encode, before, text, stale, record, committed),
        stays(tables, (text, code(encode, record))),
        listed(rows).to_set() == tables.last(),
        texts_ascend(rows),
        recalled(decode, rows, found, None),
    ensures
        listed(rows).to_multiset().count((text, code(encode, record))) == 1,
        gives_back(decode, tables.last(), text, code(encode, record), found),
        reads_back(encode, decode, record) ==> found.contains((text, record)),
        reads_back(encode, decode, record) && means_only(
            decode,
            tables.last(),
            text,
            record,
            code(encode, record),
        ) ==> found.to_multiset().count((text, record)) == 1,
{
    stays_to_the_end(tables, (text, code(encode, record)), 0);
    texts_are_listed_once(rows);
    held_is_given_back(decode, rows, found, text, code(encode, record));
}

/// Attaching a text again, wherever it comes from, does not take its record out of the table.
pub proof fn attaching_again_keeps_the_record<R, E: Fn(&R) -> Vec<u8>>(
    encode: E,
    before: Set<(Seq<char>, Seq<u8>)>,
    text: Seq<char>,
    stale: Option<R>,
    record: R,
    committed: bool,
)
    ensures
        stays(
            seq![before, after_attaching(encode, before, text, stale, record, committed)],
            (text, code(encode, record)),
        ),
{
}

/// A text that was removed does not come back when the table is read, unless another record of the
/// text is taken for the same.
pub proof fn removed_text_stays_away<R, E: Fn(&R) -> Vec<u8>, D: Fn(&[u8]) -> Option<R>>(
    encode: E,
    decode: D,
    before: Set<(Seq<char>, Seq<u8>)>,
    text: Seq<char>,
    record: R,
    rows: Seq<(Seq<char>, Seq<Seq<u8>>)>,
    found: Seq<(Seq<char>, R)>,
    failure: Option<StoreError>,
)
    requires
        listed(rows).to_set() == detached(encode, before, text, record),
        recalled(decode, rows, found, failure),
    ensures
        !listed(rows).contains((text, code(encode, record))),
        means_only(decode, before, text, record, code(encode, record)) ==> !found.contains(
            (text, record),
        ),
{
    assert(!listed(rows).to_set().contains((text, code(encode, record))));
    if means_only(decode, before, text, record, code(encode, record)) && found.contains(
        (text, record),
    ) {
        let bytes = nothing_is_invented(decode, rows, found, failure, text, record);
        assert(listed(rows).to_set().contains((text, bytes)));
        assert(before.contains((text, bytes)));
    }
}

/// Removing a text that was new when it was attached leaves the table as it was before, and
/// removing it once more changes nothing.
pub proof fn removing_undoes_attaching<R, E: Fn(&R) -> Vec<u8>>(
    encode: E,
    before: Set<(Seq<char>, Seq<u8>)>,
    text: Seq<char>,
    record: R,
)
    requires
        !before.contains((text, code(encode, record))),
    ensures
        detached(
            encode,
            after_attaching(encode, before, text, None, record, false),
            text,
            record,
        ) == before,
        detached(encode, before, text, record) == before,
{
    let between = after_attaching(encode, before, text, None, record, false);
    assert(detached(encode, between, text, record) =~= before);
    assert(detached(encode, before, text, record) =~= before);
}

/// Removing a text takes out its record and nothing else, and removing it twice is removing it
/// once.
pub proof fn removing_leaves_the_rest<R, E: Fn(&R) -> Vec<u8>>(
    encode: E,
    before: Set<(Seq<char>, Seq<u8>)>,
    text: Seq<char>,
    record: R,
    other: (Seq<char>, Seq<u8>),
)
    ensures
        detached(encode, before, text, record).contains(other) <==> before.contains(other) && other
            != (text, code(encode, record)),
        detached(encode, detached(encode, before, text, record), text, record) == detached(
            encode,
            before,
            text,
            record,
        ),
{
    let once = detached(encode, before, text, record);
    assert(detached(encode, once, text, record) =~= once);
}

/// A plane that was attached comes back when its table is read, with no failing read, unless it is
/// the very one that was to be taken out: the table lists what was written just once, and what
/// `decode` makes of it is found, just once unless another record of the color is taken for the
/// same. Where `decode` reads the record back, it is the record itself.
pub proof fn attached_plane_comes_back<R, E: Fn(&R) -> Vec<u8>, D: Fn(&[u8]) -> Option<R>>(
    encode: E,
    decode: D,
    before: Set<(Rgba, Seq<u8>)>,
    color: Rgba,
    record: R,
    stale: Option<(Rgba, R)>,
    tables: Seq<Set<(Rgba, Seq<u8>)>>,
    rows: Seq<(Rgba, Seq<Seq<u8>>)>,
    found: Seq<(Rgba, R)>,
)
    requires
        code_of_plane(encode, stale) != Some((color, code(encode, record))),
        tables.len() > 0,
        tables[0] == plane_attached(encode, before, color, record, stale),
        stays(tables, (color, code(encode, record))),
        listed(rows).to_set() == tables.last(),
        planes_ascend(rows),
        recalled(decode, rows, found, None),
    ensures
        listed(rows).to_multiset().count((color, code(encode, record))) == 1,
        gives_back(decode, tables.last(), color, code(encode, record), found),
        reads_back(encode, decode, record) ==> found.contains((color, record)),
        reads_back(encode, decode, record) && means_only(
            decode,
            tables.last(),
            color,
            record,
            code(encode, record),
        ) ==> found.to_multiset().count((color, record)) == 1,
{
    stays_to_the_end(tables, (color, code(encode, record)), 0);
    planes_are_listed_once(rows);
    held_is_given_back(decode, rows, found, color, code(encode, record));
}

/// Nothing comes back that the table does not hold: each record found is what `decode` makes of one
/// of its key, whether or not a read fails.
pub proof fn nothing_is_invented<K, R, D: Fn(&[u8]) -> Option<R>>(
    decode: D,
    rows: Seq<(K, Seq<Seq<u8>>)>,
    found: Seq<(K, R)>,
    failure: Option<StoreError>,
    key: K,
    record: R,
) -> (bytes: Seq<u8>)
    requires
        recalled(decode, rows, found, failure),
        found.contains((key, record)),
    ensures
        listed(rows).contains((key, bytes)),
        meaning(decode, bytes) == Some(record),
{
    let read = choose|read: Seq<(K, Seq<u8>)>| #[trigger]
        read_as(rows, read, failure) && found == meanings(decode, read);
    read_is_part(rows, read, failure);
    let bytes = found_has_meaning(decode, read, key, record);
    part_is_within(read, listed(rows), (key, bytes));
    bytes
}

/// Reading a table again gives the same, where no read fails.
pub proof fn recalling_again_gives_the_same<K, R, D: Fn(&[u8]) -> Option<R>>(
    decode: D,
    rows: Seq<(K, Seq<Seq<u8>>)>,
    found: Seq<(K, R)>,
    again: Seq<(K, R)>,
)
    requires
        recalled(decode, rows, found, None),
        recalled(decode, rows, again, None),
    ensures
        again == found,
{
    all_is_recalled(decode, rows, found);
    all_is_recalled(decode, rows, again);
}

/// A text that is put down where its record says leaves the table as it was, with the record in
/// it; and the transaction is committed.
pub proof fn putting_down_keeps_the_table<R, E: Fn(&R) -> Vec<u8>>(
    encode: E,
    before: Set<(Seq<char>, Seq<u8>)>,
    text: Seq<char>,
    record: R,
)
    requires
        before.contains((text, code(encode, record))),
    ensures
        attached(encode, before, text, Some(record), record) == before,
        ending_of(was_still_there(encode, before, text, Some(record), record)) == Ending::Commit,
{
    assert(attached(encode, before, text, Some(record), record) =~= before);
}

/// A text that is attached twice stays in the table once: the second time there is nothing to do.
pub proof fn attaching_twice_is_attaching_once<R, E: Fn(&R) -> Vec<u8>>(
    encode: E,
    before: Set<(Seq<char>, Seq<u8>)>,
    text: Seq<char>,
    record: R,
)
    ensures
        ({
            let once = attached(encode, before, text, None, record);
            &&& attached(encode, once, text, None, record) == once
            &&& ending_of(was_still_there(encode, once, text, None, record)) == Ending::Abort
        }),
{
    let once = attached(encode, before, text, None, record);
    assert(attached(encode, once, text, None, record) =~= once);
}

/// A record of a text holds its size, its place and, if it does not face the camera, its angles,
/// each under its own name; its colors are the two given, the text's first.
pub proof fn text_records_hold(c: Rgba, bg_c: Rgba, size: Scalar, tf: Pose)
    ensures
        text_instance(c, bg_c, size, tf).colors == packed(c, bg_c),
        text_instance(c, bg_c, size, tf).size == size,
        text_instance(c, bg_c, size, tf).x == tf.translation.x,
        text_instance(c, bg_c, size, tf).y == tf.translation.y,
        text_instance(c, bg_c, size, tf).z == tf.translation.z,
        fixed_text_instance(c, bg_c, size, tf).colors == packed(c, bg_c),
        fixed_text_instance(c, bg_c, size, tf).size == size,
        fixed_text_instance(c, bg_c, size, tf).x == tf.translation.x,
        fixed_text_instance(c, bg_c, size, tf).y == tf.translation.y,
        fixed_text_instance(c, bg_c, size, tf).z == tf.translation.z,
        fixed_text_instance(c, bg_c, size, tf).a == tf.angles.x,
        fixed_text_instance(c, bg_c, size, tf).b == tf.angles.y,
        fixed_text_instance(c, bg_c, size, tf).c == tf.angles.z,
{
    crate::color::packed_fits(c, bg_c);
}

/// The record that a moved text leaves is its own at the place it came from: with its colors and its
/// size, and with the place and the angles of before.
pub proof fn stale_record_is_at_the_old_place(
    ti: TextInstance,
    fixed: TextInstanceNonBillboard,
    from: Pose,
)
    ensures
        ti.stale(None) is None,
        fixed.stale(None) is None,
        ti.stale(Some(&from)) matches Some(r) && r.colors == ti.colors && r.size == ti.size && r.x
            == from.translation.x && r.y == from.translation.y && r.z == from.translation.z,
        fixed.stale(Some(&from)) matches Some(r) && r.colors == fixed.colors && r.size
            == fixed.size && r.x == from.translation.x && r.y == from.translation.y && r.z
            == from.translation.z && r.a == from.angles.x && r.b == from.angles.y && r.c
            == from.angles.z,
{
}

/// A looking place holds where the camera was and how it was turned, each number under its own name,
/// and puts the camera there again.
pub proof fn looking_place_holds(tf: Pose, lp: LookingPlace)
    ensures
        looking_place(tf).x == tf.translation.x,
        looking_place(tf).y == tf.translation.y,
        looking_place(tf).z == tf.translation.z,
        looking_place(tf).a == tf.angles.x,
        looking_place(tf).b == tf.angles.y,
        looking_place(tf).c == tf.angles.z,
        looking_place(
            Pose {
                translation: looking_placement(lp).translation,
                angles: looking_placement(lp).angles->0,
                ..tf
            },
        ) == lp,
        looking_placement(lp).scale is None,
{
}

/// A record of a plane holds its place and its size, and the vector part of its quaternion unless it
/// faces the camera, each number under its own name.
pub proof fn plane_records_hold(tf: Pose)
    ensures
        fixed_plane(tf).x == tf.translation.x,
        fixed_plane(tf).y == tf.translation.y,
        fixed_plane(tf).z == tf.translation.z,
        fixed_plane(tf).a == tf.turn.x,
        fixed_plane(tf).b == tf.turn.y,
        fixed_plane(tf).c == tf.turn.z,
        fixed_plane(tf).r == tf.scale.x,
        fixed_plane(tf).t == tf.scale.y,
        fixed_plane(tf).s == tf.scale.z,
        facing_plane(tf).x == tf.translation.x,
        facing_plane(tf).y == tf.translation.y,
        facing_plane(tf).z == tf.translation.z,
        facing_plane(tf).r == tf.scale.x,
        facing_plane(tf).t == tf.scale.y,
        facing_plane(tf).s == tf.scale.z,
{
}

/// A transaction is aborted just if it found nothing to do; and then the table is as it was, else as
/// it was left.
pub proof fn endings_settle<A>(before: A, after: A, present: bool)
    ensures
        ending_of(present) == Ending::Abort <==> present,
        settled(before, after, Ending::Commit) == after,
        settled(before, after, Ending::Abort) == before,
{
}

/// Attaching a text leaves its record in the table, whatever was there. It takes out the stale record
/// of the same text, unless that is the one attached, and touches no other pair.
pub proof fn attaching_exchanges_two_records<R, E: Fn(&R) -> Vec<u8>>(
    encode: E,
    before: Set<(Seq<char>, Seq<u8>)>,
    text: Seq<char>,
    stale: Option<R>,
    record: R,
    other: (Seq<char>, Seq<u8>),
)
    ensures
        attached(encode, before, text, stale, record).contains((text, code(encode, record))),
        stale matches Some(gone) ==> (attached(encode, before, text, stale, record).contains(
            (text, code(encode, gone)),
        ) <==> code(encode, gone) == code(encode, record)),
        other != (text, code(encode, record)) && (stale matches Some(gone) ==> other != (
            text,
            code(encode, gone),
        )) ==> (attached(encode, before, text, stale, record).contains(other)
            <==> before.contains(other)),
        stale is None ==> (was_still_there(encode, before, text, stale, record)
            <==> before.contains((text, code(encode, record)))),
        stale == Some(record) ==> !was_still_there(encode, before, text, stale, record),
{
}

/// Attaching a plane leaves its record in the table, takes the stale one out, which wins where they
/// are the same, and touches no other pair.
pub proof fn attaching_exchanges_two_planes<R, E: Fn(&R) -> Vec<u8>>(
    encode: E,
    before: Set<(Rgba, Seq<u8>)>,
    color: Rgba,
    record: R,
    stale: Option<(Rgba, R)>,
    other: (Rgba, Seq<u8>),
)
    ensures
        plane_attached(encode, before, color, record, stale).contains(other) <==> {
            &&& before.contains(other) || other == (color, code(encode, record))
            &&& stale matches Some(gone) ==> other != (gone.0, code(encode, gone.1))
        },
{
}

} // verus!
