use textspace::color::{color_pair_to_u64, u64_to_2_rgba_colors, Rgba};
use textspace::edit::Editing;
use textspace::rays::{bounces_on, MAX_BOUNCES};
use textspace::records::{
    unix_now, ClockError, ColoredPlaneInstance, ColoredPlaneInstanceBillboard, LookingPlace, PlaceError,
    TextInstance, TextInstanceNonBillboard,
};
use textspace::scene::{
    edit_finished, floating_txt, put_down, recall_facing_planes, recall_fixed_texts, recall_planes,
    recall_texts, spawn_colored_plane, taken_out, ColoredPlane, FloatingText, Keep,
};
use textspace::space::{Placement, Pose, Scalar, Triple};

fn scalar(x: f32) -> Scalar {
    Scalar { bits: x.to_bits() }
}

fn triple(x: f32, y: f32, z: f32) -> Triple {
    Triple { x: scalar(x), y: scalar(y), z: scalar(z) }
}

fn pose() -> Pose {
    Pose {
        translation: triple(1.0, 2.0, 3.0),
        angles: triple(0.1, 0.2, 0.3),
        turn: triple(0.4, 0.5, 0.6),
        scale: triple(7.0, 8.0, 9.0),
    }
}

const RED: Rgba = Rgba { r: 255, g: 0, b: 0, a: 255 };
const DIM: Rgba = Rgba { r: 1, g: 2, b: 3, a: 4 };

fn text(words: &str, billboard: bool, save: bool, editing: bool) -> FloatingText {
    FloatingText {
        billboard,
        text: words.to_string(),
        size: scalar(0.5),
        color: RED,
        bg_color: None,
        save,
        editing,
    }
}

#[test]
fn color_pairs_are_packed_big_end_first() {
    let n = color_pair_to_u64(RED, DIM);
    assert_eq!(n, 0xff00_00ff_0102_0304);
    assert_eq!(u64_to_2_rgba_colors(n), (RED, DIM));
    assert_eq!(u64_to_2_rgba_colors(0), (Rgba { r: 0, g: 0, b: 0, a: 0 }, Rgba { r: 0, g: 0, b: 0, a: 0 }));
    assert_eq!(color_pair_to_u64(DIM, RED), 0x0102_0304_ff00_00ff);
}

#[test]
fn empty_text_is_not_placed() {
    assert!(floating_txt(&text("", true, true, true), &pose()).is_none());
}

#[test]
fn text_is_placed_without_being_kept() {
    let p = floating_txt(&text("hi", true, false, false), &pose()).unwrap();
    assert_eq!(p.bg_color, Rgba { r: 0, g: 0, b: 0, a: 0 });
    assert!(matches!(p.keep, Keep::Nothing));
    assert_eq!(p.editing, None);
}

#[test]
fn facing_text_replaces_its_own_record() {
    let p = floating_txt(&text("hi", true, true, false), &pose()).unwrap();
    match p.keep {
        Keep::Billboard { facing: record, stale } => {
            assert_eq!(record.colors, 0xff00_00ff_0000_0000);
            assert_eq!(record.size, scalar(0.5));
            assert_eq!((record.x, record.y, record.z), (scalar(1.0), scalar(2.0), scalar(3.0)));
            assert_eq!(stale, Some(pose()));
        }
        _ => panic!("not kept"),
    }
}

#[test]
fn fixed_text_replaces_nothing() {
    let mut t = text("h\u{e9}", false, true, true);
    t.bg_color = Some(DIM);
    let p = floating_txt(&t, &pose()).unwrap();
    assert_eq!(p.bg_color, DIM);
    assert_eq!(p.editing, Some(Editing { idx: 2 }));
    match p.keep {
        Keep::Fixed { fixed: record, stale } => {
            assert_eq!(record.colors, 0xff00_00ff_0102_0304);
            assert_eq!((record.a, record.b, record.c), (scalar(0.1), scalar(0.2), scalar(0.3)));
            assert_eq!(stale, None);
        }
        _ => panic!("not kept"),
    }
}

#[test]
fn planes_are_kept_on_demand() {
    assert!(matches!(spawn_colored_plane(pose(), true, false), Keep::Nothing));
    match spawn_colored_plane(pose(), true, true) {
        Keep::Billboard { facing: record, stale } => {
            assert_eq!((record.r, record.t, record.s), (scalar(7.0), scalar(8.0), scalar(9.0)));
            assert_eq!(record, ColoredPlaneInstanceBillboard::new(pose()));
            assert_eq!(stale, None);
        }
        _ => panic!("not kept"),
    }
    match spawn_colored_plane(pose(), false, true) {
        Keep::Fixed { fixed: record, .. } => {
            assert_eq!((record.a, record.b, record.c), (scalar(0.4), scalar(0.5), scalar(0.6)));
            assert_eq!(record, ColoredPlaneInstance::new(pose()));
        }
        _ => panic!("not kept"),
    }
}

#[test]
fn remembered_texts_come_back() {
    let facing = TextInstance::new(RED, DIM, scalar(0.5), &pose());
    let back = recall_texts(&vec![("one".to_string(), facing), ("two".to_string(), facing)]);
    assert_eq!(back.len(), 2);
    let (t, place) = &back[1];
    assert_eq!(t.text, "two");
    assert!(t.billboard && !t.save && !t.editing);
    assert_eq!((t.color, t.bg_color, t.size), (RED, Some(DIM), scalar(0.5)));
    assert_eq!(
        *place,
        Placement { translation: triple(1.0, 2.0, 3.0), angles: None, scale: None }
    );
    assert!(matches!(floating_txt(t, &pose()).unwrap().keep, Keep::Nothing));

    let fixed = TextInstanceNonBillboard::new(DIM, RED, scalar(2.0), &pose());
    let back = recall_fixed_texts(&vec![("three".to_string(), fixed)]);
    let (t, place) = &back[0];
    assert_eq!(t.text, "three");
    assert!(!t.billboard && !t.save && !t.editing);
    assert_eq!((t.color, t.bg_color, t.size), (DIM, Some(RED), scalar(2.0)));
    assert_eq!(
        *place,
        Placement {
            translation: triple(1.0, 2.0, 3.0),
            angles: Some(triple(0.1, 0.2, 0.3)),
            scale: None
        }
    );
}

#[test]
fn remembered_planes_come_back() {
    let planes = recall_planes(&vec![(RED, ColoredPlaneInstance::new(pose()))]);
    assert_eq!(
        planes,
        vec![ColoredPlane {
            billboard: false,
            color: RED,
            place: Placement {
                translation: triple(1.0, 2.0, 3.0),
                angles: Some(triple(0.4, 0.5, 0.6)),
                scale: Some(triple(7.0, 8.0, 9.0)),
            },
            save: false,
        }]
    );
    let planes = recall_facing_planes(&vec![
        (DIM, ColoredPlaneInstanceBillboard::new(pose())),
        (RED, ColoredPlaneInstanceBillboard::new(pose())),
    ]);
    assert_eq!(planes.len(), 2);
    assert_eq!(planes[0].color, DIM);
    assert_eq!(
        planes[1],
        ColoredPlane {
            billboard: true,
            color: RED,
            place: Placement {
                translation: triple(1.0, 2.0, 3.0),
                angles: None,
                scale: Some(triple(7.0, 8.0, 9.0)),
            },
            save: false,
        }
    );
}

#[test]
fn clock_is_read_ahead() {
    assert_eq!(unix_now(Some(1700000000), 0), Ok(1700000000));
    assert_eq!(unix_now(Some(1700000000), 60), Ok(1700000060));
    assert_eq!(unix_now(None, 60), Err(ClockError));
}

#[test]
fn missing_places_are_excused() {
    assert_eq!(
        PlaceError::NotThen.excuse(),
        Some("didn't find that looking place from that time")
    );
    assert_eq!(PlaceError::NoneSuch.excuse(), Some("didn't find any looking places"));
}

#[test]
fn text_put_down_replaces_itself() {
    let facing = TextInstance::new(RED, DIM, scalar(0.5), &pose());
    let fixed = TextInstanceNonBillboard::new(RED, DIM, scalar(0.5), &pose());
    assert_eq!(
        put_down(true, RED, DIM, scalar(0.5), &pose()),
        Keep::Billboard { facing, stale: Some(pose()) }
    );
    assert_eq!(
        put_down(false, RED, DIM, scalar(0.5), &pose()),
        Keep::Fixed { fixed, stale: Some(pose()) }
    );
}

#[test]
fn text_taken_out_is_forgotten_where_it_stands() {
    let facing = TextInstance::new(RED, DIM, scalar(0.5), &pose());
    let fixed = TextInstanceNonBillboard::new(RED, DIM, scalar(0.5), &pose());
    assert_eq!(
        taken_out(true, RED, DIM, scalar(0.5), &pose()),
        Keep::Billboard { facing, stale: None }
    );
    assert_eq!(
        taken_out(false, RED, DIM, scalar(0.5), &pose()),
        Keep::Fixed { fixed, stale: None }
    );
}

#[test]
fn edited_text_is_kept_facing_the_camera() {
    let facing = TextInstance::new(RED, DIM, scalar(0.5), &pose());
    assert_eq!(
        edit_finished(RED, DIM, scalar(0.5), &pose()),
        Keep::Billboard { facing, stale: None }
    );
}

#[test]
fn looking_place_puts_the_camera() {
    let lp = LookingPlace {
        x: scalar(1.0),
        y: scalar(2.0),
        z: scalar(3.0),
        a: scalar(4.0),
        b: scalar(5.0),
        c: scalar(6.0),
    };
    assert_eq!(
        lp.to_transform(),
        Placement {
            translation: triple(1.0, 2.0, 3.0),
            angles: Some(triple(4.0, 5.0, 6.0)),
            scale: None
        }
    );
}

#[test]
fn rays_bounce_so_often() {
    assert_eq!(MAX_BOUNCES, 64);
    assert!(bounces_on(0, true));
    assert!(bounces_on(63, true));
    assert!(!bounces_on(64, true));
    assert!(!bounces_on(0, false));
}
