use cinematography_ir::model::{
    EulerDeg, NarrativeIntent, Num, Scene, Subject, SubjectKind, Transform, Vec3,
};
use cinematography_ir::palette::{color_for_index, palette_for_ids, scene_palette, Rgb, PALETTE_LEN};

fn zero() -> Vec3 {
    Vec3 { x: Num::Zero, y: Num::Zero, z: Num::Zero }
}

fn subject(id: &str, name: &str) -> Subject {
    Subject {
        id: id.to_owned(),
        name: name.to_owned(),
        kind: SubjectKind::Character,
        initial_transform: Transform {
            position: zero(),
            rotation_deg: EulerDeg { pitch: Num::Zero, yaw: Num::Zero, roll: Num::Zero },
            scale: Vec3 { x: Num::One, y: Num::One, z: Num::One },
        },
        dimensions_m: None,
    }
}

fn scene_with(subjects: Vec<Subject>) -> Scene {
    Scene {
        id: "s".to_owned(),
        title: "S".to_owned(),
        duration_frames: 24,
        narrative: NarrativeIntent {
            dramatic_question: None,
            themes: Vec::new(),
            desired_audience_state: Vec::new(),
            emotional_arc: Vec::new(),
        },
        subjects,
        markers: Vec::new(),
        axes: Vec::new(),
        blocking: Vec::new(),
        beats: Vec::new(),
        lighting_setups: Vec::new(),
        shots: Vec::new(),
        takes: Vec::new(),
        edit_timeline: Vec::new(),
    }
}

fn entry<'a>(
    palette: &'a [(String, cinematography_ir::palette::NamedColor)],
    id: &str,
) -> &'a cinematography_ir::palette::NamedColor {
    &palette.iter().find(|(key, _)| key == id).expect("id in palette").1
}

#[test]
fn palette_palette_wraps_with_tint() {
    let first = color_for_index(0);
    let wrapped = color_for_index(PALETTE_LEN);
    assert_eq!(first.name, wrapped.name);
    assert_ne!(first.rgb, wrapped.rgb);
    assert!(wrapped.rgb.r >= first.rgb.r);
}

#[test]
fn palette_tests_palette_wraps_with_tint() {
    let first = color_for_index(0);
    let wrapped = color_for_index(PALETTE_LEN);
    assert_eq!(first.name, wrapped.name);
    assert_ne!(first.rgb, wrapped.rgb);
    assert_eq!(wrapped.rgb, Rgb { r: 228, g: 101, b: 99 });
}

#[test]
fn tint_lightens_every_round_then_clamps_at_three() {
    let rounds: Vec<Rgb> = (0..5).map(|round| color_for_index(round * PALETTE_LEN).rgb).collect();
    assert_eq!(
        rounds,
        vec![
            Rgb { r: 220, g: 50, b: 47 },
            Rgb { r: 228, g: 101, b: 99 },
            Rgb { r: 237, g: 152, b: 151 },
            Rgb { r: 246, g: 203, b: 203 },
            Rgb { r: 246, g: 203, b: 203 },
        ]
    );
}

#[test]
fn palette_hex_formatting() {
    assert_eq!(Rgb { r: 255, g: 0, b: 16 }.hex(), "#ff0010");
}

#[test]
fn palette_tests_hex_formatting() {
    assert_eq!(Rgb { r: 255, g: 0, b: 16 }.hex(), "#ff0010");
}

#[test]
fn scene_palette_assigns_colours_by_sorted_id_rank() {
    let mut scene = scene_with(vec![subject("zulu", "Z"), subject("alpha", "A"), subject("mike", "M")]);
    let palette = scene_palette(&scene);
    assert_eq!(entry(&palette, "alpha").name, "red");
    assert_eq!(entry(&palette, "mike").name, "blue");
    assert_eq!(entry(&palette, "zulu").name, "green");
    let ids: Vec<&str> = palette.iter().map(|(id, _)| id.as_str()).collect();
    assert_eq!(ids, vec!["alpha", "mike", "zulu"]);

    scene.subjects.push(scene.subjects[1].clone());
    let palette = scene_palette(&scene);
    assert_eq!(palette.len(), 3);
    assert_eq!(entry(&palette, "mike").name, "blue");
}

#[test]
fn palette_ignores_declaration_order_and_repeats() {
    let a = palette_for_ids(&vec!["b".to_owned(), "a".to_owned(), "c".to_owned()]);
    let b = palette_for_ids(&vec!["c".to_owned(), "a".to_owned(), "b".to_owned(), "a".to_owned()]);
    assert_eq!(a.len(), b.len());
    for (x, y) in a.iter().zip(b.iter()) {
        assert_eq!(x.0, y.0);
        assert_eq!(x.1, y.1);
    }
}

#[test]
fn palette_orders_ids_by_code_point() {
    let palette = palette_for_ids(&vec!["b".to_owned(), "B".to_owned(), "a".to_owned(), "é".to_owned()]);
    let ids: Vec<&str> = palette.iter().map(|(id, _)| id.as_str()).collect();
    assert_eq!(ids, vec!["B", "a", "b", "é"]);
}

#[test]
fn hex_pads_every_channel_to_two_digits() {
    assert_eq!(Rgb { r: 0, g: 10, b: 171 }.hex(), "#000aab");
}

#[test]
fn first_palette_colours_are_distinct() {
    let names: Vec<&str> = (0..PALETTE_LEN).map(|i| color_for_index(i).name).collect();
    for i in 0..names.len() {
        for j in (i + 1)..names.len() {
            assert_ne!(names[i], names[j]);
        }
    }
}
