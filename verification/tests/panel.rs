use plant::category::{Classification, Mode};
use plant::draw::DrawStats;
use plant::gzip::{inflated_size, is_gzip};
use plant::identify::{entries, Entry};
use plant::options::{keep, solo, start_in, triple, NotACategory, UnknownPreset};
use plant::panel::{
    card_lines, key_digit, mode_letter, on_click, real_world_match, row_label, stats_line, Click, Line,
    Response, Selection, Style,
};
use plant::scene::{Instance, Scene};
use plant::single::Single;
use plant::text::{decimal_of, pieces};

fn single(x: f32) -> Single {
    Single { bits: x.to_bits() }
}

fn scene() -> Scene {
    Scene {
        instances: vec![Instance {
            first_index: 0,
            index_count: 3,
            base_vertex: 0,
            material: 0,
            name: "metal_pipe_001".to_string(),
            transform: [single(0.0); 12],
            aabb_min: [single(0.0); 3],
            aabb_max: [single(1.0); 3],
        }],
        materials: Vec::new(),
        vertices: Vec::new(),
        indices: Vec::new(),
        scene_min: [single(0.0); 3],
        scene_max: [single(1.0); 3],
        bake_hash: 0,
        byte_len: 0,
    }
}

fn classification() -> Classification {
    Classification::from_assignment(&scene(), vec![0])
}

fn mode_of(classification: &Classification, id: &str) -> Mode {
    classification.categories[classification.index_of(id).expect("a category")].mode
}

fn solid_ids(classification: &Classification) -> Vec<&'static str> {
    classification
        .categories
        .iter()
        .filter(|c| c.mode == Mode::Solid)
        .map(|c| c.id)
        .collect()
}

fn with_refs(count: usize) -> Entry {
    entries()
        .into_iter()
        .find(|e| e.refs.len() == count)
        .expect("an entry with that many photographs")
}

fn texts(lines: &[Line]) -> Vec<&str> {
    lines.iter().map(|l| l.text.as_str()).collect()
}

#[test]
fn buttons_do_what_they_say() {
    let mut classification = classification();
    let mut response = Response::default();
    on_click(Click::ProcessPlant, &mut classification, &mut response);
    assert_eq!(mode_of(&classification, "structure"), Mode::Ghosted);
    assert!(response.dirty && !response.frame_visible);
    on_click(Click::PipesOnly, &mut classification, &mut response);
    assert_eq!(solid_ids(&classification), vec!["pipe", "instrument"]);
    on_click(Click::GhostHidden, &mut classification, &mut response);
    assert_eq!(mode_of(&classification, "vessel"), Mode::Ghosted);
    on_click(Click::HideGhosted, &mut classification, &mut response);
    assert_eq!(mode_of(&classification, "vessel"), Mode::Hidden);
    on_click(Click::WholeMap, &mut classification, &mut response);
    assert_eq!(solid_ids(&classification).len(), 12);

    let mut response = Response::default();
    on_click(Click::FrameVisible, &mut classification, &mut response);
    assert!(response.frame_visible && !response.dirty);
}

#[test]
fn choosing_the_mode_that_is_chosen_changes_nothing() {
    let mut classification = classification();
    let mut response = Response::default();
    on_click(Click::Mode(0, Mode::Solid), &mut classification, &mut response);
    assert!(!response.dirty);
    on_click(Click::Mode(0, Mode::Hidden), &mut classification, &mut response);
    assert!(response.dirty);
    assert_eq!(mode_of(&classification, "pipe"), Mode::Hidden);
    assert_eq!(mode_of(&classification, "duct"), Mode::Solid);
}

#[test]
fn a_swatch_recolours_its_category() {
    let mut classification = classification();
    let mut response = Response::default();
    let colour = [single(0.1), single(0.2), single(0.3)];
    on_click(Click::Colour(1, colour), &mut classification, &mut response);
    assert!(response.dirty);
    assert_eq!(classification.categories[1].colour, colour);
    assert_eq!(mode_of(&classification, "duct"), Mode::Solid);
}

#[test]
fn rows_say_which_key_cycles_them() {
    assert_eq!(row_label(0, "Pipework"), "1  Pipework");
    assert_eq!(row_label(8, "Lighting"), "9  Lighting");
    assert_eq!(row_label(9, "Building fabric"), "0  Building fabric");
    assert_eq!(row_label(10, "Clutter & props"), "   Clutter & props");
    assert_eq!(key_digit(9), Some(0));
    assert_eq!(key_digit(10), None);
    assert_eq!(mode_letter(Mode::Solid), "S");
    assert_eq!(mode_letter(Mode::Ghosted), "G");
    assert_eq!(mode_letter(Mode::Hidden), "—");
    assert_eq!(
        stats_line(DrawStats { solid: 1927, ghosted: 0, triangles: 3_600_000 }),
        "1927 solid  0 ghost  3600000 tris"
    );
}

#[test]
fn a_selection_knows_its_instance() {
    let scene = scene();
    let selection = Selection::of(&scene, &vec![Some(5)], Some(0), Some(9));
    assert_eq!(selection.name, "metal_pipe_001");
    assert_eq!(selection.entry, Some(5));
    assert_eq!(selection.matched(Some(7)), Some(5), "a click stays put");

    let nothing = Selection::of(&scene, &vec![Some(5)], None, Some(9));
    assert_eq!(nothing.name, "");
    assert_eq!(nothing.matched(Some(7)), Some(7));
    assert_eq!(nothing.matched(None), Some(9));
    let out_of_range = Selection::of(&scene, &vec![Some(5)], Some(3), None);
    assert_eq!((out_of_range.entry, out_of_range.name.as_str()), (None, ""));
    assert_eq!(out_of_range.matched(None), None);
}

#[test]
fn the_match_is_spelled_out() {
    let scene = scene();
    let pointed = Selection::of(&scene, &vec![None], None, None);
    let lines = real_world_match(None, &pointed);
    assert_eq!(texts(&lines), vec!["point at something to name it"]);

    let entry = with_refs(2);
    let lines = real_world_match(Some(&entry), &pointed);
    let real = format!("→ {}", entry.real);
    let first = format!("↗ {}", entry.refs[0].label);
    let second = format!("↗ {}", entry.refs[1].label);
    assert_eq!(
        texts(&lines),
        vec![
            entry.confidence.tag(),
            entry.what,
            &real,
            entry.note,
            "PICTURES OF THE REAL UNIT",
            &first,
            &second,
        ]
    );
    assert_eq!(lines[6].url, Some(entry.refs[1].url));
    assert_eq!(lines[6].style, Style::Link);
    assert_eq!(lines[0].url, None);

    let picked = Selection::of(&scene, &vec![Some(0)], Some(0), None);
    let lines = real_world_match(Some(&entry), &picked);
    assert_eq!(lines[1].text, "#0 metal_pipe_001");
    assert_eq!(lines[1].style, Style::Instance);

    let bare = with_refs(0);
    let lines = real_world_match(Some(&bare), &pointed);
    assert_eq!(
        texts(&lines).last(),
        Some(&"no photograph of a real counterpart — see the note")
    );
}

#[test]
fn the_card_points_at_the_photographs() {
    let one = with_refs(1);
    let lines = card_lines(&one, "47");
    assert_eq!(lines[0].text, format!("{}   ·   47 m away", one.confidence.tag()));
    assert_eq!(lines[4].text, "click — 1 photo of the real unit, in the panel");
    let two = with_refs(2);
    assert_eq!(
        card_lines(&two, "5")[4].text,
        "click — 2 photos of the real unit, in the panel"
    );
    assert_eq!(card_lines(&with_refs(0), "5").len(), 4);
}

#[test]
fn numbers_are_written_in_decimal() {
    for n in [0, 9, 10, 99, 100, 1_234_567_890, u64::MAX] {
        assert_eq!(decimal_of(n), n.to_string());
    }
}

#[test]
fn presets_go_by_name() {
    let mut classification = classification();
    assert_eq!(start_in(&mut classification, "pipes"), Ok(()));
    assert_eq!(solid_ids(&classification), vec!["pipe", "instrument"]);
    assert_eq!(start_in(&mut classification, "nothing"), Err(UnknownPreset));
    assert_eq!(solid_ids(&classification), vec!["pipe", "instrument"]);
    for name in ["everything", "all"] {
        assert_eq!(start_in(&mut classification, name), Ok(()));
        assert_eq!(solid_ids(&classification).len(), 12);
    }
    assert_eq!(start_in(&mut classification, "plant"), Ok(()));
    assert_eq!(mode_of(&classification, "machinery"), Mode::Solid);
}

#[test]
fn one_category_can_be_shown_alone() {
    let mut classification = classification();
    assert_eq!(solo(&mut classification, "vessel"), Ok(()));
    assert_eq!(solid_ids(&classification), vec!["vessel"]);
    assert!(solo(&mut classification, "vessels").is_err());
    assert_eq!(solid_ids(&classification), vec!["vessel"]);
}

#[test]
fn several_categories_can_be_kept() {
    let mut classification = classification();
    let wanted = pieces(" pipe, vessel ,,instrument,pipe");
    assert_eq!(wanted, vec!["pipe", "vessel", "", "instrument", "pipe"]);
    assert_eq!(keep(&mut classification, &wanted), Ok(()));
    assert_eq!(solid_ids(&classification), vec!["pipe", "vessel", "instrument"]);
    assert_eq!(mode_of(&classification, "structure"), Mode::Hidden);
    assert_eq!(
        keep(&mut classification, &pieces("duct,pipes,walls")),
        Err(NotACategory { at: 1 })
    );
    assert_eq!(solid_ids(&classification), vec!["pipe", "vessel", "instrument"]);
    assert_eq!(keep(&mut classification, &pieces("")), Ok(()));
    assert!(solid_ids(&classification).is_empty());
}

#[test]
fn lists_are_split_at_commas_and_trimmed() {
    for list in ["", ",", "1, 2,\t3 ", "a b,c", " \u{2003}é\u{a0},x"] {
        let expected: Vec<&str> = list.split(',').map(str::trim).collect();
        assert_eq!(pieces(list), expected, "{list:?}");
    }
}

#[test]
fn what_is_trimmed_is_white_space() {
    for c in (0..=0x10_FFFF).filter_map(char::from_u32).filter(|c| *c != ',') {
        let list = format!("{c}x{c}");
        assert_eq!(pieces(&list), vec![list.trim()], "{c:?}");
    }
}

#[test]
fn compressed_scenes_are_recognised_by_their_bytes() {
    assert!(is_gzip(&[0x1f, 0x8b, 8]));
    assert!(is_gzip(&[0x1f, 0x8b]));
    assert!(!is_gzip(&[0x1f]));
    assert!(!is_gzip(b"NKPSCEN\0"));
}

#[test]
fn the_trailer_says_how_large_a_scene_is() {
    assert_eq!(inflated_size(&[0x1f, 0x8b, 0x10, 0x20, 0x30, 0x04]), 0x0430_2010);
    assert_eq!(inflated_size(&[1, 2, 3]), 0);
    assert_eq!(inflated_size(&[0xff; 9]), 320 << 20);
    assert_eq!(inflated_size(&[0, 0, 0, 0]), 0);
}

#[test]
fn a_position_takes_three_numbers() {
    let numbers: Vec<Single> = [1.0, -2.5, 3.0].map(single).to_vec();
    assert_eq!(triple(&numbers), Some([single(1.0), single(-2.5), single(3.0)]));
    assert_eq!(triple(&numbers[..2].to_vec()), None);
    assert_eq!(triple(&vec![single(0.0); 4]), None);
}
