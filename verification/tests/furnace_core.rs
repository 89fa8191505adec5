use furnace::compile::{
    bsp_file_name, compiler_args, furnace_file_entry, map_file_name, maps_entry,
};
use furnace::furnace::FurnaceData;
use furnace::map_info::{
    furnace_data_well_formed, furnace_file_text, map_file_text, parse_furnace_data,
    FurnaceFileData,
};
use furnace::mesh::{Face, Mesh};
use furnace::text::{
    chars_eq, chars_of, decimal_chars, replace_chars, split_chars, string_of, trim_chars,
};
use furnace::textures::{get_path_texture, texture_shorthands};
use furnace::transfer::{
    base64_slices, decode_furnace_data, get_furnace_data_base64, RawDataError,
};
use furnace::ui::Window;

fn s(x: &str) -> String {
    x.to_string()
}

fn v(x: &str) -> Vec<char> {
    x.chars().collect()
}

fn corners(a: [&str; 3], b: [&str; 3]) -> [[String; 3]; 2] {
    [[s(a[0]), s(a[1]), s(a[2])], [s(b[0]), s(b[1]), s(b[2])]]
}

// ---- text helpers ----

#[test]
fn decimal_of_numbers() {
    assert_eq!(decimal_chars(0), v("0"));
    assert_eq!(decimal_chars(7), v("7"));
    assert_eq!(decimal_chars(10), v("10"));
    assert_eq!(decimal_chars(1234), v("1234"));
    assert_eq!(decimal_chars(usize::MAX), v(&usize::MAX.to_string()));
}

#[test]
fn split_like_std() {
    let cases = [("a###b##c", "###"), ("####", "###"), ("", ","), ("a,,b,", ","), ("xx", "x")];
    for (text, pat) in cases {
        let got: Vec<String> = split_chars(&v(text), &v(pat))
            .iter()
            .map(|p| p.iter().collect())
            .collect();
        let want: Vec<String> = text.split(pat).map(|p| p.to_string()).collect();
        assert_eq!(got, want, "{text:?} on {pat:?}");
    }
}

#[test]
fn trim_like_std() {
    for text in ["  a b \n", "\u{3000}x\u{2009}", "", " \t\n", "plain"] {
        let got: String = trim_chars(&v(text)).iter().collect();
        assert_eq!(got, text.trim());
    }
}

#[test]
fn replace_like_std() {
    for (text, pat, to) in [("a/*8*/b/*8*/", "/*8*/", "X"), ("aaa", "aa", "b"), ("none", "zz", "q")] {
        let got: String = replace_chars(&v(text), &v(pat), &v(to)).iter().collect();
        assert_eq!(got, text.replace(pat, to));
    }
}

#[test]
fn chars_round_trip_and_compare() {
    assert_eq!(string_of(&chars_of("héllo")), "héllo");
    assert!(chars_eq(&v("abc"), &v("abc")));
    assert!(!chars_eq(&v("abc"), &v("abd")));
    assert!(!chars_eq(&v("ab"), &v("abc")));
}

// ---- brushes ----

#[test]
fn box_brush_corners() {
    let m: Mesh<i64> = Mesh::from_bounds([0, 1, 2], [10, 11, 12]);
    assert_eq!(m.up.topconer, [0, 11, 12]);
    assert_eq!(m.up.anyconrer, [0, 1, 12]);
    assert_eq!(m.up.bottomcorner, [0, 1, 2]);
    assert_eq!(m.down.topconer, [0, 1, 12]);
    assert_eq!(m.down.anyconrer, [10, 1, 12]);
    assert_eq!(m.down.bottomcorner, [10, 1, 2]);
    assert_eq!(m.forward.topconer, [10, 1, 2]);
    assert_eq!(m.forward.anyconrer, [10, 11, 2]);
    assert_eq!(m.forward.bottomcorner, [0, 11, 2]);
    assert_eq!(m.backwards.topconer, [0, 11, 12]);
    assert_eq!(m.backwards.anyconrer, [10, 11, 12]);
    assert_eq!(m.backwards.bottomcorner, [10, 1, 12]);
    assert_eq!(m.right.topconer, [10, 11, 2]);
    assert_eq!(m.right.anyconrer, [10, 11, 12]);
    assert_eq!(m.right.bottomcorner, [0, 11, 12]);
    assert_eq!(m.left.topconer, [10, 1, 12]);
    assert_eq!(m.left.anyconrer, [10, 11, 12]);
    assert_eq!(m.left.bottomcorner, [10, 11, 2]);
    for f in [&m.up, &m.down, &m.left, &m.right, &m.forward, &m.backwards] {
        assert_eq!(f.texture, "world/dev/dev_white_512");
    }
}

fn text_face(f: &Face<i64>) -> Face<String> {
    let t = |c: [i64; 3]| [c[0].to_string(), c[1].to_string(), c[2].to_string()];
    Face {
        topconer: t(f.topconer),
        anyconrer: t(f.anyconrer),
        bottomcorner: t(f.bottomcorner),
        texture: f.texture.clone(),
    }
}

fn string_brush() -> Mesh<String> {
    let m: Mesh<i64> = Mesh::from_bounds([0, 1, 2], [8, 9, 10]);
    Mesh {
        up: text_face(&m.up),
        down: text_face(&m.down),
        left: text_face(&m.left),
        right: text_face(&m.right),
        forward: text_face(&m.forward),
        backwards: text_face(&m.backwards),
    }
}

#[test]
fn face_text_format() {
    let f = Face {
        topconer: [s("1"), s("2"), s("3")],
        anyconrer: [s("4"), s("5"), s("6")],
        bottomcorner: [s("7"), s("8"), s("9")],
        texture: s("tex"),
    };
    assert_eq!(
        f.text(),
        "( 1 2 3 ) ( 4 5 6 ) ( 7 8 9 ) ( ( 0.0078125 0 -0 ) ( -0 0.0078125 0 ) ) tex 0 0 0"
    );
}

#[test]
fn mesh_text_format() {
    let m = string_brush();
    let t = m.text();
    let lines: Vec<&str> = t.split('\n').collect();
    assert_eq!(lines.len(), 11);
    assert_eq!(lines[0], "{");
    assert_eq!(lines[1], "brushDef");
    assert_eq!(lines[2], "{");
    assert_eq!(lines[3], m.up.text());
    assert_eq!(lines[4], m.down.text());
    assert_eq!(lines[5], m.left.text());
    assert_eq!(lines[6], m.right.text());
    assert_eq!(lines[7], m.forward.text());
    assert_eq!(lines[8], m.backwards.text());
    assert_eq!(lines[9], "}");
    assert_eq!(lines[10], "}");
    assert_eq!(
        lines[3],
        "( 0 9 10 ) ( 0 1 10 ) ( 0 1 2 ) ( ( 0.0078125 0 -0 ) ( -0 0.0078125 0 ) ) world/dev/dev_white_512 0 0 0"
    );
}

// ---- .map text ----

#[test]
fn map_text_numbers_brushes_from_seven() {
    let b = string_brush();
    let brushes = vec![string_brush(), string_brush()];
    let out = map_file_text("start\n/*8*/\nend /*8*/", &brushes).unwrap();
    let body = format!("// brush 7\n{}\n// brush 8\n{}\n", b.text(), b.text());
    assert_eq!(out, format!("start\n{body}\nend {body}"));
}

#[test]
fn map_text_without_brushes_is_nothing() {
    assert_eq!(map_file_text("base /*8*/", &Vec::new()), None);
}

#[test]
fn map_text_without_marker_is_base() {
    let out = map_file_text("no marker here", &vec![string_brush()]).unwrap();
    assert_eq!(out, "no marker here");
}

// ---- .furnace text ----

#[test]
fn furnace_text_format() {
    let meshes = vec![
        Some(corners(["1", "2", "3"], ["4", "5", "6"])),
        None,
        Some(corners(["-7", "0", "8"], ["9", "-0", "10"])),
    ];
    let textures = vec![s("$w"), s("$r"), s("world/brick")];
    let text = furnace_file_text(&meshes, &textures).unwrap();
    assert_eq!(
        text,
        "###Mesh##\n(1,2,3);(4,5,6)\n(-7,0,8);(9,-0,10)\n###Textures##\n$w\n$r\nworld/brick"
    );
}

#[test]
fn furnace_text_without_meshes_is_nothing() {
    assert_eq!(furnace_file_text(&Vec::new(), &vec![s("$w")]), None);
}

#[test]
fn furnace_text_with_only_removed_meshes() {
    let text = furnace_file_text(&vec![None], &Vec::new()).unwrap();
    assert_eq!(text, "###Mesh##\n\n###Textures##\n");
    assert!(!furnace_data_well_formed(&text));
}

#[test]
fn parse_reads_meshes_and_textures() {
    let data = "###Mesh##\n(1,2,3);(4,5,6)\n(-7,0,8);(9,-0,10)\n###Textures##\n$w\n$r";
    assert!(furnace_data_well_formed(data));
    let parsed: FurnaceFileData<String> = parse_furnace_data(s(data));
    assert_eq!(parsed.meshes.len(), 2);
    assert_eq!(parsed.meshes[0], Some(corners(["1", "2", "3"], ["4", "5", "6"])));
    assert_eq!(parsed.meshes[1], Some(corners(["-7", "0", "8"], ["9", "-0", "10"])));
    assert_eq!(parsed.texture_map, vec![s("$w"), s("$r")]);
}

#[test]
fn parse_round_trip_of_written_text() {
    let meshes = vec![
        Some(corners(["16", "32", "0"], ["64", "-16", "128"])),
        None,
        Some(corners(["1", "1", "1"], ["2", "2", "2"])),
    ];
    let textures = vec![s("$w"), s("$b"), s("world/wood")];
    let text = furnace_file_text(&meshes, &textures).unwrap();
    assert!(furnace_data_well_formed(&text));
    let parsed = parse_furnace_data(text);
    assert_eq!(parsed.meshes, vec![meshes[0].clone(), meshes[2].clone()]);
    assert_eq!(parsed.texture_map, textures);
}

#[test]
fn parse_takes_the_last_section_and_ignores_extras() {
    let data = "junk###Mesh##(0,0,0);(1,1,1)###Mesh## (2,3,4,9);(5,6,7);(8,8,8) ##ignored###Other##x";
    assert!(furnace_data_well_formed(data));
    let parsed = parse_furnace_data(s(data));
    assert_eq!(parsed.meshes, vec![Some(corners(["2", "3", "4"], ["5", "6", "7"]))]);
    assert!(parsed.texture_map.is_empty());
}

#[test]
fn parse_without_sections_is_empty() {
    let parsed = parse_furnace_data(s("nothing here"));
    assert!(parsed.meshes.is_empty());
    assert!(parsed.texture_map.is_empty());
}

#[test]
fn parse_section_without_value() {
    let parsed = parse_furnace_data(s("###Textures"));
    assert_eq!(parsed.texture_map, vec![s("ohno")]);
}

#[test]
fn well_formedness_checks_every_point() {
    assert!(!furnace_data_well_formed("###Mesh##\n(1,2,3)"));
    assert!(!furnace_data_well_formed("###Mesh##\n(1,2);(3,4,5)"));
    assert!(!furnace_data_well_formed("###Mesh##\n(1,2,3);(3,4,5);(6)"));
    assert!(furnace_data_well_formed("###Textures##\na"));
}

// ---- editor state ----

#[test]
fn new_state_is_empty() {
    let f: FurnaceData<i64> = FurnaceData::new(s("mods/furnace"), s("bin/compiler"));
    assert_eq!(f.path, "mods/furnace");
    assert_eq!(f.path_compiler, "bin/compiler");
    assert!(f.meshes.is_empty() && f.brushes.is_empty() && f.texture_map.is_empty());
    assert_eq!(f.current_map, "mp_default");
    assert_eq!(f.get_last_compiled_map(), "mp_default");
}

#[test]
fn push_mesh_gives_indices() {
    let mut f: FurnaceData<i64> = FurnaceData::new(s("p"), s("c"));
    assert_eq!(f.push_mesh([1, 2, 3], [4, 5, 6]), 0);
    assert_eq!(f.push_mesh([7, 8, 9], [0, 0, 0]), 1);
    assert_eq!(f.meshes[1], Some([[7, 8, 9], [0, 0, 0]]));
    assert_eq!(f.texture_map, vec![s("$w"), s("$w")]);
}

#[test]
fn remove_then_move_fails() {
    let mut f: FurnaceData<i64> = FurnaceData::new(s("p"), s("c"));
    f.push_mesh([1, 2, 3], [4, 5, 6]);
    f.push_mesh([7, 8, 9], [0, 0, 0]);
    assert!(f.remove_mesh(0));
    assert_eq!(f.meshes[0], None);
    assert!(!f.remove_mesh(5));
    assert!(!f.remove_mesh(-1));
    assert_eq!(f.move_mesh(0, |p: [i64; 3]| [p[0] + 1, p[1], p[2]]), 1);
    assert_eq!(f.move_mesh(9, |p: [i64; 3]| p), 1);
    assert_eq!(f.move_mesh(-3, |p: [i64; 3]| p), 1);
    assert_eq!(f.move_mesh(1, |p: [i64; 3]| [p[0], p[1], p[2] + 16]), 0);
    assert_eq!(f.meshes[1], Some([[7, 8, 25], [0, 0, 16]]));
    assert_eq!(f.meshes.len(), 2);
}

#[test]
fn move_mesh_with_floats() {
    let mut f: FurnaceData<f32> = FurnaceData::new(s("p"), s("c"));
    f.push_mesh([0.5, 0.0, 0.0], [1.0, 1.0, 1.0]);
    let dir = [0.5f32, -1.0, 2.0];
    assert_eq!(f.move_mesh(0, move |p: [f32; 3]| [p[0] + dir[0], p[1] + dir[1], p[2] + dir[2]]), 0);
    assert_eq!(f.meshes[0], Some([[1.0, -1.0, 2.0], [1.5, 0.0, 3.0]]));
}

#[test]
fn set_texture_codes() {
    let mut f: FurnaceData<i64> = FurnaceData::new(s("p"), s("c"));
    f.push_mesh([0, 0, 0], [1, 1, 1]);
    assert_eq!(f.set_texture_for_mesh(0, s("$brick")), 0);
    assert_eq!(f.texture_map, vec![s("$brick")]);
    assert_eq!(f.set_texture_for_mesh(1, s("$c")), 1);
    assert_eq!(f.set_texture_for_mesh(-1, s("$c")), 1);
    assert_eq!(f.texture_map, vec![s("$brick")]);
}

#[test]
fn mesh_points_flatten_present_meshes() {
    let mut f: FurnaceData<i64> = FurnaceData::new(s("p"), s("c"));
    f.push_mesh([1, 1, 1], [2, 2, 2]);
    f.push_mesh([3, 3, 3], [4, 4, 4]);
    f.push_mesh([5, 5, 5], [6, 6, 6]);
    f.remove_mesh(1);
    assert_eq!(f.mesh_points(), vec![[1, 1, 1], [2, 2, 2], [5, 5, 5], [6, 6, 6]]);
}

#[test]
fn compile_brushes_skips_removed_meshes() {
    let mut f: FurnaceData<i64> = FurnaceData::new(s("p"), s("c"));
    f.push_mesh([5, 0, 9], [1, 4, 2]);
    f.push_mesh([0, 0, 0], [1, 1, 1]);
    f.push_mesh([0, 0, 0], [2, 2, 2]);
    f.remove_mesh(1);
    f.compile_brushes(|m: [[i64; 3]; 2]| {
        let lo = [m[0][0].min(m[1][0]), m[0][1].min(m[1][1]), m[0][2].min(m[1][2])];
        let hi = [m[0][0].max(m[1][0]), m[0][1].max(m[1][1]), m[0][2].max(m[1][2])];
        (lo, hi)
    });
    assert_eq!(f.brushes.len(), 2);
    assert_eq!(f.brushes[0].up.bottomcorner, [1, 0, 2]);
    assert_eq!(f.brushes[0].left.anyconrer, [5, 4, 9]);
    assert_eq!(f.brushes[1].right.topconer, [2, 2, 0]);
    assert_eq!(f.meshes.len(), 3);
    assert_eq!(f.mesh_points().len(), 2 * f.brushes.len());
}

#[test]
fn clear_geometry_keeps_textures() {
    let mut f: FurnaceData<i64> = FurnaceData::new(s("p"), s("c"));
    f.push_mesh([1, 1, 1], [2, 2, 2]);
    f.compile_brushes(|m: [[i64; 3]; 2]| (m[0], m[1]));
    f.clear_geometry();
    assert!(f.meshes.is_empty() && f.brushes.is_empty());
    assert_eq!(f.texture_map, vec![s("$w")]);
}

#[test]
fn load_and_set_current_map() {
    let mut f: FurnaceData<i64> = FurnaceData::new(s("p"), s("c"));
    f.set_current_map(s("mp_box"));
    assert_eq!(f.current_map, "mp_box");
    f.load_file_data(FurnaceFileData { meshes: vec![None, Some([[1, 2, 3], [4, 5, 6]])], texture_map: vec![s("$g")] });
    assert_eq!(f.meshes, vec![None, Some([[1, 2, 3], [4, 5, 6]])]);
    assert_eq!(f.texture_map, vec![s("$g")]);
    assert_eq!(f.current_map, "mp_box");
}

// ---- file names and compiler command ----

#[test]
fn file_names() {
    assert_eq!(map_file_name("mp_box"), "mp_box.map");
    assert_eq!(bsp_file_name("mp_box"), "mp_box.bsp");
    assert_eq!(maps_entry("mp_box.map"), "Titanfall2/maps/mp_box.map");
    assert_eq!(furnace_file_entry("mp_box"), "Titanfall2/maps/mp_box.furnace");
}

#[test]
fn compiler_command_line() {
    assert_eq!(
        compiler_args("C:/game", "C:/game/Titanfall2/maps/mp_box.map"),
        vec![
            "-v", "-connect", "127.0.0.1:39000", "-game", "titanfall2", "-fs_basepath",
            "C:/game", "-fs_game", "Titanfall2", "-meta", "C:/game/Titanfall2/maps/mp_box.map",
        ]
    );
}

// ---- textures ----

#[test]
fn texture_shorthands_resolve() {
    assert_eq!(get_path_texture("$w"), "world/dev/dev_white_512");
    assert_eq!(get_path_texture("$b"), "world/dev/dev_blue_512");
    assert_eq!(get_path_texture("$window"), "tools/toolswindowhint");
    assert_eq!(get_path_texture("$win"), "world/windows");
    assert_eq!(get_path_texture("world/custom"), "world/custom");
    assert_eq!(get_path_texture(""), "");
    assert_eq!(texture_shorthands().len(), 10);
}

#[test]
fn texture_resolution_is_idempotent() {
    for (key, _) in texture_shorthands() {
        let once = get_path_texture(&key);
        assert_eq!(get_path_texture(&once), once);
    }
}

// ---- transfer ----

#[test]
fn short_data_is_sent_in_one_slice() {
    assert_eq!(get_furnace_data_base64("hello"), vec![s("aGVsbG8")]);
    assert!(get_furnace_data_base64("").is_empty());
    // 75 bytes encode to exactly 100 characters: still one slice
    let raw = "q".repeat(75);
    let slices = get_furnace_data_base64(&raw);
    assert_eq!(slices.len(), 1);
    assert_eq!(slices[0].len(), 100);
    assert_eq!(decode_furnace_data(&slices[0]).ok().unwrap(), raw);
}

#[test]
fn short_furnace_file_goes_across_whole() {
    let meshes = vec![Some(corners(["0", "0", "0"], ["64", "64", "64"]))];
    let textures = vec![s("$w")];
    let text = furnace_file_text(&meshes, &textures).unwrap();
    let slices = get_furnace_data_base64(&text);
    assert_eq!(slices.len(), 1);
    let received = decode_furnace_data(&slices.concat()).ok().unwrap();
    assert_eq!(received, text);
    let parsed = parse_furnace_data(received);
    assert_eq!(parsed.meshes, meshes);
    assert_eq!(parsed.texture_map, textures);
}

#[test]
fn encoded_length_follows_the_byte_count() {
    // 3k bytes give 4k characters; one or two bytes more give two or three more
    for (n, len) in [(3usize, 4usize), (4, 6), (5, 7), (6, 8), (74, 99), (76, 102)] {
        let slices = get_furnace_data_base64(&"b".repeat(n));
        assert_eq!(slices.concat().len(), len, "{n} bytes");
    }
}

#[test]
fn slices_join_back_and_decode() {
    let raw = "a".repeat(200);
    let slices = get_furnace_data_base64(&raw);
    assert_eq!(slices.len(), 2);
    assert_eq!(slices[0].len(), 100);
    assert_eq!(slices[1].len(), 167);
    let joined: String = slices.concat();
    assert_eq!(decode_furnace_data(&joined).ok().unwrap(), raw);
}

#[test]
fn slicing_rule() {
    let text = "x".repeat(250);
    let parts = base64_slices(&text);
    assert_eq!(parts.len(), 2);
    assert_eq!(parts[0].len(), 100);
    assert_eq!(parts[1].len(), 150);
    assert_eq!(base64_slices(&"y".repeat(100)), vec!["y".repeat(100)]);
    assert_eq!(base64_slices("y"), vec![s("y")]);
    assert!(base64_slices("").is_empty());
    assert_eq!(base64_slices(&"z".repeat(101)), vec!["z".repeat(101)]);
}

#[test]
fn decode_known_text() {
    assert_eq!(decode_furnace_data("aGVsbG8").ok().unwrap(), "hello");
    assert_eq!(decode_furnace_data("").ok().unwrap(), "");
}

#[test]
fn decode_invalid_utf8_is_replaced() {
    // 0xFF 0xFE encoded without padding
    assert_eq!(decode_furnace_data("//4").ok().unwrap(), "\u{FFFD}\u{FFFD}");
}

#[test]
fn decode_rejects_non_base64() {
    match decode_furnace_data("not base64!") {
        Err(RawDataError::InvalidBase64(_)) => {}
        Ok(_) => panic!("accepted invalid base64"),
    }
    assert!(decode_furnace_data("aGVsbG8=").is_err());
}

// ---- window ----

#[test]
fn window_starts_with_defaults() {
    let w = Window::new();
    assert_eq!(w.grid, "16");
    assert_eq!(w.eye_distance, "1000");
    assert_eq!(w.nudge, "1");
}

#[test]
fn round_trip_edge_inputs() {
    let meshes = vec![Some(corners(["(5", "a#b", "x("], ["", " 1", "2)q"]))];
    let textures = vec![s("first one"), s(""), s("#"), s("last")];
    let text = furnace_file_text(&meshes, &textures).unwrap();
    assert!(furnace_data_well_formed(&text));
    let parsed = parse_furnace_data(text);
    assert_eq!(parsed.meshes, meshes);
    assert_eq!(parsed.texture_map, textures);

    let single_empty = vec![s("")];
    let text = furnace_file_text(&meshes, &single_empty).unwrap();
    assert_eq!(parse_furnace_data(text).texture_map, single_empty);
}

#[test]
fn round_trip_fails_outside_the_law() {
    // no textures at all come back as one empty texture
    let meshes = vec![Some(corners(["1", "2", "3"], ["4", "5", "6"]))];
    let text = furnace_file_text(&meshes, &Vec::new()).unwrap();
    assert_eq!(parse_furnace_data(text).texture_map, vec![s("")]);
    // a coordinate ending with `)` in first position loses it
    let meshes = vec![Some(corners(["1)", "2", "3"], ["4", "5", "6"]))];
    let text = furnace_file_text(&meshes, &vec![s("$w")]).unwrap();
    assert_eq!(parse_furnace_data(text).meshes[0], Some(corners(["1", "2", "3"], ["4", "5", "6"])));
}
