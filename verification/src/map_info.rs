//! The `.furnace` file: its text, its parser, and the `.map` file text.
use vstd::prelude::*;
use vstd::string::*;
use crate::text::{
    chars_eq, chars_of, decimal, decimal_chars, lemma_split_nonempty, pieces, replace,
    replace_chars, split, split_chars, string_of, strip_prefix, strip_prefix_chars, strip_suffix,
    strip_suffix_chars, sub_chars, trim, trim_chars,
};

verus! {

/// What a `.furnace` file holds: one entry per mesh line (two corners of three
/// coordinates each) and the texture list.
pub struct FurnaceFileData<C> {
    pub meshes: Vec<Option<[[C; 3]; 2]>>,
    pub texture_map: Vec<String>,
}

/// The six coordinates of a mesh, corner by corner.
pub open spec fn corner_tokens(m: [[String; 3]; 2]) -> Seq<Seq<char>> {
    seq![m[0][0]@, m[0][1]@, m[0][2]@, m[1][0]@, m[1][1]@, m[1][2]@]
}

/// The name of a chunk: the text before its first `##`.
pub open spec fn chunk_name(chunk: Seq<char>) -> Seq<char> {
    split(chunk, "##"@)[0]
}

/// The value of a chunk: the trimmed text between its first and second `##`,
/// or `ohno` where the chunk has no `##`.
pub open spec fn chunk_value(chunk: Seq<char>) -> Seq<char> {
    let parts = split(chunk, "##"@);
    if parts.len() >= 2 {
        trim(parts[1])
    } else {
        "ohno"@
    }
}

/// The value of the last chunk named `key`, if any.
pub open spec fn section_in(chunks: Seq<Seq<char>>, key: Seq<char>) -> Option<Seq<char>>
    decreases chunks.len(),
{
    if chunks.len() == 0 {
        None
    } else if chunk_name(chunks.last()) == key {
        Some(chunk_value(chunks.last()))
    } else {
        section_in(chunks.drop_last(), key)
    }
}

/// The value of the section `key` of a `.furnace` text (chunks start at `###`).
pub open spec fn section(data: Seq<char>, key: Seq<char>) -> Option<Seq<char>> {
    section_in(split(data, "###"@), key)
}

/// The mesh lines of a `.furnace` text.
pub open spec fn mesh_lines(data: Seq<char>) -> Seq<Seq<char>> {
    match section(data, "Mesh"@) {
        Some(v) => split(v, "\n"@),
        None => Seq::empty(),
    }
}

/// A coordinate as written: one `)` dropped from its end, then one `(` from its start.
pub open spec fn strip_coord(c: Seq<char>) -> Seq<char> {
    strip_prefix(strip_suffix(c, ')'), '(')
}

/// A mesh line can be read: at least two points, each of at least three coordinates.
pub open spec fn line_well_formed(line: Seq<char>) -> bool {
    let points = split(line, ";"@);
    &&& points.len() >= 2
    &&& forall|j: int| 0 <= j < points.len() ==> #[trigger] split(points[j], ","@).len() >= 3
}

/// Every mesh line of the text can be read.
pub open spec fn furnace_text_well_formed(data: Seq<char>) -> bool {
    forall|i: int| 0 <= i < mesh_lines(data).len() ==> line_well_formed(#[trigger] mesh_lines(data)[i])
}

/// The six coordinates that a mesh line gives: the first three of its first two points.
pub open spec fn line_tokens(line: Seq<char>) -> Seq<Seq<char>> {
    let points = split(line, ";"@);
    let a = split(points[0], ","@);
    let b = split(points[1], ","@);
    seq![
        strip_coord(a[0]),
        strip_coord(a[1]),
        strip_coord(a[2]),
        strip_coord(b[0]),
        strip_coord(b[1]),
        strip_coord(b[2]),
    ]
}

/// The coordinates of every mesh of a `.furnace` text.
pub open spec fn parsed_mesh_tokens(data: Seq<char>) -> Seq<Seq<Seq<char>>> {
    mesh_lines(data).map_values(|l: Seq<char>| line_tokens(l))
}

/// The textures of a `.furnace` text.
pub open spec fn parsed_textures(data: Seq<char>) -> Seq<Seq<char>> {
    match section(data, "Textures"@) {
        Some(v) => split(v, "\n"@),
        None => Seq::empty(),
    }
}

/// The views of a list of strings.
pub open spec fn string_views(v: Seq<String>) -> Seq<Seq<char>> {
    v.map_values(|s: String| s@)
}

/// Name and value of a chunk.
fn chunk_entry(chunk: &Vec<char>) -> (r: (Vec<char>, Vec<char>))
    ensures
        r.0@ == chunk_name(chunk@),
        r.1@ == chunk_value(chunk@),
{
    let sep = chars_of("##");
    proof {
        reveal_strlit("##");
    }
    let parts = split_chars(chunk, &sep);
    proof {
        lemma_split_nonempty(chunk@, sep@, Seq::empty());
    }
    let name = sub_chars(&parts[0], 0, parts[0].len());
    assert(name@ =~= parts@[0]@);
    if parts.len() >= 2 {
        let value = trim_chars(&parts[1]);
        (name, value)
    } else {
        (name, chars_of("ohno"))
    }
}

/// The value of the last chunk named `key`.
fn section_value(chunks: &Vec<Vec<char>>, key: &Vec<char>) -> (r: Option<Vec<char>>)
    ensures
        match r {
            Some(v) => section_in(pieces(chunks@), key@) == Some(v@),
            None => section_in(pieces(chunks@), key@) is None,
        },
{
    let mut found: Option<Vec<char>> = None;
    let mut i: usize = 0;
    while i < chunks.len()
        invariant
            i <= chunks.len(),
            match found {
                Some(v) => section_in(pieces(chunks@).take(i as int), key@) == Some(v@),
                None => section_in(pieces(chunks@).take(i as int), key@) is None,
            },
        decreases chunks.len() - i,
    {
        assert(pieces(chunks@).take(i + 1).drop_last() =~= pieces(chunks@).take(i as int));
        assert(pieces(chunks@).take(i + 1).last() == chunks@[i as int]@);
        let (name, value) = chunk_entry(&chunks[i]);
        if chars_eq(&name, key) {
            found = Some(value);
        }
        i += 1;
    }
    assert(pieces(chunks@).take(chunks.len() as int) =~= pieces(chunks@));
    found
}

/// The value of the section `key` of `data`.
fn section_of(data: &Vec<char>, key: &str) -> (r: Option<Vec<char>>)
    ensures
        match r {
            Some(v) => section(data@, key@) == Some(v@),
            None => section(data@, key@) is None,
        },
{
    let sep = chars_of("###");
    proof {
        reveal_strlit("###");
    }
    let chunks = split_chars(data, &sep);
    section_value(&chunks, &chars_of(key))
}

} // verus!

verus! {

/// Whether a mesh line can be read.
fn line_is_well_formed(line: &Vec<char>) -> (r: bool)
    ensures
        r == line_well_formed(line@),
{
    proof {
        reveal_strlit(";");
        reveal_strlit(",");
    }
    let points = split_chars(line, &chars_of(";"));
    if points.len() < 2 {
        return false;
    }
    let comma = chars_of(",");
    let mut j: usize = 0;
    while j < points.len()
        invariant
            j <= points.len(),
            comma@ == ","@,
            comma.len() > 0,
            pieces(points@) == split(line@, ";"@),
            forall|k: int| 0 <= k < j ==> #[trigger] split(pieces(points@)[k], ","@).len() >= 3,
        decreases points.len() - j,
    {
        let coords = split_chars(&points[j], &comma);
        assert(pieces(points@)[j as int] == points@[j as int]@);
        if coords.len() < 3 {
            assert(split(pieces(points@)[j as int], ","@).len() < 3);
            return false;
        }
        j += 1;
    }
    true
}

/// Whether every mesh line of a `.furnace` text can be read, so that
/// [`parse_furnace_data`] may be called on it.
pub fn furnace_data_well_formed(data: &str) -> (r: bool)
    ensures
        r == furnace_text_well_formed(data@),
{
    let d = chars_of(data);
    match section_of(&d, "Mesh") {
        None => true,
        Some(v) => {
            proof {
                reveal_strlit("\n");
            }
            let lines = split_chars(&v, &chars_of("\n"));
            assert(mesh_lines(data@) == pieces(lines@));
            let mut i: usize = 0;
            while i < lines.len()
                invariant
                    i <= lines.len(),
                    mesh_lines(data@) == pieces(lines@),
                    forall|k: int| 0 <= k < i ==> line_well_formed(#[trigger] mesh_lines(data@)[k]),
                decreases lines.len() - i,
            {
                if !line_is_well_formed(&lines[i]) {
                    assert(mesh_lines(data@)[i as int] == lines@[i as int]@);
                    return false;
                }
                i += 1;
            }
            true
        },
    }
}

/// A coordinate as written, without its enclosing parenthesis.
fn coord_of(piece: &Vec<char>) -> (r: String)
    ensures
        r@ == strip_coord(piece@),
{
    string_of(&strip_prefix_chars(&strip_suffix_chars(piece, ')'), '('))
}

/// The two corners that a readable mesh line gives.
fn line_corners(line: &Vec<char>) -> (r: [[String; 3]; 2])
    requires
        line_well_formed(line@),
    ensures
        corner_tokens(r) == line_tokens(line@),
{
    proof {
        reveal_strlit(";");
        reveal_strlit(",");
    }
    let points = split_chars(line, &chars_of(";"));
    let comma = chars_of(",");
    assert(pieces(points@)[0] == points@[0]@);
    assert(pieces(points@)[1] == points@[1]@);
    let a = split_chars(&points[0], &comma);
    let b = split_chars(&points[1], &comma);
    assert(split(pieces(points@)[0], ","@).len() >= 3);
    assert(split(pieces(points@)[1], ","@).len() >= 3);
    assert(pieces(a@)[0] == a@[0]@ && pieces(a@)[1] == a@[1]@ && pieces(a@)[2] == a@[2]@);
    assert(pieces(b@)[0] == b@[0]@ && pieces(b@)[1] == b@[1]@ && pieces(b@)[2] == b@[2]@);
    let r = [
        [coord_of(&a[0]), coord_of(&a[1]), coord_of(&a[2])],
        [coord_of(&b[0]), coord_of(&b[1]), coord_of(&b[2])],
    ];
    assert(corner_tokens(r) =~= line_tokens(line@));
    r
}

/// Reads a `.furnace` text: the `Mesh` section gives one mesh per line, each
/// the first three coordinates of the line's first two `;`-separated points
/// with their parentheses stripped; the `Textures` section gives one texture
/// per line. Where a section occurs twice the last one counts; a missing
/// section gives an empty list.
pub fn parse_furnace_data(data: String) -> (r: FurnaceFileData<String>)
    requires
        furnace_text_well_formed(data@),
    ensures
        r.meshes@.len() == parsed_mesh_tokens(data@).len(),
        forall|i: int|
            0 <= i < r.meshes@.len() ==> (#[trigger] r.meshes@[i] matches Some(m) && corner_tokens(m)
                == parsed_mesh_tokens(data@)[i]),
        string_views(r.texture_map@) == parsed_textures(data@),
{
    proof {
        reveal_strlit("\n");
    }
    let d = chars_of(data.as_str());
    let newline = chars_of("\n");
    let mut meshes: Vec<Option<[[String; 3]; 2]>> = Vec::new();
    match section_of(&d, "Mesh") {
        None => {},
        Some(v) => {
            let lines = split_chars(&v, &newline);
            assert(mesh_lines(data@) == pieces(lines@));
            let mut i: usize = 0;
            while i < lines.len()
                invariant
                    i <= lines.len(),
                    mesh_lines(data@) == pieces(lines@),
                    furnace_text_well_formed(data@),
                    meshes@.len() == i,
                    forall|k: int|
                        0 <= k < i ==> (#[trigger] meshes@[k] matches Some(m) && corner_tokens(m)
                            == parsed_mesh_tokens(data@)[k]),
                decreases lines.len() - i,
            {
                assert(mesh_lines(data@)[i as int] == lines@[i as int]@);
                let corners = line_corners(&lines[i]);
                meshes.push(Some(corners));
                i += 1;
            }
        },
    }
    let mut texture_map: Vec<String> = Vec::new();
    match section_of(&d, "Textures") {
        None => {
            assert(string_views(texture_map@) =~= parsed_textures(data@));
        },
        Some(v) => {
            let lines = split_chars(&v, &newline);
            let mut i: usize = 0;
            while i < lines.len()
                invariant
                    i <= lines.len(),
                    parsed_textures(data@) == pieces(lines@),
                    string_views(texture_map@) == pieces(lines@).take(i as int),
                decreases lines.len() - i,
            {
                let t = string_of(&lines[i]);
                let ghost before = texture_map@;
                texture_map.push(t);
                assert(string_views(texture_map@) =~= string_views(before).push(lines@[i as int]@));
                assert(pieces(lines@).take(i + 1) =~= pieces(lines@).take(i as int).push(
                    lines@[i as int]@,
                ));
                i += 1;
            }
            assert(pieces(lines@).take(lines.len() as int) =~= pieces(lines@));
        },
    }
    FurnaceFileData { meshes, texture_map }
}

} // verus!

verus! {

/// The `.furnace` line of a mesh: `(x,y,z);(x,y,z)` and a line break.
pub open spec fn mesh_line(m: [[String; 3]; 2]) -> Seq<char> {
    "("@ + m[0][0]@ + ","@ + m[0][1]@ + ","@ + m[0][2]@ + ");("@ + m[1][0]@ + ","@ + m[1][1]@
        + ","@ + m[1][2]@ + ")\n"@
}

/// The lines of the meshes that are present, in order.
pub open spec fn mesh_data(ms: Seq<Option<[[String; 3]; 2]>>) -> Seq<char>
    decreases ms.len(),
{
    if ms.len() == 0 {
        Seq::empty()
    } else {
        mesh_data(ms.drop_last()) + match ms.last() {
            Some(m) => mesh_line(m),
            None => Seq::empty(),
        }
    }
}

/// One line per texture.
pub open spec fn texture_data(ts: Seq<String>) -> Seq<char>
    decreases ts.len(),
{
    if ts.len() == 0 {
        Seq::empty()
    } else {
        texture_data(ts.drop_last()) + ts.last()@ + "\n"@
    }
}

/// The text of a `.furnace` file for the given meshes and textures.
pub open spec fn furnace_text(ms: Seq<Option<[[String; 3]; 2]>>, ts: Seq<String>) -> Seq<char> {
    "###Mesh##\n"@ + trim(mesh_data(ms)) + "\n###Textures##\n"@ + trim(texture_data(ts))
}

fn append_mesh_line(s: &mut String, m: &[[String; 3]; 2])
    ensures
        final(s)@ == old(s)@ + mesh_line(*m),
{
    s.append("(");
    s.append(m[0][0].as_str());
    s.append(",");
    s.append(m[0][1].as_str());
    s.append(",");
    s.append(m[0][2].as_str());
    s.append(");(");
    s.append(m[1][0].as_str());
    s.append(",");
    s.append(m[1][1].as_str());
    s.append(",");
    s.append(m[1][2].as_str());
    s.append(")\n");
}

fn trimmed(s: &String) -> (r: String)
    ensures
        r@ == trim(s@),
{
    string_of(&trim_chars(&chars_of(s.as_str())))
}

/// The text of the `.furnace` file for the given meshes (each given by the text
/// of its coordinates) and textures; nothing when there is no mesh.
pub fn furnace_file_text(meshes: &Vec<Option<[[String; 3]; 2]>>, textures: &Vec<String>) -> (r:
    Option<String>)
    ensures
        meshes.len() == 0 ==> r is None,
        meshes.len() > 0 ==> (r matches Some(s) && s@ == furnace_text(meshes@, textures@)),
{
    if meshes.len() == 0 {
        return None;
    }
    let mut md = String::new();
    let mut i: usize = 0;
    while i < meshes.len()
        invariant
            i <= meshes.len(),
            md@ == mesh_data(meshes@.take(i as int)),
        decreases meshes.len() - i,
    {
        assert(meshes@.take(i + 1).drop_last() =~= meshes@.take(i as int));
        match &meshes[i] {
            Some(m) => append_mesh_line(&mut md, m),
            None => {},
        }
        i += 1;
    }
    assert(meshes@.take(meshes.len() as int) =~= meshes@);
    let mut td = String::new();
    let mut j: usize = 0;
    while j < textures.len()
        invariant
            j <= textures.len(),
            td@ == texture_data(textures@.take(j as int)),
        decreases textures.len() - j,
    {
        assert(textures@.take(j + 1).drop_last() =~= textures@.take(j as int));
        td.append(textures[j].as_str());
        td.append("\n");
        j += 1;
    }
    assert(textures@.take(textures.len() as int) =~= textures@);
    let mut out = String::new();
    out.append("###Mesh##\n");
    out.append(trimmed(&md).as_str());
    out.append("\n###Textures##\n");
    out.append(trimmed(&td).as_str());
    Some(out)
}

/// The number that the `.map` file gives its first brush.
pub open spec fn brush_start() -> nat {
    7
}

/// The `.map` entry of the brush numbered `n`.
pub open spec fn brush_entry(n: nat, m: crate::mesh::Mesh<String>) -> Seq<char> {
    "// brush "@ + decimal(n) + "\n"@ + crate::mesh::mesh_text(m) + "\n"@
}

/// The entries of the brushes, numbered from [`brush_start`].
pub open spec fn map_body(bs: Seq<crate::mesh::Mesh<String>>) -> Seq<char>
    decreases bs.len(),
{
    if bs.len() == 0 {
        Seq::empty()
    } else {
        map_body(bs.drop_last()) + brush_entry(brush_start() + (bs.len() - 1) as nat, bs.last())
    }
}

/// The `.map` text: the base text with every `/*8*/` replaced by the brush entries.
pub open spec fn map_text(base: Seq<char>, bs: Seq<crate::mesh::Mesh<String>>) -> Seq<char> {
    replace(base, "/*8*/"@, map_body(bs))
}

fn append_brush_entry(s: &mut String, n: usize, m: &crate::mesh::Mesh<String>)
    ensures
        final(s)@ == old(s)@ + brush_entry(n as nat, *m),
{
    s.append("// brush ");
    s.append(string_of(&decimal_chars(n)).as_str());
    s.append("\n");
    m.append_text(s);
    s.append("\n");
}

/// The text of the `.map` file built from `base` and the brushes; nothing when
/// there is no brush.
pub fn map_file_text(base: &str, brushes: &Vec<crate::mesh::Mesh<String>>) -> (r: Option<String>)
    requires
        brushes.len() <= usize::MAX - 7,
    ensures
        brushes.len() == 0 ==> r is None,
        brushes.len() > 0 ==> (r matches Some(s) && s@ == map_text(base@, brushes@)),
{
    if brushes.len() == 0 {
        return None;
    }
    let mut body = String::new();
    let mut i: usize = 0;
    while i < brushes.len()
        invariant
            i <= brushes.len() <= usize::MAX - 7,
            body@ == map_body(brushes@.take(i as int)),
        decreases brushes.len() - i,
    {
        assert(brushes@.take(i + 1).drop_last() =~= brushes@.take(i as int));
        append_brush_entry(&mut body, 7 + i, &brushes[i]);
        i += 1;
    }
    assert(brushes@.take(brushes.len() as int) =~= brushes@);
    proof {
        reveal_strlit("/*8*/");
    }
    let text = replace_chars(&chars_of(base), &chars_of("/*8*/"), &chars_of(body.as_str()));
    Some(string_of(&text))
}

} // verus!

verus! {

proof fn lemma_map_body_step(bs: Seq<crate::mesh::Mesh<String>>, k: int)
    requires
        0 <= k < bs.len(),
    ensures
        map_body(bs.take(k + 1)) == map_body(bs.take(k)) + "// brush "@ + decimal((7 + k) as nat)
            + "\n"@ + crate::mesh::mesh_text(bs[k]) + "\n"@,
{
    let p = bs.take(k + 1);
    assert(p.drop_last() =~= bs.take(k));
    assert(p.last() == bs[k]);
    lemma_append_five(
        map_body(bs.take(k)),
        "// brush "@,
        decimal((7 + k) as nat),
        "\n"@,
        crate::mesh::mesh_text(bs[k]),
        "\n"@,
    );
}

proof fn lemma_append_five(
    x: Seq<char>,
    a: Seq<char>,
    b: Seq<char>,
    c: Seq<char>,
    d: Seq<char>,
    e: Seq<char>,
)
    ensures
        x + (a + b + c + d + e) == x + a + b + c + d + e,
{
    assert(x + (a + b + c + d + e) =~= x + a + b + c + d + e);
}

/// The `.map` body holds every brush, in order: it starts empty, and the
/// brush at position `k` adds the line `// brush <7 + k>`, the brush's text and
/// a line break after what the brushes before it wrote.
pub proof fn lemma_map_body_entries(bs: Seq<crate::mesh::Mesh<String>>)
    ensures
        map_body(Seq::<crate::mesh::Mesh<String>>::empty()) == Seq::<char>::empty(),
        map_body(bs.take(bs.len() as int)) == map_body(bs),
        forall|k: int|
            0 <= k < bs.len() ==> #[trigger] map_body(bs.take(k + 1)) == map_body(bs.take(k))
                + "// brush "@ + decimal((7 + k) as nat) + "\n"@ + crate::mesh::mesh_text(bs[k])
                + "\n"@,
{
    assert(bs.take(bs.len() as int) =~= bs);
    assert forall|k: int| 0 <= k < bs.len() implies #[trigger] map_body(bs.take(k + 1)) == map_body(
        bs.take(k),
    ) + "// brush "@ + decimal((7 + k) as nat) + "\n"@ + crate::mesh::mesh_text(bs[k])
        + "\n"@ by {
        lemma_map_body_step(bs, k);
    }
}

} // verus!
