//! What reading gives back of a written `.furnace` text.
use vstd::prelude::*;
use crate::map_info::{
    chunk_name, chunk_value, corner_tokens, furnace_text, furnace_text_well_formed, line_tokens,
    line_well_formed, mesh_data, mesh_line, mesh_lines, parsed_mesh_tokens, parsed_textures,
    section, section_in, string_views, strip_coord, texture_data,
};
use crate::text::{
    free_of, is_whitespace, lemma_no_match_pair_free, lemma_pair_free_concat,
    lemma_separated_pair_free, lemma_split_free, lemma_split_match, lemma_split_no_match,
    lemma_split_piece, lemma_split_separated, lemma_trim_terminated, pair_free, separated, split,
    strip_suffix, terminated, trim, trim_end, trim_start,
};

verus! {

/// The values that the `Some` entries hold, in order.
pub open spec fn present<X>(ms: Seq<Option<X>>) -> Seq<X>
    decreases ms.len(),
{
    if ms.len() == 0 {
        Seq::empty()
    } else {
        present(ms.drop_last()) + match ms.last() {
            Some(m) => seq![m],
            None => Seq::empty(),
        }
    }
}

/// The text of a corner in a `.furnace` line: `(x,y,z)`.
pub open spec fn point_text(c: [String; 3]) -> Seq<char> {
    "("@ + c[0]@ + ","@ + c[1]@ + ","@ + c[2]@ + ")"@
}

/// A `.furnace` mesh line without its line break.
pub open spec fn line_text(m: [[String; 3]; 2]) -> Seq<char> {
    point_text(m[0]) + ";"@ + point_text(m[1])
}

/// A coordinate text that the `.furnace` format keeps apart from its
/// neighbours: no `,`, `;` or line break, and no two `#` in a row.
pub open spec fn carried(t: Seq<char>) -> bool {
    &&& free_of(t, ',')
    &&& free_of(t, ';')
    &&& free_of(t, '\n')
    &&& pair_free(t, '#')
}

/// `s` ends with `c`.
pub open spec fn ends_with_char(s: Seq<char>, c: char) -> bool {
    s.len() > 0 && s.last() == c
}

/// `s` starts with `c`.
pub open spec fn starts_with_char(s: Seq<char>, c: char) -> bool {
    s.len() > 0 && s[0] == c
}

/// A corner whose coordinates the format gives back unchanged: each is
/// carried, the first two do not end with `)` and the last two do not start
/// with `(` (the reader strips one such parenthesis).
pub open spec fn clean_point(c: [String; 3]) -> bool {
    &&& carried(c[0]@)
    &&& carried(c[1]@)
    &&& carried(c[2]@)
    &&& !ends_with_char(c[0]@, ')')
    &&& !ends_with_char(c[1]@, ')')
    &&& !starts_with_char(c[1]@, '(')
    &&& !starts_with_char(c[2]@, '(')
}

/// A mesh whose two corners the format gives back unchanged.
pub open spec fn clean_mesh(m: [[String; 3]; 2]) -> bool {
    clean_point(m[0]) && clean_point(m[1])
}

/// A texture list that the format gives back unchanged: not empty; no line
/// break and no two `#` in a row in any texture; and the text does not start
/// or end with whitespace that trimming would remove (the list is a single
/// empty texture, or the first texture starts and the last ends with a
/// character other than whitespace).
pub open spec fn clean_textures(tv: Seq<Seq<char>>) -> bool {
    &&& tv.len() > 0
    &&& forall|i: int|
        0 <= i < tv.len() ==> free_of(#[trigger] tv[i], '\n') && pair_free(tv[i], '#')
    &&& ((tv.len() == 1 && tv[0].len() == 0) || (tv[0].len() > 0 && !is_whitespace(tv[0][0])
        && tv.last().len() > 0 && !is_whitespace(tv.last().last())))
}

proof fn lemma_literals()
    ensures
        "("@ =~= seq!['('],
        ")"@ =~= seq![')'],
        ","@ =~= seq![','],
        ";"@ =~= seq![';'],
        "\n"@ =~= seq!['\n'],
        ");("@ =~= seq![')', ';', '('],
        ")\n"@ =~= seq![')', '\n'],
        "##"@ =~= seq!['#', '#'],
        "###"@ =~= seq!['#', '#', '#'],
        "Mesh"@ =~= seq!['M', 'e', 's', 'h'],
        "Textures"@ =~= seq!['T', 'e', 'x', 't', 'u', 'r', 'e', 's'],
        "###Mesh##\n"@ =~= "###"@ + "Mesh"@ + "##"@ + "\n"@,
        "\n###Textures##\n"@ =~= "\n"@ + "###"@ + "Textures"@ + "##"@ + "\n"@,
{
    reveal_strlit("(");
    reveal_strlit(")");
    reveal_strlit(",");
    reveal_strlit(";");
    reveal_strlit("\n");
    reveal_strlit(");(");
    reveal_strlit(")\n");
    reveal_strlit("##");
    reveal_strlit("###");
    reveal_strlit("Mesh");
    reveal_strlit("Textures");
    reveal_strlit("###Mesh##\n");
    reveal_strlit("\n###Textures##\n");
}

proof fn lemma_mesh_line(m: [[String; 3]; 2])
    ensures
        mesh_line(m) == line_text(m).push('\n'),
{
    lemma_literals();
    assert(mesh_line(m) =~= line_text(m).push('\n'));
}

proof fn lemma_mesh_data(ms: Seq<Option<[[String; 3]; 2]>>)
    ensures
        mesh_data(ms) == terminated(present(ms).map_values(|m: [[String; 3]; 2]| line_text(m)), '\n'),
    decreases ms.len(),
{
    let f = |m: [[String; 3]; 2]| line_text(m);
    if ms.len() > 0 {
        lemma_mesh_data(ms.drop_last());
        let pre = present(ms.drop_last());
        match ms.last() {
            Some(m) => {
                lemma_mesh_line(m);
                assert(present(ms) =~= pre.push(m));
                assert(present(ms).map_values(f).drop_last() =~= pre.map_values(f));
            },
            None => {
                assert(present(ms) =~= pre);
                assert(mesh_data(ms) =~= mesh_data(ms.drop_last()));
            },
        }
    } else {
        assert(present(ms).map_values(f) =~= Seq::<Seq<char>>::empty());
    }
}

proof fn lemma_texture_data(ts: Seq<String>)
    ensures
        texture_data(ts) == terminated(string_views(ts), '\n'),
    decreases ts.len(),
{
    lemma_literals();
    if ts.len() > 0 {
        lemma_texture_data(ts.drop_last());
        assert(string_views(ts).drop_last() =~= string_views(ts.drop_last()));
        assert(ts.last()@ + "\n"@ =~= ts.last()@.push('\n'));
    } else {
        assert(string_views(ts) =~= Seq::<Seq<char>>::empty());
    }
}

/// Lines free of `d`, separated by a `c` other than `d`, are free of `d`.
proof fn lemma_separated_free(xs: Seq<Seq<char>>, c: char, d: char)
    requires
        c != d,
        forall|i: int| 0 <= i < xs.len() ==> free_of(#[trigger] xs[i], d),
    ensures
        free_of(terminated(xs, c), d),
        free_of(separated(xs, c), d),
    decreases xs.len(),
{
    if xs.len() > 0 {
        assert forall|i: int| 0 <= i < xs.drop_last().len() implies free_of(
            #[trigger] xs.drop_last()[i],
            d,
        ) by {
            assert(xs.drop_last()[i] == xs[i]);
        }
        lemma_separated_free(xs.drop_last(), c, d);
        assert(free_of(xs.last(), d));
        let t = terminated(xs.drop_last(), c);
        assert forall|i: int| 0 <= i < (t + xs.last().push(c)).len() implies (t + xs.last().push(
            c,
        ))[i] != d by {
            if i < t.len() {
            } else if i < t.len() + xs.last().len() {
                assert((t + xs.last().push(c))[i] == xs.last()[i - t.len()]);
            }
        }
        assert forall|i: int| 0 <= i < (t + xs.last()).len() implies (t + xs.last())[i] != d by {
            if i >= t.len() {
                assert((t + xs.last())[i] == xs.last()[i - t.len()]);
            }
        }
    }
}

} // verus!

verus! {

proof fn lemma_point(c: [String; 3])
    requires
        clean_point(c),
    ensures
        split(point_text(c), ","@).len() == 3,
        strip_coord(split(point_text(c), ","@)[0]) == c[0]@,
        strip_coord(split(point_text(c), ","@)[1]) == c[1]@,
        strip_coord(split(point_text(c), ","@)[2]) == c[2]@,
        free_of(point_text(c), ';'),
        free_of(point_text(c), '\n'),
        pair_free(point_text(c), '#'),
        point_text(c).len() > 0,
        point_text(c)[0] == '(',
        point_text(c).last() == ')',
{
    lemma_literals();
    let open = seq!['('];
    let close = seq![')'];
    let comma = seq![','];
    let a = open + c[0]@;
    let b = c[2]@ + close;
    assert(point_text(c) =~= a + comma + (c[1]@ + comma + b));
    assert(free_of(a, ',')) by {
        assert forall|i: int| 0 <= i < a.len() implies #[trigger] a[i] != ',' by {
            if i > 0 {
                assert(a[i] == c[0]@[i - 1]);
            }
        }
    }
    lemma_split_piece(a, comma, c[1]@ + comma + b);
    lemma_split_piece(c[1]@, comma, b);
    assert(free_of(b, ',')) by {
        assert forall|i: int| 0 <= i < b.len() implies #[trigger] b[i] != ',' by {
            if i < c[2]@.len() {
                assert(b[i] == c[2]@[i]);
            }
        }
    }
    lemma_split_free(b, comma, Seq::empty());
    assert(Seq::<char>::empty() + b =~= b);
    assert(split(point_text(c), ","@) =~= seq![a, c[1]@, b]);
    // the first coordinate: `(` then text not ending with `)`
    if c[0]@.len() > 0 {
        assert(a.last() == c[0]@.last());
    }
    assert(strip_suffix(a, ')') == a);
    assert(a.drop_first() =~= c[0]@);
    // the last coordinate: text not starting with `(`, then `)`
    assert(b.drop_last() =~= c[2]@);
    let pt = point_text(c);
    assert(pt =~= open + c[0]@ + comma + c[1]@ + comma + c[2]@ + close);
    let x = c[0]@;
    let y = c[1]@;
    let z = c[2]@;
    crate::text::lemma_free_concat(open, x, ';');
    crate::text::lemma_free_concat(open + x, comma, ';');
    crate::text::lemma_free_concat(open + x + comma, y, ';');
    crate::text::lemma_free_concat(open + x + comma + y, comma, ';');
    crate::text::lemma_free_concat(open + x + comma + y + comma, z, ';');
    crate::text::lemma_free_concat(open + x + comma + y + comma + z, close, ';');
    crate::text::lemma_free_concat(open, x, '\n');
    crate::text::lemma_free_concat(open + x, comma, '\n');
    crate::text::lemma_free_concat(open + x + comma, y, '\n');
    crate::text::lemma_free_concat(open + x + comma + y, comma, '\n');
    crate::text::lemma_free_concat(open + x + comma + y + comma, z, '\n');
    crate::text::lemma_free_concat(open + x + comma + y + comma + z, close, '\n');
    assert(pair_free(open, '#') && pair_free(comma, '#') && pair_free(close, '#'));
    lemma_pair_free_concat(open, x, '#');
    lemma_pair_free_concat(open + x, comma, '#');
    assert((open + x + comma).last() == ',');
    lemma_pair_free_concat(open + x + comma, y, '#');
    lemma_pair_free_concat(open + x + comma + y, comma, '#');
    assert((open + x + comma + y + comma).last() == ',');
    lemma_pair_free_concat(open + x + comma + y + comma, z, '#');
    lemma_pair_free_concat(open + x + comma + y + comma + z, close, '#');
}

} // verus!

verus! {

proof fn lemma_line(m: [[String; 3]; 2])
    requires
        clean_mesh(m),
    ensures
        line_well_formed(line_text(m)),
        line_tokens(line_text(m)) == corner_tokens(m),
        pair_free(line_text(m), '#'),
        free_of(line_text(m), '\n'),
        line_text(m).len() > 0,
        line_text(m)[0] == '(',
        line_text(m).last() == ')',
{
    lemma_literals();
    lemma_point(m[0]);
    lemma_point(m[1]);
    let p0 = point_text(m[0]);
    let p1 = point_text(m[1]);
    let semi = seq![';'];
    assert(line_text(m) =~= p0 + semi + p1);
    lemma_split_piece(p0, semi, p1);
    lemma_split_free(p1, semi, Seq::empty());
    assert(Seq::<char>::empty() + p1 =~= p1);
    let points = split(line_text(m), ";"@);
    assert(points =~= seq![p0, p1]);
    assert forall|j: int| 0 <= j < points.len() implies #[trigger] split(points[j], ","@).len()
        >= 3 by {
        if j == 0 {
            assert(points[j] == p0);
        } else {
            assert(points[j] == p1);
        }
    }
    assert(line_tokens(line_text(m)) =~= corner_tokens(m));
    assert(pair_free(semi, '#') && free_of(semi, '\n'));
    lemma_pair_free_concat(p0, semi, '#');
    assert((p0 + semi).last() == ';');
    lemma_pair_free_concat(p0 + semi, p1, '#');
    crate::text::lemma_free_concat(p0, semi, '\n');
    crate::text::lemma_free_concat(p0 + semi, p1, '\n');
    assert((p0 + semi + p1)[0] == p0[0]);
    assert((p0 + semi + p1).last() == p1.last());
}

} // verus!

verus! {

/// A `.furnace` text made of a mesh section `m` and a texture section `t`.
pub open spec fn sections_text(m: Seq<char>, t: Seq<char>) -> Seq<char> {
    "###Mesh##\n"@ + m + "\n###Textures##\n"@ + t
}

/// Text that trimming leaves alone and that holds no two `#` in a row.
pub open spec fn plain_section(s: Seq<char>) -> bool {
    &&& s.len() > 0
    &&& pair_free(s, '#')
    &&& !is_whitespace(s[0])
    &&& !is_whitespace(s.last())
}

proof fn lemma_trim_framed(s: Seq<char>, tail: bool)
    requires
        s.len() == 0 || (!is_whitespace(s[0]) && !is_whitespace(s.last())),
    ensures
        trim(if tail { seq!['\n'] + s + seq!['\n'] } else { seq!['\n'] + s }) == s,
{
    let f = seq!['\n'] + s;
    assert(f.drop_first() =~= s);
    if tail {
        let g = f + seq!['\n'];
        assert(g.drop_last() =~= f);
        assert(is_whitespace(g.last()));
        assert(trim_end(g) == trim_end(f));
    }
    if s.len() == 0 {
        assert(f =~= seq!['\n']);
        assert(f.drop_last() =~= Seq::<char>::empty());
        assert(trim_end(Seq::<char>::empty()) == Seq::<char>::empty());
        assert(trim_end(f) == Seq::<char>::empty());
        assert(trim_start(Seq::<char>::empty()) == Seq::<char>::empty());
    } else {
        assert(f.last() == s.last());
        assert(trim_end(f) == f);
        assert(is_whitespace(f[0]));
        assert(trim_start(f) == trim_start(s));
        assert(trim_start(s) == s);
    }
}

/// Splitting text without a pair of `#` on `##` gives it whole.
proof fn lemma_split_pair_free(a: Seq<char>)
    requires
        pair_free(a, '#'),
    ensures
        split(a, "##"@) == seq![a],
{
    lemma_literals();
    lemma_no_match_pair_free(a, Seq::empty(), seq!['#', '#'], '#');
    lemma_split_no_match(a, Seq::empty(), seq!['#', '#'], Seq::empty());
    assert(a + Seq::<char>::empty() =~= a);
    assert(Seq::<char>::empty() + a =~= a);
}

/// Reading the sections of a text built from a plain mesh section and a plain
/// (or empty) texture section gives them back.
proof fn lemma_sections(m: Seq<char>, t: Seq<char>)
    requires
        plain_section(m),
        t.len() == 0 || plain_section(t),
    ensures
        section(sections_text(m, t), "Mesh"@) == Some(m),
        section(sections_text(m, t), "Textures"@) == Some(t),
{
    lemma_literals();
    let p = seq!['#', '#', '#'];
    let hh = seq!['#', '#'];
    let nl = seq!['\n'];
    let hhn = seq!['#', '#', '\n'];
    let mesh = seq!['M', 'e', 's', 'h'];
    let textures = seq!['T', 'e', 'x', 't', 'u', 'r', 'e', 's'];
    let z = nl + m + nl;
    let w = nl + t;
    let x = mesh + hh + z;
    let y = textures + hh + w;
    let data = sections_text(m, t);
    assert(data =~= p + (x + (p + y)));
    assert(pair_free(nl, '#'));
    assert(pair_free(t, '#'));
    // no `###` inside the two chunks
    lemma_pair_free_concat(m, nl, '#');
    lemma_no_match_pair_free(m + nl, p + y, p, '#');
    crate::text::lemma_no_triple_hash('\n', m + nl + (p + y));
    assert(hhn + (m + nl) + (p + y) =~= hhn + (m + nl + (p + y)));
    crate::text::lemma_no_match_concat(hhn, m + nl, p + y, p);
    crate::text::lemma_no_match_free(mesh, hhn + (m + nl) + (p + y), p);
    assert(mesh + (hhn + (m + nl)) + (p + y) =~= mesh + (hhn + (m + nl) + (p + y)));
    crate::text::lemma_no_match_concat(mesh, hhn + (m + nl), p + y, p);
    assert(x =~= mesh + (hhn + (m + nl)));
    lemma_no_match_pair_free(t, Seq::empty(), p, '#');
    crate::text::lemma_no_triple_hash('\n', t + Seq::empty());
    assert(hhn + t + Seq::<char>::empty() =~= hhn + (t + Seq::<char>::empty()));
    crate::text::lemma_no_match_concat(hhn, t, Seq::empty(), p);
    crate::text::lemma_no_match_free(textures, hhn + t + Seq::empty(), p);
    assert(textures + (hhn + t) + Seq::<char>::empty() =~= textures + (hhn + t
        + Seq::<char>::empty()));
    crate::text::lemma_no_match_concat(textures, hhn + t, Seq::empty(), p);
    assert(y =~= textures + (hhn + t));
    // the chunks
    lemma_split_match(p, x + (p + y), Seq::empty());
    lemma_split_no_match(x, p + y, p, Seq::empty());
    lemma_split_match(p, y, Seq::<char>::empty() + x);
    lemma_split_no_match(y, Seq::empty(), p, Seq::empty());
    assert(y + Seq::<char>::empty() =~= y);
    assert(Seq::<char>::empty() + x =~= x);
    assert(Seq::<char>::empty() + y =~= y);
    let chunks = split(data, "###"@);
    assert(chunks =~= seq![Seq::<char>::empty(), x, y]);
    // names and values
    lemma_pair_free_concat(nl, m, '#');
    lemma_pair_free_concat(nl + m, nl, '#');
    lemma_pair_free_concat(nl, t, '#');
    lemma_split_piece(mesh, hh, z);
    lemma_split_pair_free(z);
    assert(split(x, "##"@) =~= seq![mesh, z]);
    lemma_split_piece(textures, hh, w);
    lemma_split_pair_free(w);
    assert(split(y, "##"@) =~= seq![textures, w]);
    lemma_trim_framed(m, true);
    lemma_trim_framed(t, false);
    assert(chunk_name(x) == "Mesh"@);
    assert(chunk_value(x) == m);
    assert(chunk_name(y) == "Textures"@);
    assert(chunk_value(y) == t);
    assert(chunk_name(y) != "Mesh"@);
    assert(chunks.drop_last() =~= seq![Seq::<char>::empty(), x]);
    assert(chunks.drop_last().last() == x);
    assert(section_in(chunks.drop_last(), "Mesh"@) == Some(m));
    assert(section_in(chunks, "Mesh"@) == section_in(chunks.drop_last(), "Mesh"@));
}

} // verus!

verus! {

/// What reading gives back of a written `.furnace` text: when at least one mesh
/// is present and the format gives every coordinate and the texture list back
/// unchanged (see [`clean_mesh`] and [`clean_textures`]), the text can be read,
/// it gives one mesh per present mesh, in order, with the same coordinates,
/// and it gives the textures back.
pub proof fn lemma_furnace_round_trip(ms: Seq<Option<[[String; 3]; 2]>>, ts: Seq<String>)
    requires
        present(ms).len() > 0,
        forall|i: int| 0 <= i < present(ms).len() ==> clean_mesh(#[trigger] present(ms)[i]),
        clean_textures(string_views(ts)),
    ensures
        furnace_text_well_formed(furnace_text(ms, ts)),
        parsed_mesh_tokens(furnace_text(ms, ts)) == present(ms).map_values(
            |m: [[String; 3]; 2]| corner_tokens(m),
        ),
        parsed_textures(furnace_text(ms, ts)) == string_views(ts),
{
    lemma_literals();
    let pm = present(ms);
    let lines = pm.map_values(|m: [[String; 3]; 2]| line_text(m));
    assert forall|i: int| 0 <= i < lines.len() implies {
        &&& free_of(#[trigger] lines[i], '\n')
        &&& pair_free(lines[i], '#')
        &&& line_well_formed(lines[i])
        &&& line_tokens(lines[i]) == corner_tokens(pm[i])
    } by {
        lemma_line(pm[i]);
    }
    lemma_line(pm[0]);
    lemma_line(pm.last());
    assert(lines[0] == line_text(pm[0]));
    assert(lines.last() == line_text(pm.last()));
    lemma_mesh_data(ms);
    lemma_trim_terminated(lines, '\n');
    let m = separated(lines, '\n');
    lemma_separated_pair_free(lines, '\n', '#');
    assert(plain_section(m));
    let tv = string_views(ts);
    lemma_texture_data(ts);
    lemma_separated_pair_free(tv, '\n', '#');
    let t = separated(tv, '\n');
    if tv.len() == 1 && tv[0].len() == 0 {
        assert(tv.drop_last() =~= Seq::<Seq<char>>::empty());
        assert(t =~= Seq::<char>::empty());
        assert(terminated(tv, '\n') =~= seq!['\n']);
        assert(seq!['\n'].drop_last() =~= Seq::<char>::empty());
        assert(trim_end(seq!['\n']) == trim_end(Seq::<char>::empty()));
        assert(trim(terminated(tv, '\n')) == t);
    } else {
        lemma_trim_terminated(tv, '\n');
        assert(plain_section(t));
    }
    let data = furnace_text(ms, ts);
    assert(data == sections_text(m, t));
    lemma_sections(m, t);
    lemma_split_separated(lines, '\n');
    lemma_split_separated(tv, '\n');
    assert(mesh_lines(data) == lines);
    assert(parsed_textures(data) == tv);
    assert(parsed_mesh_tokens(data) =~= pm.map_values(|m: [[String; 3]; 2]| corner_tokens(m)));
}

} // verus!

verus! {

/// Keeping the `Some` values: nothing from nothing, a `None` adds nothing, and
/// a `Some(x)` adds `x` at the end.
pub proof fn lemma_present_steps<X>(ms: Seq<Option<X>>, x: X)
    ensures
        present(Seq::<Option<X>>::empty()) == Seq::<X>::empty(),
        present(ms.push(None)) == present(ms),
        present(ms.push(Some(x))) == present(ms).push(x),
{
    assert(ms.push(None).drop_last() =~= ms);
    assert(ms.push(Some(x)).drop_last() =~= ms);
    assert(present(ms.push(None)) =~= present(ms));
    assert(present(ms.push(Some(x))) =~= present(ms).push(x));
}

} // verus!
