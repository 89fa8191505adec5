//! Texture shorthands: `$w` and the like stand for texture paths.
use vstd::prelude::*;
use crate::text::{chars_eq, chars_of};

verus! {

/// The shorthands and the texture paths they stand for.
pub open spec fn texture_table() -> Seq<(Seq<char>, Seq<char>)> {
    seq![
        ("$w"@, "world/dev/dev_white_512"@),
        ("$g"@, "world/dev/dev_ground_512"@),
        ("$r"@, "world/dev/dev_red_512"@),
        ("$b"@, "world/dev/dev_blue_512"@),
        ("$win"@, "world/windows"@),
        ("$wood"@, "world/wood"@),
        ("$c"@, "world/concrete"@),
        ("$brick"@, "world/brick"@),
        ("$nodraw"@, "tools/toolsnodraw"@),
        ("$window"@, "tools/toolswindowhint"@),
    ]
}

/// The path of the first entry of `table` whose shorthand is `t`.
pub open spec fn lookup(table: Seq<(Seq<char>, Seq<char>)>, t: Seq<char>) -> Option<Seq<char>>
    decreases table.len(),
{
    if table.len() == 0 {
        None
    } else if table[0].0 == t {
        Some(table[0].1)
    } else {
        lookup(table.drop_first(), t)
    }
}

/// The texture that `t` names: the path of the shorthand `t`, or `t` itself.
pub open spec fn texture_path(t: Seq<char>) -> Seq<char> {
    match lookup(texture_table(), t) {
        Some(p) => p,
        None => t,
    }
}

/// The shorthands and the texture paths they stand for.
pub fn texture_shorthands() -> (r: Vec<(String, String)>)
    ensures
        r@.map_values(|e: (String, String)| (e.0@, e.1@)) == texture_table(),
{
    let r = vec![
        ("$w".to_owned(), "world/dev/dev_white_512".to_owned()),
        ("$g".to_owned(), "world/dev/dev_ground_512".to_owned()),
        ("$r".to_owned(), "world/dev/dev_red_512".to_owned()),
        ("$b".to_owned(), "world/dev/dev_blue_512".to_owned()),
        ("$win".to_owned(), "world/windows".to_owned()),
        ("$wood".to_owned(), "world/wood".to_owned()),
        ("$c".to_owned(), "world/concrete".to_owned()),
        ("$brick".to_owned(), "world/brick".to_owned()),
        ("$nodraw".to_owned(), "tools/toolsnodraw".to_owned()),
        ("$window".to_owned(), "tools/toolswindowhint".to_owned()),
    ];
    assert(r@.map_values(|e: (String, String)| (e.0@, e.1@)) =~= texture_table());
    r
}

/// The texture that `texture` names: the path its shorthand stands for, or the
/// texture itself when it is no shorthand.
pub fn get_path_texture(texture: &str) -> (r: String)
    ensures
        r@ == texture_path(texture@),
{
    let table = texture_shorthands();
    let t = chars_of(texture);
    let ghost views = table@.map_values(|e: (String, String)| (e.0@, e.1@));
    let mut i: usize = 0;
    assert(views.skip(0) =~= views);
    while i < table.len()
        invariant
            i <= table.len(),
            views == texture_table(),
            t@ == texture@,
            views.len() == table.len(),
            forall|k: int| 0 <= k < table.len() ==> #[trigger] views[k] == (table@[k].0@, table@[k].1@),
            lookup(texture_table(), t@) == lookup(views.skip(i as int), t@),
        decreases table.len() - i,
    {
        assert(views.skip(i as int)[0] == views[i as int]);
        assert(views.skip(i as int).drop_first() =~= views.skip(i + 1));
        if chars_eq(&chars_of(table[i].0.as_str()), &t) {
            assert(views[i as int].0 == t@);
            assert(views.skip(i as int).len() > 0);
            assert(lookup(views.skip(i as int), t@) == Some(views[i as int].1));
            let r = table[i].1.clone();
            assert(r@ == views[i as int].1);
            return r;
        }
        i += 1;
    }
    assert(views.skip(i as int).len() == 0);
    texture.to_owned()
}

} // verus!

verus! {

proof fn lemma_lookup_absent(table: Seq<(Seq<char>, Seq<char>)>, s: Seq<char>)
    requires
        forall|i: int| 0 <= i < table.len() ==> #[trigger] table[i].0 != s,
    ensures
        lookup(table, s) is None,
    decreases table.len(),
{
    if table.len() > 0 {
        assert(table[0].0 != s);
        assert forall|i: int| 0 <= i < table.drop_first().len() implies #[trigger] table.drop_first()[i].0 != s by {
            assert(table.drop_first()[i] == table[i + 1]);
        }
        lemma_lookup_absent(table.drop_first(), s);
    }
}

proof fn lemma_lookup_found(table: Seq<(Seq<char>, Seq<char>)>, s: Seq<char>) -> (i: int)
    requires
        lookup(table, s) is Some,
    ensures
        0 <= i < table.len(),
        lookup(table, s) == Some(table[i].1),
    decreases table.len(),
{
    if table[0].0 == s {
        0
    } else {
        let j = lemma_lookup_found(table.drop_first(), s);
        j + 1
    }
}

/// Naming a texture twice is naming it once: no texture path is itself a shorthand.
pub proof fn lemma_texture_path_idempotent(t: Seq<char>)
    ensures
        texture_path(texture_path(t)) == texture_path(t),
{
    reveal_strlit("$w");
    reveal_strlit("$g");
    reveal_strlit("$r");
    reveal_strlit("$b");
    reveal_strlit("$win");
    reveal_strlit("$wood");
    reveal_strlit("$c");
    reveal_strlit("$brick");
    reveal_strlit("$nodraw");
    reveal_strlit("$window");
    reveal_strlit("world/dev/dev_white_512");
    reveal_strlit("world/dev/dev_ground_512");
    reveal_strlit("world/dev/dev_red_512");
    reveal_strlit("world/dev/dev_blue_512");
    reveal_strlit("world/windows");
    reveal_strlit("world/wood");
    reveal_strlit("world/concrete");
    reveal_strlit("world/brick");
    reveal_strlit("tools/toolsnodraw");
    reveal_strlit("tools/toolswindowhint");
    let table = texture_table();
    if lookup(table, t) is Some {
        let i = lemma_lookup_found(table, t);
        let p = table[i].1;
        assert(p.len() > 0 && p[0] != '$');
        assert forall|k: int| 0 <= k < table.len() implies #[trigger] table[k].0 != p by {
            assert(table[k].0[0] == '$');
        }
        lemma_lookup_absent(table, p);
    }
}

} // verus!

verus! {

proof fn lemma_lookup_at(table: Seq<(Seq<char>, Seq<char>)>, i: int)
    requires
        0 <= i < table.len(),
        forall|j: int| 0 <= j < i ==> #[trigger] table[j].0 != table[i].0,
    ensures
        lookup(table, table[i].0) == Some(table[i].1),
    decreases i,
{
    if i > 0 {
        let rest = table.drop_first();
        assert(rest[i - 1] == table[i]);
        assert forall|j: int| 0 <= j < i - 1 implies #[trigger] rest[j].0 != rest[i - 1].0 by {
            assert(rest[j] == table[j + 1]);
        }
        lemma_lookup_at(rest, i - 1);
        assert(table[0].0 != table[i].0);
    }
}

/// Each shorthand names its texture path: `$w`, `$g`, `$r` and `$b` the white,
/// ground, red and blue dev textures, `$win` the windows, `$wood` wood, `$c`
/// concrete, `$brick` brick, `$nodraw` the no-draw tool texture and `$window`
/// the window hint; a texture that does not start with `$` names itself.
pub proof fn lemma_texture_shorthands_resolve(t: Seq<char>)
    ensures
        texture_path("$w"@) == "world/dev/dev_white_512"@,
        texture_path("$g"@) == "world/dev/dev_ground_512"@,
        texture_path("$r"@) == "world/dev/dev_red_512"@,
        texture_path("$b"@) == "world/dev/dev_blue_512"@,
        texture_path("$win"@) == "world/windows"@,
        texture_path("$wood"@) == "world/wood"@,
        texture_path("$c"@) == "world/concrete"@,
        texture_path("$brick"@) == "world/brick"@,
        texture_path("$nodraw"@) == "tools/toolsnodraw"@,
        texture_path("$window"@) == "tools/toolswindowhint"@,
        t.len() == 0 || t[0] != '$' ==> texture_path(t) == t,
{
    reveal_strlit("$w");
    reveal_strlit("$g");
    reveal_strlit("$r");
    reveal_strlit("$b");
    reveal_strlit("$win");
    reveal_strlit("$wood");
    reveal_strlit("$c");
    reveal_strlit("$brick");
    reveal_strlit("$nodraw");
    reveal_strlit("$window");
    assert("$w"@[1] == 'w' && "$g"@[1] == 'g' && "$r"@[1] == 'r' && "$b"@[1] == 'b'
        && "$c"@[1] == 'c');
    assert("$nodraw"@[1] == 'n' && "$window"@[1] == 'w');
    let table = texture_table();
    assert forall|i: int, j: int| 0 <= j < i < table.len() implies #[trigger] table[j].0
        != #[trigger] table[i].0 by {
        if table[j].0.len() == table[i].0.len() {
            assert(table[j].0[1] != table[i].0[1]);
        }
    }
    assert forall|k: int| 0 <= k < table.len() implies lookup(table, #[trigger] table[k].0)
        == Some(table[k].1) by {
        lemma_lookup_at(table, k);
    }
    assert(table[0].0 == "$w"@ && table[1].0 == "$g"@ && table[2].0 == "$r"@ && table[3].0
        == "$b"@ && table[4].0 == "$win"@);
    assert(table[5].0 == "$wood"@ && table[6].0 == "$c"@ && table[7].0 == "$brick"@
        && table[8].0 == "$nodraw"@ && table[9].0 == "$window"@);
    if t.len() == 0 || t[0] != '$' {
        assert forall|k: int| 0 <= k < table.len() implies #[trigger] table[k].0 != t by {
            assert(table[k].0[0] == '$');
        }
        lemma_lookup_absent(table, t);
    }
}

} // verus!
