//! Names of the files that compiling a map reads and writes, and the command
//! line of the map compiler.
use vstd::prelude::*;
use vstd::string::*;

verus! {

/// The folder, below the mod folder, that holds the maps.
pub open spec fn maps_folder() -> Seq<char> {
    "Titanfall2/maps/"@
}

/// The `.map` file of a map: `{map}.map`.
pub fn map_file_name(map: &str) -> (r: String)
    ensures
        r@ == map@ + ".map"@,
{
    let mut r = String::new();
    r.append(map);
    r.append(".map");
    r
}

/// The compiled file of a map: `{map}.bsp`.
pub fn bsp_file_name(map: &str) -> (r: String)
    ensures
        r@ == map@ + ".bsp"@,
{
    let mut r = String::new();
    r.append(map);
    r.append(".bsp");
    r
}

/// The place of `file` relative to the mod folder: `Titanfall2/maps/{file}`.
pub fn maps_entry(file: &str) -> (r: String)
    ensures
        r@ == maps_folder() + file@,
{
    let mut r = String::new();
    r.append("Titanfall2/maps/");
    r.append(file);
    r
}

/// The place of a map's `.furnace` file relative to the mod folder:
/// `Titanfall2/maps/{map}.furnace`.
pub fn furnace_file_entry(map: &str) -> (r: String)
    ensures
        r@ == maps_folder() + map@ + ".furnace"@,
{
    let mut r = String::new();
    r.append("Titanfall2/maps/");
    r.append(map);
    r.append(".furnace");
    r
}

/// The arguments of the map compiler for the game folder `basepath` and the
/// `.map` file `map_path`.
pub open spec fn compiler_args_spec(basepath: Seq<char>, map_path: Seq<char>) -> Seq<Seq<char>> {
    seq![
        "-v"@,
        "-connect"@,
        "127.0.0.1:39000"@,
        "-game"@,
        "titanfall2"@,
        "-fs_basepath"@,
        basepath,
        "-fs_game"@,
        "Titanfall2"@,
        "-meta"@,
        map_path,
    ]
}

/// The arguments of the map compiler for the game folder `basepath` and the
/// `.map` file `map_path`.
pub fn compiler_args(basepath: &str, map_path: &str) -> (r: Vec<String>)
    ensures
        r@.map_values(|s: String| s@) == compiler_args_spec(basepath@, map_path@),
{
    let r = vec![
        "-v".to_owned(),
        "-connect".to_owned(),
        "127.0.0.1:39000".to_owned(),
        "-game".to_owned(),
        "titanfall2".to_owned(),
        "-fs_basepath".to_owned(),
        basepath.to_owned(),
        "-fs_game".to_owned(),
        "Titanfall2".to_owned(),
        "-meta".to_owned(),
        map_path.to_owned(),
    ];
    assert(r@.map_values(|s: String| s@) =~= compiler_args_spec(basepath@, map_path@));
    r
}

} // verus!

verus! {

/// The compiler is pointed at the game folder and the `.map` file exactly as
/// given: eleven arguments, the base path right after `-fs_basepath` and the
/// map path right after `-meta`, with the fixed connection, game and mod
/// arguments around them.
pub proof fn lemma_compiler_args_verbatim(basepath: Seq<char>, map_path: Seq<char>)
    ensures
        compiler_args_spec(basepath, map_path).len() == 11,
        compiler_args_spec(basepath, map_path)[0] == "-v"@,
        compiler_args_spec(basepath, map_path)[1] == "-connect"@,
        compiler_args_spec(basepath, map_path)[2] == "127.0.0.1:39000"@,
        compiler_args_spec(basepath, map_path)[3] == "-game"@,
        compiler_args_spec(basepath, map_path)[4] == "titanfall2"@,
        compiler_args_spec(basepath, map_path)[5] == "-fs_basepath"@,
        compiler_args_spec(basepath, map_path)[6] == basepath,
        compiler_args_spec(basepath, map_path)[7] == "-fs_game"@,
        compiler_args_spec(basepath, map_path)[8] == "Titanfall2"@,
        compiler_args_spec(basepath, map_path)[9] == "-meta"@,
        compiler_args_spec(basepath, map_path)[10] == map_path,
{
}

} // verus!
