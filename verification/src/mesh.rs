//! Brushes: a box given by two corners becomes six faces, and a brush has the
//! text that the `.map` format expects.
use vstd::prelude::*;
use vstd::string::*;

verus! {

/// One face of a brush: three corners that span its plane, and its texture.
pub struct Face<C> {
    pub topconer: [C; 3],
    pub anyconrer: [C; 3],
    pub bottomcorner: [C; 3],
    pub texture: String,
}

/// A box-shaped brush: its six faces.
pub struct Mesh<C> {
    pub up: Face<C>,
    pub down: Face<C>,
    pub left: Face<C>,
    pub right: Face<C>,
    pub forward: Face<C>,
    pub backwards: Face<C>,
}

/// The texture that every generated face carries.
pub open spec fn brush_texture() -> Seq<char> {
    "world/dev/dev_white_512"@
}

/// `f` has the corners `a`, `b`, `c` and the default brush texture.
pub open spec fn face_is<C>(f: Face<C>, a: [C; 3], b: [C; 3], c: [C; 3]) -> bool {
    &&& f.topconer == a
    &&& f.anyconrer == b
    &&& f.bottomcorner == c
    &&& f.texture@ == brush_texture()
}

/// `m` is the brush of the box with lowest corner `lo` and highest corner `hi`.
pub open spec fn is_box_brush<C>(m: Mesh<C>, lo: [C; 3], hi: [C; 3]) -> bool {
    &&& face_is(m.up, [lo[0], hi[1], hi[2]], [lo[0], lo[1], hi[2]], [lo[0], lo[1], lo[2]])
    &&& face_is(m.down, [lo[0], lo[1], hi[2]], [hi[0], lo[1], hi[2]], [hi[0], lo[1], lo[2]])
    &&& face_is(m.forward, [hi[0], lo[1], lo[2]], [hi[0], hi[1], lo[2]], [lo[0], hi[1], lo[2]])
    &&& face_is(m.backwards, [lo[0], hi[1], hi[2]], [hi[0], hi[1], hi[2]], [hi[0], lo[1], hi[2]])
    &&& face_is(m.right, [hi[0], hi[1], lo[2]], [hi[0], hi[1], hi[2]], [lo[0], hi[1], hi[2]])
    &&& face_is(m.left, [hi[0], lo[1], hi[2]], [hi[0], hi[1], hi[2]], [hi[0], hi[1], lo[2]])
}

fn new_face<C: Copy>(a: [C; 3], b: [C; 3], c: [C; 3]) -> (f: Face<C>)
    ensures
        face_is(f, a, b, c),
{
    Face { topconer: a, anyconrer: b, bottomcorner: c, texture: "world/dev/dev_white_512".to_owned() }
}

impl<C: Copy> Mesh<C> {
    /// The brush of the box whose lowest corner is `lo` and highest corner is `hi`
    /// (the caller orders the coordinates of the two corners per axis).
    pub fn from_bounds(lo: [C; 3], hi: [C; 3]) -> (m: Mesh<C>)
        ensures
            is_box_brush(m, lo, hi),
    {
        let up = new_face([lo[0], hi[1], hi[2]], [lo[0], lo[1], hi[2]], [lo[0], lo[1], lo[2]]);
        let down = new_face([lo[0], lo[1], hi[2]], [hi[0], lo[1], hi[2]], [hi[0], lo[1], lo[2]]);
        let forward = new_face([hi[0], lo[1], lo[2]], [hi[0], hi[1], lo[2]], [lo[0], hi[1], lo[2]]);
        let backwards = new_face([lo[0], hi[1], hi[2]], [hi[0], hi[1], hi[2]], [hi[0], lo[1], hi[2]]);
        let right = new_face([hi[0], hi[1], lo[2]], [hi[0], hi[1], hi[2]], [lo[0], hi[1], hi[2]]);
        let left = new_face([hi[0], lo[1], hi[2]], [hi[0], hi[1], hi[2]], [hi[0], hi[1], lo[2]]);
        Mesh { up, down, left, right, forward, backwards }
    }
}

/// The `.map` text of a corner: its three coordinates between spaces.
pub open spec fn corner_text(c: [String; 3]) -> Seq<char> {
    c[0]@ + " "@ + c[1]@ + " "@ + c[2]@
}

/// The `.map` text of a face.
pub open spec fn face_text(f: Face<String>) -> Seq<char> {
    "( "@ + corner_text(f.topconer) + " ) ( "@ + corner_text(f.anyconrer) + " ) ( "@
        + corner_text(f.bottomcorner) + " ) ( ( 0.0078125 0 -0 ) ( -0 0.0078125 0 ) ) "@
        + f.texture@ + " 0 0 0"@
}

/// The `.map` text of a brush.
pub open spec fn mesh_text(m: Mesh<String>) -> Seq<char> {
    "{\nbrushDef\n{\n"@ + face_text(m.up) + "\n"@ + face_text(m.down) + "\n"@ + face_text(m.left)
        + "\n"@ + face_text(m.right) + "\n"@ + face_text(m.forward) + "\n"@ + face_text(
        m.backwards,
    ) + "\n}\n}"@
}

fn append_corner(s: &mut String, c: &[String; 3])
    ensures
        final(s)@ == old(s)@ + corner_text(*c),
{
    s.append(c[0].as_str());
    s.append(" ");
    s.append(c[1].as_str());
    s.append(" ");
    s.append(c[2].as_str());
}

impl Face<String> {
    /// Appends the `.map` text of the face to `s`.
    pub fn append_text(&self, s: &mut String)
        ensures
            final(s)@ == old(s)@ + face_text(*self),
    {
        s.append("( ");
        append_corner(s, &self.topconer);
        s.append(" ) ( ");
        append_corner(s, &self.anyconrer);
        s.append(" ) ( ");
        append_corner(s, &self.bottomcorner);
        s.append(" ) ( ( 0.0078125 0 -0 ) ( -0 0.0078125 0 ) ) ");
        s.append(self.texture.as_str());
        s.append(" 0 0 0");
    }

    /// The `.map` text of the face.
    pub fn text(&self) -> (r: String)
        ensures
            r@ == face_text(*self),
    {
        let mut s = String::new();
        self.append_text(&mut s);
        s
    }
}

impl Mesh<String> {
    /// Appends the `.map` text of the brush to `s`.
    pub fn append_text(&self, s: &mut String)
        ensures
            final(s)@ == old(s)@ + mesh_text(*self),
    {
        s.append("{\nbrushDef\n{\n");
        self.up.append_text(s);
        s.append("\n");
        self.down.append_text(s);
        s.append("\n");
        self.left.append_text(s);
        s.append("\n");
        self.right.append_text(s);
        s.append("\n");
        self.forward.append_text(s);
        s.append("\n");
        self.backwards.append_text(s);
        s.append("\n}\n}");
    }

    /// The `.map` text of the brush.
    pub fn text(&self) -> (r: String)
        ensures
            r@ == mesh_text(*self),
    {
        let mut s = String::new();
        self.append_text(&mut s);
        s
    }
}

} // verus!

verus! {

/// A corner is written as its three coordinate texts exactly as given, signs
/// and all, separated by single spaces.
pub proof fn lemma_corner_text_verbatim(c: [String; 3])
    ensures
        corner_text(c) == c[0]@ + " "@ + c[1]@ + " "@ + c[2]@,
        corner_text(c).subrange(0, c[0]@.len() as int) == c[0]@,
        corner_text(c).subrange(
            corner_text(c).len() - c[2]@.len(),
            corner_text(c).len() as int,
        ) == c[2]@,
{
    let t = corner_text(c);
    assert(t.subrange(0, c[0]@.len() as int) =~= c[0]@);
    assert(t.subrange(t.len() - c[2]@.len(), t.len() as int) =~= c[2]@);
}

/// A face is written as its three corners in order, each between brackets with
/// its coordinates verbatim, then the fixed texture axes, the texture name and
/// three zeros.
pub proof fn lemma_face_text_layout(f: Face<String>)
    ensures
        face_text(f) == "( "@ + f.topconer[0]@ + " "@ + f.topconer[1]@ + " "@ + f.topconer[2]@
            + " ) ( "@ + f.anyconrer[0]@ + " "@ + f.anyconrer[1]@ + " "@ + f.anyconrer[2]@
            + " ) ( "@ + f.bottomcorner[0]@ + " "@ + f.bottomcorner[1]@ + " "@
            + f.bottomcorner[2]@ + " ) ( ( 0.0078125 0 -0 ) ( -0 0.0078125 0 ) ) "@ + f.texture@
            + " 0 0 0"@,
{
    lemma_corner_text_verbatim(f.topconer);
    lemma_corner_text_verbatim(f.anyconrer);
    lemma_corner_text_verbatim(f.bottomcorner);
    assert(face_text(f) =~= "( "@ + f.topconer[0]@ + " "@ + f.topconer[1]@ + " "@
        + f.topconer[2]@ + " ) ( "@ + f.anyconrer[0]@ + " "@ + f.anyconrer[1]@ + " "@
        + f.anyconrer[2]@ + " ) ( "@ + f.bottomcorner[0]@ + " "@ + f.bottomcorner[1]@ + " "@
        + f.bottomcorner[2]@ + " ) ( ( 0.0078125 0 -0 ) ( -0 0.0078125 0 ) ) "@ + f.texture@
        + " 0 0 0"@);
}

} // verus!

verus! {

/// A brush is written as `brushDef` between braces with its six faces, one per
/// line, in the order up, down, left, right, forward, backwards.
pub proof fn lemma_mesh_text_layout(m: Mesh<String>)
    ensures
        mesh_text(m) == "{\nbrushDef\n{\n"@ + face_text(m.up) + "\n"@ + face_text(m.down) + "\n"@
            + face_text(m.left) + "\n"@ + face_text(m.right) + "\n"@ + face_text(m.forward)
            + "\n"@ + face_text(m.backwards) + "\n}\n}"@,
{
}

} // verus!
