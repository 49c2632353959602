//! The TTF font: which glyphs a font file provides (read with ttf-parser),
//! and the glyph atlas layout, where glyph cells are placed on shelves, left
//! to right, a new shelf starting when the first one holds about the square
//! root of the glyph count or when a cell would widen the atlas.
use vstd::prelude::*;

verus! {

/// The packer's running state after some glyphs: the pen position, the
/// height of the current shelf and the atlas width so far.
pub ghost struct Shelf {
    pub x: int,
    pub y: int,
    pub row: int,
    pub width: int,
}

pub open spec fn max_int(a: int, b: int) -> int {
    if a >= b {
        a
    } else {
        b
    }
}

/// Whether glyph `i` starts a new shelf: on the first shelf once `i * i`
/// reaches the glyph count; later, when it does not fit in the width so far.
pub open spec fn starts_shelf(sizes: Seq<(usize, usize)>, i: int, st: Shelf) -> bool {
    ||| st.y == 0 && i * i >= sizes.len()
    ||| st.y > 0 && st.x > 0 && st.x + sizes[i].0 > st.width
}

/// The corner at which glyph `i` is placed, given the state before it.
pub open spec fn place(sizes: Seq<(usize, usize)>, i: int, st: Shelf) -> (int, int) {
    if starts_shelf(sizes, i, st) {
        (0, st.y + st.row)
    } else {
        (st.x, st.y)
    }
}

/// The state after the first `k` glyphs.
pub open spec fn shelf_after(sizes: Seq<(usize, usize)>, k: nat) -> Shelf
    decreases k,
{
    if k == 0 {
        Shelf { x: 0, y: 0, row: 0, width: 0 }
    } else {
        let i = k - 1;
        let st = shelf_after(sizes, (k - 1) as nat);
        let p = place(sizes, i, st);
        let row0 = if starts_shelf(sizes, i, st) {
            0
        } else {
            st.row
        };
        Shelf {
            x: p.0 + sizes[i].0,
            y: p.1,
            row: max_int(row0, sizes[i].1 as int),
            width: max_int(st.width, p.0 + sizes[i].0),
        }
    }
}

/// The corner of glyph `i` in the atlas.
pub open spec fn glyph_corner(sizes: Seq<(usize, usize)>, i: int) -> (int, int) {
    place(sizes, i, shelf_after(sizes, i as nat))
}

/// Width of the atlas for all the glyphs.
pub open spec fn atlas_width(sizes: Seq<(usize, usize)>) -> int {
    shelf_after(sizes, sizes.len()).width
}

/// Height of the atlas for all the glyphs: the last shelf's top.
pub open spec fn atlas_height(sizes: Seq<(usize, usize)>) -> int {
    let st = shelf_after(sizes, sizes.len());
    st.y + st.row
}

pub open spec fn sum_widths(sizes: Seq<(usize, usize)>) -> int
    decreases sizes.len(),
{
    if sizes.len() == 0 {
        0
    } else {
        sum_widths(sizes.drop_last()) + sizes.last().0
    }
}

pub open spec fn sum_heights(sizes: Seq<(usize, usize)>) -> int
    decreases sizes.len(),
{
    if sizes.len() == 0 {
        0
    } else {
        sum_heights(sizes.drop_last()) + sizes.last().1
    }
}

/// Two cells, given by corner and size, share no interior point.
pub open spec fn cells_disjoint(a: (int, int), sa: (usize, usize), b: (int, int), sb: (usize, usize)) -> bool {
    ||| a.0 + sa.0 <= b.0
    ||| b.0 + sb.0 <= a.0
    ||| a.1 + sa.1 <= b.1
    ||| b.1 + sb.1 <= a.1
}

/// What holds of the state after `k` glyphs: every placed cell lies below
/// the current shelf's top, and either below the current shelf or left of
/// the pen; every cell lies within the width; the state stays within the
/// sums of the sizes.
pub open spec fn shelf_inv(sizes: Seq<(usize, usize)>, k: nat) -> bool {
    let st = shelf_after(sizes, k);
    &&& 0 <= st.x <= sum_widths(sizes.take(k as int))
    &&& 0 <= st.width <= sum_widths(sizes.take(k as int))
    &&& 0 <= st.y
    &&& 0 <= st.row
    &&& st.y + st.row <= sum_heights(sizes.take(k as int))
    &&& forall|i: int|
        0 <= i < k ==> {
            let c = #[trigger] glyph_corner(sizes, i);
            &&& 0 <= c.0
            &&& 0 <= c.1
            &&& c.1 + sizes[i].1 <= st.y + st.row
            &&& (c.1 + sizes[i].1 <= st.y || c.0 + sizes[i].0 <= st.x)
            &&& c.0 + sizes[i].0 <= st.width
        }
    &&& forall|i: int, j: int|
        0 <= i < j < k ==> cells_disjoint(
            #[trigger] glyph_corner(sizes, i),
            sizes[i],
            #[trigger] glyph_corner(sizes, j),
            sizes[j],
        )
}

proof fn lemma_shelf_inv(sizes: Seq<(usize, usize)>, k: nat)
    requires
        k <= sizes.len(),
    ensures
        shelf_inv(sizes, k),
    decreases k,
{
    if k == 0 {
        assert(sizes.take(0) =~= Seq::<(usize, usize)>::empty());
    } else {
        let i = k - 1;
        lemma_shelf_inv(sizes, (k - 1) as nat);
        let st = shelf_after(sizes, (k - 1) as nat);
        let st2 = shelf_after(sizes, k);
        assert(sizes.take(k as int).drop_last() =~= sizes.take(k - 1));
        assert(sizes.take(k as int).last() == sizes[i]);
        let c = glyph_corner(sizes, i);
        assert(c == place(sizes, i, st));
        assert forall|t: int| 0 <= t < k implies {
            let ct = #[trigger] glyph_corner(sizes, t);
            &&& 0 <= ct.0
            &&& 0 <= ct.1
            &&& ct.1 + sizes[t].1 <= st2.y + st2.row
            &&& (ct.1 + sizes[t].1 <= st2.y || ct.0 + sizes[t].0 <= st2.x)
            &&& ct.0 + sizes[t].0 <= st2.width
        } by {
            if t < i {
                let ct = glyph_corner(sizes, t);
                assert(ct.1 + sizes[t].1 <= st.y + st.row);
            }
        }
        assert forall|a: int, b: int| 0 <= a < b < k implies cells_disjoint(
            #[trigger] glyph_corner(sizes, a),
            sizes[a],
            #[trigger] glyph_corner(sizes, b),
            sizes[b],
        ) by {
            if b == i {
                let ca = glyph_corner(sizes, a);
                assert(ca.1 + sizes[a].1 <= st.y + st.row);
                assert(ca.1 + sizes[a].1 <= st.y || ca.0 + sizes[a].0 <= st.x);
            }
        }
    }
}

/// Every cell lies inside the atlas.
pub proof fn law_atlas_cells_inside(sizes: Seq<(usize, usize)>, i: int)
    requires
        0 <= i < sizes.len(),
    ensures
        0 <= glyph_corner(sizes, i).0,
        0 <= glyph_corner(sizes, i).1,
        glyph_corner(sizes, i).0 + sizes[i].0 <= atlas_width(sizes),
        glyph_corner(sizes, i).1 + sizes[i].1 <= atlas_height(sizes),
{
    lemma_shelf_inv(sizes, sizes.len());
    assert(glyph_corner(sizes, i) == glyph_corner(sizes, i));
}

/// No two cells of the atlas overlap.
pub proof fn law_atlas_cells_disjoint(sizes: Seq<(usize, usize)>, i: int, j: int)
    requires
        0 <= i < sizes.len(),
        0 <= j < sizes.len(),
        i != j,
    ensures
        cells_disjoint(glyph_corner(sizes, i), sizes[i], glyph_corner(sizes, j), sizes[j]),
{
    lemma_shelf_inv(sizes, sizes.len());
    if i < j {
        assert(cells_disjoint(glyph_corner(sizes, i), sizes[i], glyph_corner(sizes, j), sizes[j]));
    } else {
        assert(cells_disjoint(glyph_corner(sizes, j), sizes[j], glyph_corner(sizes, i), sizes[i]));
    }
}

/// Placement of the glyph cells in the atlas: the corner of each cell, and
/// the atlas size.
#[derive(Debug)]
pub struct AtlasLayout {
    pub corners: Vec<(usize, usize)>,
    pub width: usize,
    pub height: usize,
}

proof fn lemma_sums_prefix(sizes: Seq<(usize, usize)>, k: int)
    requires
        0 <= k <= sizes.len(),
    ensures
        0 <= sum_widths(sizes.take(k)) <= sum_widths(sizes),
        0 <= sum_heights(sizes.take(k)) <= sum_heights(sizes),
    decreases sizes.len(),
{
    if k < sizes.len() {
        assert(sizes.drop_last().take(k) =~= sizes.take(k));
        lemma_sums_prefix(sizes.drop_last(), k);
    } else {
        assert(sizes.take(k) =~= sizes);
    }
    if sizes.len() > 0 {
        lemma_sums_prefix_nonneg(sizes.drop_last());
    }
}

proof fn lemma_sums_prefix_nonneg(sizes: Seq<(usize, usize)>)
    ensures
        sum_widths(sizes) >= 0,
        sum_heights(sizes) >= 0,
    decreases sizes.len(),
{
    if sizes.len() > 0 {
        lemma_sums_prefix_nonneg(sizes.drop_last());
    }
}

/// Places glyph cells of the given sizes (in order) in an atlas.
pub fn pack_glyphs(sizes: &Vec<(usize, usize)>) -> (r: AtlasLayout)
    requires
        sum_widths(sizes@) <= usize::MAX,
        sum_heights(sizes@) <= usize::MAX,
    ensures
        r.corners@.len() == sizes@.len(),
        forall|i: int|
            0 <= i < sizes@.len() ==> (#[trigger] r.corners@[i]).0 == glyph_corner(sizes@, i).0
                && r.corners@[i].1 == glyph_corner(sizes@, i).1,
        r.width == atlas_width(sizes@),
        r.height == atlas_height(sizes@),
{
    let n = sizes.len();
    let mut corners: Vec<(usize, usize)> = Vec::new();
    let mut width: usize = 0;
    let mut x: usize = 0;
    let mut y: usize = 0;
    let mut row_height: usize = 0;
    let mut i: usize = 0;
    while i < n
        invariant
            n == sizes@.len(),
            i <= n,
            sum_widths(sizes@) <= usize::MAX,
            sum_heights(sizes@) <= usize::MAX,
            shelf_after(sizes@, i as nat) == (Shelf {
                x: x as int,
                y: y as int,
                row: row_height as int,
                width: width as int,
            }),
            corners@.len() == i,
            forall|t: int|
                0 <= t < i ==> (#[trigger] corners@[t]).0 == glyph_corner(sizes@, t).0
                    && corners@[t].1 == glyph_corner(sizes@, t).1,
        decreases n - i,
    {
        let (w, h) = sizes[i];
        proof {
            lemma_shelf_inv(sizes@, i as nat);
            lemma_shelf_inv(sizes@, (i + 1) as nat);
            lemma_sums_prefix(sizes@, i as int);
            lemma_sums_prefix(sizes@, i + 1);
            assert(sizes@.take(i + 1).drop_last() =~= sizes@.take(i as int));
            assert(sizes@.take(i + 1).last() == sizes@[i as int]);
        }
        let ii = i as u128;
        assert(ii * ii <= 0xffff_ffff_ffff_ffff_u128 * 0xffff_ffff_ffff_ffff_u128) by (nonlinear_arith)
            requires
                ii <= 0xffff_ffff_ffff_ffff_u128,
        ;
        let wide = ii * ii >= n as u128;
        if (y == 0 && wide) || (y > 0 && x > 0 && x + w > width) {
            x = 0;
            y = y + row_height;
            row_height = 0;
        }
        corners.push((x, y));
        x = x + w;
        if h > row_height {
            row_height = h;
        }
        if x > width {
            width = x;
        }
        i = i + 1;
    }
    proof {
        lemma_shelf_inv(sizes@, n as nat);
        assert(sizes@.take(n as int) =~= sizes@);
    }
    AtlasLayout { corners, width, height: y + row_height }
}

/// What ttf-parser reads from the bytes of a font file: `None` where the
/// face cannot be parsed; else the ascender, descender and line gap, and,
/// where the face has a character map, one entry per code point listed by
/// each of its subtables in order: whether the subtable is a Unicode
/// encoding, the code point, and, where the subtable maps it to a glyph, that
/// glyph's bounding box `(x_min, y_min, x_max, y_max)` (if it has one) and
/// horizontal advance (if the face gives one), in font units.
pub uninterp spec fn font_face_data(data: Seq<u8>) -> Option<
    (i16, i16, i16, Option<Seq<(bool, u32, Option<(Option<(i16, i16, i16, i16)>, Option<u16>)>)>>),
>;

/// The parts of a parsed font face that the font is built from; see
/// `font_face_data`.
pub struct FontFace {
    pub ascender: i16,
    pub descender: i16,
    pub line_gap: i16,
    pub cmap: Option<Vec<(bool, u32, Option<(Option<(i16, i16, i16, i16)>, Option<u16>)>)>>,
}

impl View for FontFace {
    type V = (
        i16,
        i16,
        i16,
        Option<Seq<(bool, u32, Option<(Option<(i16, i16, i16, i16)>, Option<u16>)>)>>,
    );

    open spec fn view(&self) -> Self::V {
        (
            self.ascender,
            self.descender,
            self.line_gap,
            match self.cmap {
                Some(v) => Some(v@),
                None => None,
            },
        )
    }
}

fn push_code_point(
    points: &mut Vec<(bool, u32, Option<(Option<(i16, i16, i16, i16)>, Option<u16>)>)>,
    point: (bool, u32, Option<(Option<(i16, i16, i16, i16)>, Option<u16>)>),
)
    ensures
        final(points)@ == old(points)@.push(point),
{
    points.push(point);
}

/// Parses face 0 of a font file with `ttf_parser::Face::from_slice` and
/// lists what `font_face_data` describes: the face's `ascender`,
/// `descender` and `line_gap`, and for each subtable of its `cmap` table
/// (`Subtable::is_unicode`, `Subtable::codepoints`, `Subtable::glyph_index`)
/// each code point with its glyph's `Face::glyph_bounding_box` and
/// `Face::glyph_hor_advance`. The contract claims only that the result is
/// that description of the bytes, and `None` exactly where parsing fails.
#[verifier::external_body]
fn read_font_face(data: &[u8]) -> (r: Option<FontFace>)
    ensures
        match r {
            Some(f) => font_face_data(data@) == Some(f@),
            None => font_face_data(data@) is None,
        },
{
    let face = ttf_parser::Face::from_slice(data, 0).ok()?;
    let glyph = |id| (face.glyph_bounding_box(id).map(|b| (b.x_min, b.y_min, b.x_max, b.y_max)), face.glyph_hor_advance(id));
    let cmap = face.tables().cmap.map(|cmap| {
        let mut points = Vec::new();
        for s in cmap.subtables {
            s.codepoints(|c| push_code_point(&mut points, (s.is_unicode(), c, s.glyph_index(c).map(glyph))));
        }
        points
    });
    Some(FontFace { ascender: face.ascender(), descender: face.descender(), line_gap: face.line_gap(), cmap })
}

/// Whether `code` is the code of a character: at most U+10FFFF and not a
/// surrogate.
pub open spec fn is_char_code(code: u32) -> bool {
    code <= 0x10FFFF && !(0xD800 <= code <= 0xDFFF)
}

/// `char::from_u32`: the character of that code, or `None` where the code
/// is not that of a character, as std documents.
#[verifier::external_body]
fn char_from_code(code: u32) -> (r: Option<char>)
    ensures
        r == (if is_char_code(code) {
            Some(code as char)
        } else {
            None
        }),
{
    char::from_u32(code)
}

/// The code points of `glyphs`.
pub open spec fn glyph_codes(glyphs: Seq<(u32, (Option<(i16, i16, i16, i16)>, Option<u16>))>) -> Set<u32>
    decreases glyphs.len(),
{
    if glyphs.len() == 0 {
        Set::empty()
    } else {
        glyph_codes(glyphs.drop_last()).insert(glyphs.last().0)
    }
}

/// The glyphs the font keeps from the character map entries `cmap`, in
/// order: an entry counts only where its subtable is a Unicode encoding, it
/// maps to a glyph, its code point is that of a character, and no earlier
/// entry that counted had the same code point.
pub open spec fn first_glyphs(
    cmap: Seq<(bool, u32, Option<(Option<(i16, i16, i16, i16)>, Option<u16>)>)>,
) -> Seq<(u32, (Option<(i16, i16, i16, i16)>, Option<u16>))>
    decreases cmap.len(),
{
    if cmap.len() == 0 {
        Seq::empty()
    } else {
        let kept = first_glyphs(cmap.drop_last());
        let e = cmap.last();
        if e.0 && e.2 is Some && is_char_code(e.1) && !glyph_codes(kept).contains(e.1) {
            kept.push((e.1, e.2->0))
        } else {
            kept
        }
    }
}

/// A kept glyph as the font records it: its character, its bounding box,
/// and its advance (0 where the face gives none).
pub open spec fn glyph_entry(g: (u32, (Option<(i16, i16, i16, i16)>, Option<u16>))) -> (
    char,
    Option<(i16, i16, i16, i16)>,
    u16,
) {
    (
        g.0 as char,
        g.1.0,
        match g.1.1 {
            Some(a) => a,
            None => 0,
        },
    )
}

/// The glyphs of a font whose character map entries are `cmap`.
pub open spec fn face_glyphs(
    cmap: Seq<(bool, u32, Option<(Option<(i16, i16, i16, i16)>, Option<u16>)>)>,
) -> Seq<(char, Option<(i16, i16, i16, i16)>, u16)> {
    first_glyphs(cmap).map_values(|g| glyph_entry(g))
}

/// The glyphs of `face`, in character map order, each code point once.
pub fn font_glyphs(face: &FontFace) -> (r: Vec<(char, Option<(i16, i16, i16, i16)>, u16)>)
    requires
        face.cmap is Some,
    ensures
        r@ == face_glyphs(face@.3->0),
{
    broadcast use vstd::std_specs::hash::group_hash_axioms;

    let cmap = match &face.cmap {
        Some(c) => c,
        None => {
            return Vec::new();
        },
    };
    let mut out: Vec<(char, Option<(i16, i16, i16, i16)>, u16)> = Vec::new();
    let mut found: std::collections::HashSet<u32> = std::collections::HashSet::new();
    let mut i: usize = 0;
    while i < cmap.len()
        invariant
            i <= cmap@.len(),
            face@.3->0 == cmap@,
            out@ == first_glyphs(cmap@.take(i as int)).map_values(|g| glyph_entry(g)),
            found@ == glyph_codes(first_glyphs(cmap@.take(i as int))),
        decreases cmap@.len() - i,
    {
        let ghost before = first_glyphs(cmap@.take(i as int));
        let (unicode, code, glyph) = cmap[i];
        proof {
            assert(cmap@.take(i + 1).drop_last() =~= cmap@.take(i as int));
            assert(cmap@.take(i + 1).last() == cmap@[i as int]);
        }
        if unicode {
            if let Some(g) = glyph {
                if let Some(c) = char_from_code(code) {
                    if found.insert(code) {
                        let advance: u16 = match g.1 {
                            Some(a) => a,
                            None => 0,
                        };
                        out.push((c, g.0, advance));
                        proof {
                            let now = first_glyphs(cmap@.take(i + 1));
                            assert(now == before.push((code, g)));
                            assert(now.drop_last() =~= before);
                            assert(out@ =~= now.map_values(|g| glyph_entry(g)));
                        }
                    }
                }
            }
        }
        i = i + 1;
    }
    proof {
        assert(cmap@.take(i as int) =~= cmap@);
    }
    out
}

/// The glyphs of `glyphs` that have a bounding box, in order.
pub open spec fn renderable(glyphs: Seq<(char, Option<(i16, i16, i16, i16)>, u16)>) -> Seq<
    (char, (i16, i16, i16, i16)),
>
    decreases glyphs.len(),
{
    if glyphs.len() == 0 {
        Seq::empty()
    } else {
        let kept = renderable(glyphs.drop_last());
        match glyphs.last().1 {
            Some(b) => kept.push((glyphs.last().0, b)),
            None => kept,
        }
    }
}

/// The glyphs that go into the atlas: those with a bounding box, in order.
pub fn renderable_glyphs(glyphs: &Vec<(char, Option<(i16, i16, i16, i16)>, u16)>) -> (r: Vec<
    (char, (i16, i16, i16, i16)),
>)
    ensures
        r@ == renderable(glyphs@),
{
    let mut out: Vec<(char, (i16, i16, i16, i16))> = Vec::new();
    let mut i: usize = 0;
    while i < glyphs.len()
        invariant
            i <= glyphs@.len(),
            out@ == renderable(glyphs@.take(i as int)),
        decreases glyphs@.len() - i,
    {
        proof {
            assert(glyphs@.take(i + 1).drop_last() =~= glyphs@.take(i as int));
        }
        let (c, bb, _) = glyphs[i];
        if let Some(b) = bb {
            out.push((c, b));
        }
        i = i + 1;
    }
    proof {
        assert(glyphs@.take(i as int) =~= glyphs@);
    }
    out
}

/// Why a font file cannot be used.
#[derive(Debug, Clone, Copy, PartialEq, Eq, Structural)]
pub enum FontError {
    /// ttf-parser cannot parse the face.
    Parse,
    /// The face has no character map.
    NoCharacterMap,
}

/// Reads a font file: its ascender, descender and line gap, and its glyphs
/// (see `font_glyphs`).
pub fn read_font(data: &[u8]) -> (r: Result<(i16, i16, i16, Vec<(char, Option<(i16, i16, i16, i16)>, u16)>), FontError>)
    ensures
        match font_face_data(data@) {
            None => r == Err::<(i16, i16, i16, Vec<(char, Option<(i16, i16, i16, i16)>, u16)>), FontError>(FontError::Parse),
            Some(f) => match f.3 {
                None => r == Err::<(i16, i16, i16, Vec<(char, Option<(i16, i16, i16, i16)>, u16)>), FontError>(FontError::NoCharacterMap),
                Some(cmap) => r matches Ok(v) && v.0 == f.0 && v.1 == f.1 && v.2 == f.2 && v.3@ == face_glyphs(cmap),
            },
        },
{
    let face = match read_font_face(data) {
        Some(f) => f,
        None => {
            return Err(FontError::Parse);
        },
    };
    if face.cmap.is_none() {
        return Err(FontError::NoCharacterMap);
    }
    let glyphs = font_glyphs(&face);
    Ok((face.ascender, face.descender, face.line_gap, glyphs))
}

proof fn lemma_first_glyphs_distinct(
    cmap: Seq<(bool, u32, Option<(Option<(i16, i16, i16, i16)>, Option<u16>)>)>,
)
    ensures
        forall|i: int|
            0 <= i < first_glyphs(cmap).len() ==> glyph_codes(first_glyphs(cmap)).contains(
                #[trigger] first_glyphs(cmap)[i].0,
            ) && is_char_code(first_glyphs(cmap)[i].0),
        forall|i: int, j: int|
            0 <= i < j < first_glyphs(cmap).len() ==> #[trigger] first_glyphs(cmap)[i].0
                != #[trigger] first_glyphs(cmap)[j].0,
    decreases cmap.len(),
{
    if cmap.len() > 0 {
        lemma_first_glyphs_distinct(cmap.drop_last());
        let kept = first_glyphs(cmap.drop_last());
        let now = first_glyphs(cmap);
        if now.len() > kept.len() {
            assert(now.drop_last() =~= kept);
        }
    }
}

/// A font lists each character once.
pub proof fn law_font_glyphs_distinct(
    cmap: Seq<(bool, u32, Option<(Option<(i16, i16, i16, i16)>, Option<u16>)>)>,
    i: int,
    j: int,
)
    requires
        0 <= i < j < face_glyphs(cmap).len(),
    ensures
        face_glyphs(cmap)[i].0 != face_glyphs(cmap)[j].0,
{
    lemma_first_glyphs_distinct(cmap);
    let f = first_glyphs(cmap);
    assert(f[i].0 != f[j].0);
    assert(is_char_code(f[i].0) && is_char_code(f[j].0));
}

} // verus!
