use geng::font::{
    font_glyphs, pack_glyphs, read_font, renderable_glyphs, FontError, FontFace,
};

fn disjoint(a: (usize, usize), sa: (usize, usize), b: (usize, usize), sb: (usize, usize)) -> bool {
    a.0 + sa.0 <= b.0 || b.0 + sb.0 <= a.0 || a.1 + sa.1 <= b.1 || b.1 + sb.1 <= a.1
}

#[test]
fn four_squares_make_two_shelves() {
    let sizes = vec![(2, 2), (2, 2), (2, 2), (2, 2)];
    let layout = pack_glyphs(&sizes);
    assert_eq!(layout.corners, vec![(0, 0), (2, 0), (0, 2), (2, 2)]);
    assert_eq!((layout.width, layout.height), (4, 4));
}

#[test]
fn wide_glyph_starts_new_shelf() {
    let sizes = vec![(3, 5), (1, 1), (4, 2), (1, 1), (3, 3)];
    let layout = pack_glyphs(&sizes);
    // first shelf: i*i >= 5 first at i = 3
    assert_eq!(layout.corners[0], (0, 0));
    assert_eq!(layout.corners[1], (3, 0));
    assert_eq!(layout.corners[2], (4, 0));
    assert_eq!(layout.corners[3], (0, 5));
    // (1 + 3) > width 8? no: stays on the shelf
    assert_eq!(layout.corners[4], (1, 5));
    assert_eq!((layout.width, layout.height), (8, 8));
    for i in 0..sizes.len() {
        assert!(layout.corners[i].0 + sizes[i].0 <= layout.width);
        assert!(layout.corners[i].1 + sizes[i].1 <= layout.height);
        for j in 0..sizes.len() {
            if i != j {
                assert!(disjoint(layout.corners[i], sizes[i], layout.corners[j], sizes[j]));
            }
        }
    }
}

#[test]
fn empty_atlas() {
    let layout = pack_glyphs(&vec![]);
    assert!(layout.corners.is_empty());
    assert_eq!((layout.width, layout.height), (0, 0));
}

fn be16(v: &mut Vec<u8>, x: u16) {
    v.extend_from_slice(&x.to_be_bytes());
}

fn be32(v: &mut Vec<u8>, x: u32) {
    v.extend_from_slice(&x.to_be_bytes());
}

/// A TrueType file with `head`, `hhea` and `maxp` tables (ascender 800,
/// descender -200, line gap 90, two glyphs), and, if asked, a `cmap` whose
/// one Unicode subtable (format 6) maps 'A' and 'B'.
fn tiny_font(with_cmap: bool) -> Vec<u8> {
    let mut cmap = Vec::new();
    be16(&mut cmap, 0); // version
    be16(&mut cmap, 1); // one subtable
    be16(&mut cmap, 0); // Unicode platform
    be16(&mut cmap, 3);
    be32(&mut cmap, 12);
    for x in [6u16, 14, 0, 0x41, 2, 1, 1] {
        be16(&mut cmap, x); // format 6, first code 'A', two glyph ids
    }
    let mut head = vec![0u8; 54];
    head[18..20].copy_from_slice(&1000u16.to_be_bytes());
    let mut hhea = vec![0u8; 36];
    hhea[4..6].copy_from_slice(&800i16.to_be_bytes());
    hhea[6..8].copy_from_slice(&(-200i16).to_be_bytes());
    hhea[8..10].copy_from_slice(&90i16.to_be_bytes());
    let mut maxp = Vec::new();
    be32(&mut maxp, 0x0000_5000);
    be16(&mut maxp, 2);
    let mut tables: Vec<(&[u8; 4], Vec<u8>)> = Vec::new();
    if with_cmap {
        tables.push((b"cmap", cmap));
    }
    tables.push((b"head", head));
    tables.push((b"hhea", hhea));
    tables.push((b"maxp", maxp));
    let mut out = Vec::new();
    be32(&mut out, 0x0001_0000);
    be16(&mut out, tables.len() as u16);
    be16(&mut out, 0);
    be16(&mut out, 0);
    be16(&mut out, 0);
    let mut offset = 12 + 16 * tables.len() as u32;
    for (tag, data) in &tables {
        out.extend_from_slice(&tag[..]);
        be32(&mut out, 0);
        be32(&mut out, offset);
        be32(&mut out, data.len() as u32);
        offset += data.len() as u32;
    }
    for (_, data) in &tables {
        out.extend_from_slice(data);
    }
    out
}

#[test]
fn unreadable_font_is_a_parse_error() {
    assert_eq!(read_font(b"not a font").err(), Some(FontError::Parse));
    assert_eq!(read_font(&[]).err(), Some(FontError::Parse));
}

#[test]
fn font_without_character_map() {
    assert_eq!(read_font(&tiny_font(false)).err(), Some(FontError::NoCharacterMap));
}

#[test]
fn font_glyphs_are_read_from_the_file() {
    let (ascender, descender, line_gap, glyphs) = read_font(&tiny_font(true)).unwrap();
    assert_eq!((ascender, descender, line_gap), (800, -200, 90));
    assert_eq!(glyphs, vec![('A', None, 0), ('B', None, 0)]);
    assert!(renderable_glyphs(&glyphs).is_empty());
}

#[test]
fn glyph_list_keeps_first_of_each_character() {
    let b1 = Some((0, 0, 10, 20));
    let b2 = Some((1, 1, 5, 5));
    let face = FontFace {
        ascender: 800,
        descender: -200,
        line_gap: 0,
        cmap: Some(vec![
            (false, 0x43, Some((b1, Some(7)))),
            (true, 0x41, Some((b1, Some(9)))),
            (true, 0x42, None),
            (true, 0xD800, Some((b1, Some(3)))),
            (true, 0x20, Some((None, None))),
            (true, 0x41, Some((b2, Some(4)))),
            (true, 0x43, Some((b2, Some(5)))),
        ]),
    };
    let glyphs = font_glyphs(&face);
    assert_eq!(
        glyphs,
        vec![('A', b1, 9), (' ', None, 0), ('C', b2, 5)]
    );
    assert_eq!(
        renderable_glyphs(&glyphs),
        vec![('A', (0, 0, 10, 20)), ('C', (1, 1, 5, 5))]
    );
}
