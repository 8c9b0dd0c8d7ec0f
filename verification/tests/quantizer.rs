use ruplace::palette::{color_to_index, nearest_index, palette, quantize, Color, SENTINEL};

#[test]
fn transparent_colors_give_the_sentinel() {
    for alpha in 0..128u8 {
        assert_eq!(color_to_index(&[255, 255, 255, alpha]), SENTINEL);
        assert_eq!(color_to_index(&[0, 0, 0, alpha]), SENTINEL);
        assert_eq!(color_to_index(&[229, 149, 0, alpha]), SENTINEL);
    }
}

#[test]
fn palette_entries_give_their_own_index() {
    let p = palette();
    assert_eq!(p.len(), 16);
    for (i, c) in p.iter().enumerate() {
        assert_eq!(c.a, 255);
        assert_eq!(color_to_index(&[c.r, c.g, c.b, c.a]) as usize, i);
    }
}

#[test]
fn half_opaque_black_is_a_paint_color() {
    assert_eq!(color_to_index(&[0, 0, 0, 128]), 3);
    assert_eq!(color_to_index(&[0, 0, 0, 127]), SENTINEL);
}

#[test]
fn nearest_entry_is_chosen() {
    assert_eq!(color_to_index(&[250, 250, 250, 255]), 0);
    assert_eq!(color_to_index(&[230, 10, 5, 255]), 5);
    assert_eq!(color_to_index(&[1, 2, 230, 200]), 13);
}

#[test]
fn ties_go_to_the_lowest_index() {
    let twin = Color { r: 10, g: 10, b: 10, a: 255 };
    let far = Color { r: 200, g: 200, b: 200, a: 255 };
    let degenerate = [far, twin, twin, twin];
    assert_eq!(nearest_index(&degenerate, Color { r: 12, g: 9, b: 10, a: 255 }), 1);
    assert_eq!(quantize(&degenerate, Color { r: 12, g: 9, b: 10, a: 255 }), 1);
    let left = Color { r: 0, g: 0, b: 0, a: 255 };
    let right = Color { r: 20, g: 0, b: 0, a: 255 };
    assert_eq!(nearest_index(&[left, right], Color { r: 10, g: 0, b: 0, a: 255 }), 0);
    assert_eq!(nearest_index(&[right, left], Color { r: 10, g: 0, b: 0, a: 255 }), 0);
    assert_eq!(nearest_index(&[right, left], Color { r: 9, g: 0, b: 0, a: 255 }), 1);
}
