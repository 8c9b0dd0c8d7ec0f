use ruplace::canvas::{sample_board, sample_target, CANVAS_BYTES, CANVAS_HEIGHT, CANVAS_WIDTH, ROW_STRIDE};

#[test]
fn canvas_constants_agree() {
    assert_eq!(CANVAS_WIDTH as usize / 2, ROW_STRIDE);
    assert_eq!(ROW_STRIDE * CANVAS_HEIGHT as usize, CANVAS_BYTES);
}

#[test]
fn even_x_reads_the_high_nibble() {
    let mut board = vec![0u8; CANVAS_BYTES];
    board[0] = 0xA5;
    assert_eq!(sample_board(&board, 0, 0), 0xA);
    assert_eq!(sample_board(&board, 1, 0), 0x5);
}

#[test]
fn rows_are_five_hundred_bytes_apart() {
    let mut board = vec![0u8; CANVAS_BYTES];
    board[3 * 500 + 7] = 0x3C;
    assert_eq!(sample_board(&board, 14, 3), 0x3);
    assert_eq!(sample_board(&board, 15, 3), 0xC);
    assert_eq!(sample_board(&board, 13, 3), 0);
    assert_eq!(sample_board(&board, 14, 2), 0);
}

#[test]
fn last_pixel_of_the_canvas_is_readable() {
    let mut board = vec![0u8; CANVAS_BYTES];
    board[CANVAS_BYTES - 1] = 0x9F;
    assert_eq!(sample_board(&board, 998, 999), 0x9);
    assert_eq!(sample_board(&board, 999, 999), 0xF);
}

#[test]
fn target_is_read_row_major() {
    let target = [1u8, 2, 3, 4, 5, 6];
    assert_eq!(sample_target(&target, 0, 0, 3), 1);
    assert_eq!(sample_target(&target, 2, 0, 3), 3);
    assert_eq!(sample_target(&target, 0, 1, 3), 4);
    assert_eq!(sample_target(&target, 2, 1, 3), 6);
    assert_eq!(sample_target(&target, 1, 2, 2), 6);
}
