use sudoku::gfx::{indexed_to_rgba, sprite_rect, Rect, Res};

fn rect(x: i32, y: i32, w: u32, h: u32) -> Rect {
    Rect { x, y, w, h }
}

#[test]
fn toolbar_sprites_have_their_places() {
    assert_eq!(sprite_rect(Res::ToolbarSudoku), Some(rect(0, 0, 53, 9)));
    assert_eq!(sprite_rect(Res::ToolbarUndo), Some(rect(54, 0, 8, 9)));
    assert_eq!(sprite_rect(Res::ToolbarRedo), Some(rect(64, 0, 8, 9)));
    assert_eq!(sprite_rect(Res::ToolbarActivePencil), Some(rect(0, 10, 53, 9)));
    assert_eq!(sprite_rect(Res::ToolbarInactivePencil), Some(rect(0, 20, 53, 9)));
    assert_eq!(sprite_rect(Res::ToolbarActiveCrossOut), Some(rect(54, 10, 53, 9)));
    assert_eq!(sprite_rect(Res::ToolbarInactiveCrossOut), Some(rect(54, 20, 53, 9)));
}

#[test]
fn number_sprites_step_by_twelve() {
    assert_eq!(sprite_rect(Res::ToolbarActiveNumber(1)), Some(rect(0, 30, 13, 9)));
    assert_eq!(sprite_rect(Res::ToolbarActiveNumber(2)), Some(rect(12, 30, 13, 9)));
    assert_eq!(sprite_rect(Res::ToolbarActiveNumber(9)), Some(rect(96, 30, 13, 9)));
    assert_eq!(sprite_rect(Res::ToolbarInactiveNumber(1)), Some(rect(0, 40, 13, 9)));
    assert_eq!(sprite_rect(Res::ToolbarInactiveNumber(5)), Some(rect(48, 40, 13, 9)));
    assert_eq!(sprite_rect(Res::ToolbarInactiveNumber(9)), Some(rect(96, 40, 13, 9)));
}

#[test]
fn tile_sprites_step_by_fifteen() {
    assert_eq!(sprite_rect(Res::TileInit(1)), Some(rect(0, 50, 15, 15)));
    assert_eq!(sprite_rect(Res::TileInit(9)), Some(rect(120, 50, 15, 15)));
    assert_eq!(sprite_rect(Res::TileGuess(1)), Some(rect(0, 65, 15, 15)));
    assert_eq!(sprite_rect(Res::TileGuess(4)), Some(rect(45, 65, 15, 15)));
    assert_eq!(sprite_rect(Res::TileConflict(2)), Some(rect(15, 80, 15, 15)));
    assert_eq!(sprite_rect(Res::TileConflict(9)), Some(rect(120, 80, 15, 15)));
}

#[test]
fn there_is_no_sprite_for_other_numbers() {
    assert_eq!(sprite_rect(Res::ToolbarActiveNumber(0)), None);
    assert_eq!(sprite_rect(Res::ToolbarActiveNumber(10)), None);
    assert_eq!(sprite_rect(Res::ToolbarInactiveNumber(0)), None);
    assert_eq!(sprite_rect(Res::ToolbarInactiveNumber(255)), None);
    assert_eq!(sprite_rect(Res::TileInit(0)), None);
    assert_eq!(sprite_rect(Res::TileGuess(10)), None);
    assert_eq!(sprite_rect(Res::TileConflict(200)), None);
}

#[test]
fn indexed_pixels_take_their_colour_from_the_palette() {
    let mut pal = vec![0u8; 768];
    pal[0] = 9;
    pal[1] = 8;
    pal[2] = 7;
    pal[3] = 10;
    pal[4] = 20;
    pal[5] = 30;
    pal[765] = 1;
    pal[766] = 2;
    pal[767] = 3;
    let buf = vec![1u8, 0, 255, 1, 0, 0];
    let out = indexed_to_rgba(3, 2, &buf, &pal);
    assert_eq!(
        out,
        vec![
            10, 20, 30, 255, 9, 8, 7, 0, 1, 2, 3, 255, //
            10, 20, 30, 255, 9, 8, 7, 0, 9, 8, 7, 0,
        ]
    );
}

#[test]
fn indexed_pixels_beyond_the_frame_are_left_out() {
    let pal = vec![5u8; 768];
    let buf = vec![3u8; 10];
    assert_eq!(indexed_to_rgba(2, 2, &buf, &pal).len(), 16);
    assert_eq!(indexed_to_rgba(0, 7, &buf, &pal), Vec::<u8>::new());
    assert_eq!(indexed_to_rgba(1, 1, &buf, &pal), vec![5, 5, 5, 255]);
}
