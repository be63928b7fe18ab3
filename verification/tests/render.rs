use rs_snake::Direction::{Down, Left, Right};
use rs_snake::{Snake, SnakeFormatter};

const GLYPHS: [char; 5] = ['^', 'v', '<', '>', '*'];

#[test]
fn head_and_body_are_drawn_in_order() {
    let snake: Snake = Snake::new((0, 0), 3);
    let picture: String = snake.formatter((20, 10), GLYPHS).to_string();
    assert_eq!(picture, "\x1b[6;11H^\x1b[7;11H*\x1b[8;11H*");
}

#[test]
fn head_glyph_follows_the_direction_of_travel() {
    let mut snake: Snake = Snake::new((0, 0), 2);
    assert_eq!(snake.formatter((20, 10), GLYPHS).to_string(), "\x1b[6;11H^\x1b[7;11H*");
    snake.snaking(Some(Left));
    assert_eq!(snake.formatter((20, 10), GLYPHS).to_string(), "\x1b[6;9H<\x1b[6;11H*");
    snake.snaking(Some(Down));
    assert_eq!(snake.formatter((20, 10), GLYPHS).to_string(), "\x1b[7;9Hv\x1b[6;9H*");
    snake.snaking(Some(Right));
    assert_eq!(snake.formatter((20, 10), GLYPHS).to_string(), "\x1b[7;11H>\x1b[7;9H*");
}

#[test]
fn numbers_are_written_in_decimal() {
    let snake: Snake = Snake::new((0, 50), 1);
    assert_eq!(snake.formatter((200, 100), GLYPHS).to_string(), "\x1b[1;101H^");
    let snake: Snake = Snake::new((-50, -49), 1);
    assert_eq!(snake.formatter((200, 100), GLYPHS).to_string(), "\x1b[100;1H^");
    let snake: Snake = Snake::new((16383, -32767), 1);
    assert_eq!(snake.formatter((u16::MAX, u16::MAX), GLYPHS).to_string(), "\x1b[65535;65534H^");
    let snake: Snake = Snake::new((5, 10), 1);
    assert_eq!(snake.formatter((1000, 1000), GLYPHS).to_string(), "\x1b[491;511H^");
}

#[test]
fn glyphs_need_not_be_ascii() {
    let parts: [char; 5] = ['⮝', '⮟', '⮜', '➤', '*'];
    let mut snake: Snake = Snake::new((0, 0), 2);
    snake.snaking(Some(Right));
    let formatter: SnakeFormatter = snake.formatter((20, 10), parts);
    assert_eq!(formatter.to_string(), "\x1b[6;13H➤\x1b[6;11H*");
}

#[test]
fn body_that_wraps_is_drawn_on_both_sides() {
    let mut snake: Snake = Snake::new((4, 0), 1);
    snake.grow();
    snake.grow();
    snake.snaking(Some(Right));
    snake.snaking(None);
    assert_eq!(
        snake.formatter((20, 10), GLYPHS).to_string(),
        "\x1b[6;3H>\x1b[6;1H*\x1b[6;19H*"
    );
}

#[test]
fn snake_without_cells_gives_no_text() {
    let mut snake: Snake = Snake::new((0, 0), 0);
    assert_eq!(snake.formatter((20, 10), GLYPHS).to_string(), "");
    snake.snaking(None);
    assert_eq!(snake.formatter((20, 10), GLYPHS).to_string(), "");
    assert_eq!(snake.formatter((0, 0), GLYPHS).to_string(), "");
}

#[test]
fn rows_and_columns_are_counted_from_one() {
    // The head falls on the cell (0, 0), the top left corner of the grid.
    let snake: Snake = Snake::new((5, 5), 1);
    assert_eq!(snake.formatter((20, 10), GLYPHS).to_string(), "\x1b[1;1H^");
    // The head falls on the cell (18, 9), in the bottom row.
    let snake: Snake = Snake::new((4, -4), 1);
    assert_eq!(snake.formatter((20, 10), GLYPHS).to_string(), "\x1b[10;19H^");
    // The head falls on the last cell of a grid of one column and one row.
    let snake: Snake = Snake::new((9, 9), 1);
    assert_eq!(snake.formatter((1, 1), GLYPHS).to_string(), "\x1b[1;1H^");
}
