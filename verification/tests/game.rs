use rs_snake::game::command;
use rs_snake::Direction::{Down, Left, Right, Up};
use rs_snake::{Cell, Command, Game, Key, Pos, Scene, Screen};

const GLYPHS: [char; 5] = ['^', 'v', '<', '>', '*'];

fn cells_of(game: &Game) -> Vec<Pos> {
    game.snake().iter().collect()
}

#[test]
fn keys_are_read_as_commands() {
    assert_eq!(command(None), Command::Steer(None));
    assert_eq!(command(Some(Key::Esc)), Command::Quit);
    assert_eq!(command(Some(Key::Char('q'))), Command::Quit);
    assert_eq!(command(Some(Key::Up)), Command::Steer(Some(Up)));
    assert_eq!(command(Some(Key::Down)), Command::Steer(Some(Down)));
    assert_eq!(command(Some(Key::Left)), Command::Steer(Some(Left)));
    assert_eq!(command(Some(Key::Right)), Command::Steer(Some(Right)));
    assert_eq!(command(Some(Key::Enter)), Command::Steer(None));
    assert_eq!(command(Some(Key::Char('w'))), Command::Steer(None));
    assert_eq!(command(Some(Key::Other)), Command::Steer(None));
}

#[test]
fn new_game_has_a_snake_of_ten_cells_at_the_origin() {
    let game: Game = Game::new((80, 24));
    assert_eq!(game.bound(), (80, 24));
    assert_eq!(game.snake().head(), (0, 0));
    assert_eq!(game.snake().segments(), vec![(Up, 10)]);
    assert_eq!(cells_of(&game).len(), 10);
    let at: Cell = game.food().position();
    assert!(at.0 < 80);
    assert!(at.1 < 24);
    assert_eq!(game.food().grid(), (80, 24));
}

#[test]
fn quit_ends_the_game_and_changes_nothing() {
    let mut game: Game = Game::new((20, 10));
    let food = game.food();
    assert!(game.can_tick(Some(Key::Esc)));
    assert_eq!(game.tick(Some(Key::Esc)), Some(Screen::Exit));
    assert_eq!(game.tick(Some(Key::Char('q'))), Some(Screen::Exit));
    assert_eq!(game.snake().head(), (0, 0));
    assert_eq!(game.snake().segments(), vec![(Up, 10)]);
    assert!(game.food() == food);
}

#[test]
fn tick_moves_the_snake() {
    let mut game: Game = Game::new((20, 10));
    assert!(game.can_tick(None));
    assert_eq!(game.tick(None), None);
    assert_eq!(game.snake().head(), (0, 1));
    assert_eq!(game.tick(Some(Key::Left)), None);
    assert_eq!(game.snake().head(), (-1, 1));
    assert_eq!(game.snake().segments(), vec![(Left, 1), (Up, 9)]);
    assert_eq!(game.tick(Some(Key::Char('x'))), None);
    assert_eq!(game.snake().head(), (-2, 1));
    assert_eq!(game.tick(Some(Key::Right)), None);
    assert_eq!(game.snake().head(), (-3, 1));
    assert_eq!(game.snake().segments(), vec![(Left, 3), (Up, 7)]);
}

#[test]
fn snake_that_bites_itself_dies() {
    // With 20 columns the head stands on even columns and the food on odd ones.
    let mut game: Game = Game::new((20, 10));
    let food = game.food();
    assert_eq!(game.tick(Some(Key::Left)), None);
    assert_eq!(game.tick(Some(Key::Down)), None);
    assert!(game.can_tick(Some(Key::Right)));
    assert_eq!(game.tick(Some(Key::Right)), Some(Screen::Next(Scene::Death)));
    assert_eq!(game.snake().head(), (0, -1));
    assert!(game.snake().is_collide());
    assert_eq!(cells_of(&game).len(), 10);
    assert!(game.food() == food);
}

#[test]
fn snake_that_eats_grows_by_one_cell() {
    // A grid of one cell: the head always lies on the food.
    let mut game: Game = Game::new((1, 1));
    assert_eq!(game.food().position(), (0, 0));
    assert_eq!(cells_of(&game).len(), 10);
    assert_eq!(game.tick(None), None);
    assert_eq!(cells_of(&game).len(), 11);
    assert_eq!(game.snake().segments(), vec![(Up, 11)]);
    assert_eq!(game.snake().head(), (0, 1));
    assert_eq!(game.food().position(), (0, 0));
    assert_eq!(game.tick(Some(Key::Left)), None);
    assert_eq!(cells_of(&game).len(), 12);
    assert_eq!(game.snake().segments(), vec![(Left, 1), (Up, 11)]);
}

#[test]
fn snake_that_does_not_eat_keeps_its_length_and_the_food() {
    let mut game: Game = Game::new((20, 10));
    let food = game.food();
    for key in [None, Some(Key::Left), None, Some(Key::Up), None, Some(Key::Right), None] {
        assert_eq!(game.tick(key), None);
        assert_eq!(cells_of(&game).len(), 10);
        assert!(game.food() == food);
    }
}

#[test]
fn game_is_drawn_snake_first_and_food_last() {
    let mut game: Game = Game::new((1, 1));
    let picture: String = game.to_string(GLYPHS);
    let mut expected: String = String::from("\x1b[1;1H^");
    for _ in 0..9 {
        expected.push_str("\x1b[1;1H*");
    }
    expected.push_str("\x1b[1;1H@");
    assert_eq!(picture, expected);

    game.tick(Some(Key::Right));
    assert!(game.to_string(GLYPHS).starts_with("\x1b[1;1H>\x1b[1;1H*"));
    assert!(game.to_string(GLYPHS).ends_with("\x1b[1;1H@"));

    let game: Game = Game::new((20, 10));
    let picture: String = game.to_string(GLYPHS);
    let snake: String = game.snake().formatter((20, 10), GLYPHS).to_string();
    let food: String = game.food().to_string();
    assert!(snake.starts_with("\x1b[6;11H^\x1b[7;11H*"));
    assert_eq!(picture, format!("{}{}", snake, food));
}
