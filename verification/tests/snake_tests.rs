use snake_game::snake::{Block, Direction, Snake};

#[test]
fn test_opposite_directions() {
    assert!(matches!(Direction::Up.opposite(), Direction::Down));
    assert!(matches!(Direction::Down.opposite(), Direction::Up));
    assert!(matches!(Direction::Left.opposite(), Direction::Right));
    assert!(matches!(Direction::Right.opposite(), Direction::Left));
}

#[test]
fn test_opposite_is_involutive() {
    let all = [
        Direction::Up,
        Direction::Down,
        Direction::Left,
        Direction::Right,
    ];
    for d in all {
        assert_eq!(d.opposite().opposite(), d);
    }
}

#[test]
fn test_block_is_equal() {
    let a = Block { x: 3, y: 7 };
    let b = Block { x: 3, y: 7 };
    let c = Block { x: 3, y: 8 };
    let d = Block { x: 4, y: 7 };
    assert!(a.is_equal(&b));
    assert!(!a.is_equal(&c));
    assert!(!a.is_equal(&d));
}

#[test]
fn test_new_snake_layout() {
    let snake = Snake::new(2, 2);
    assert_eq!(snake.head_position(), (4, 2));
    assert!(matches!(snake.head_direction(), Direction::Right));

    let body = snake.get_body();
    assert_eq!(body.len(), 3);
    assert!(body[0].x == 4 && body[0].y == 2);
    assert!(body[1].x == 3 && body[1].y == 2);
    assert!(body[2].x == 2 && body[2].y == 2);
}

#[test]
fn test_move_forward_keeps_length() {
    let mut snake = Snake::new(2, 2);

    snake.move_forward(None);

    assert_eq!(snake.head_position(), (5, 2));
    let body = snake.get_body();
    assert_eq!(body.len(), 3);
    assert!(body[0].x == 5 && body[0].y == 2);
    assert!(body[1].x == 4 && body[1].y == 2);
    assert!(body[2].x == 3 && body[2].y == 2);
}

#[test]
fn test_move_forward_with_heading_override() {
    let mut snake = Snake::new(2, 2);

    snake.move_forward(Some(Direction::Up));

    assert!(matches!(snake.head_direction(), Direction::Up));
    assert_eq!(snake.head_position(), (4, 1));

    snake.move_forward(Some(Direction::Left));

    assert!(matches!(snake.head_direction(), Direction::Left));
    assert_eq!(snake.head_position(), (3, 1));
}

#[test]
fn test_increase_length_restores_tail() {
    let mut snake = Snake::new(2, 2);

    snake.move_forward(None);
    snake.increase_length();

    let body = snake.get_body();
    assert_eq!(body.len(), 4);
    assert!(body[0].x == 5 && body[0].y == 2);
    assert!(body[3].x == 2 && body[3].y == 2);
}

#[test]
fn test_increase_length_before_any_move_is_noop() {
    let mut snake = Snake::new(2, 2);

    snake.increase_length();

    assert_eq!(snake.get_body().len(), 3);
    assert_eq!(snake.head_position(), (4, 2));
}

#[test]
fn test_get_body_is_a_copy() {
    let snake = Snake::new(2, 2);
    let mut body = snake.get_body();
    body[0].x = 100;
    body.pop();

    assert_eq!(snake.head_position(), (4, 2));
    assert_eq!(snake.get_body().len(), 3);
}
