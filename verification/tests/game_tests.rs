use snake_game::game::{
    Food, Game, FOOD_DECAY_STEP, FOOD_EXPIRY_THRESHOLD, INIT_FOOD_LIFE, NUM_FOODS,
};
use snake_game::snake::Direction;

#[test]
fn test_wall_collision() {
    let mut game = Game::new(20, 20);

    for _ in 0..14 {
        game.update(1000);
        assert_eq!(game.is_game_over, false);
    }

    game.update(1000);
    assert_eq!(game.is_game_over, true);
}

#[test]
fn test_food_collect() {
    let mut game = Game::new(20, 20);

    game.foods.push(Food {
        x: 6,
        y: 2,
        life: 5000,
    });

    for _ in 0..2 {
        let f = &game.foods[0];
        assert!(f.x == 6 && f.y == 2);

        game.update(1000);
    }

    game.update(1000);

    let f = &game.foods[0];
    assert!(!(f.x == 6 && f.y == 2));
}

#[test]
fn test_food_regenerate() {
    let mut game = Game::new(20, 20);
    assert_eq!(game.foods.len(), 0);

    game.update(1000);
    assert_eq!(game.foods.len(), NUM_FOODS);

    game.foods.pop();
    game.foods.pop();
    assert_eq!(game.foods.len(), NUM_FOODS - 2);

    game.update(1000);
    assert_eq!(game.foods.len(), NUM_FOODS);
}

#[test]
fn test_remove_expired_food() {
    let mut game = Game::new(20, 20);

    game.update(1000);
    assert_eq!(game.foods.len(), NUM_FOODS);

    for food in game.foods.iter_mut() {
        food.life = 0;
    }

    game.update_food_expired();
    assert_eq!(game.foods.len(), 0);

    game.update(1000);
    assert_eq!(game.foods.len(), NUM_FOODS);
}

#[test]
fn test_decay_food() {
    let mut game = Game::new(20, 20);

    game.update(1000);
    assert_eq!(game.foods.len(), NUM_FOODS);

    for food in game.foods.iter() {
        assert_eq!(food.life, INIT_FOOD_LIFE);
    }

    game.update(1000);

    for food in game.foods.iter() {
        assert_eq!(food.life, INIT_FOOD_LIFE - FOOD_DECAY_STEP);
    }

    game.update(1000);
}

#[test]
fn test_expiry_threshold_edges() {
    let mut game = Game::new(20, 20);
    game.foods.push(Food {
        x: 10,
        y: 10,
        life: FOOD_EXPIRY_THRESHOLD,
    });
    game.foods.push(Food {
        x: 11,
        y: 10,
        life: FOOD_EXPIRY_THRESHOLD - 1,
    });

    game.update_food_expired();

    assert_eq!(game.foods.len(), 1);
    assert_eq!(game.foods[0].x, 10);
    assert_eq!(game.foods[0].life, FOOD_EXPIRY_THRESHOLD);
}

#[test]
fn test_reversal_is_ignored() {
    let mut game = Game::new(20, 20);
    let body_before = game.snake.get_body();

    // Left is the opposite of the initial Right heading.
    game.key_pressed(Some(Direction::Left));

    assert!(matches!(game.snake.head_direction(), Direction::Right));
    let body_after = game.snake.get_body();
    assert_eq!(body_before.len(), body_after.len());
    for (a, b) in body_before.iter().zip(body_after.iter()) {
        assert!(a.is_equal(b));
    }
    assert_eq!(game.snake.head_position(), (4, 2));
}

#[test]
fn test_directionless_input_is_ignored() {
    let mut game = Game::new(20, 20);

    game.key_pressed(None);

    assert!(matches!(game.snake.head_direction(), Direction::Right));
    assert_eq!(game.snake.head_position(), (4, 2));
    assert_eq!(game.foods.len(), 0);
    assert_eq!(game.is_game_over, false);
}

#[test]
fn test_key_press_forces_move_and_resets_cadence() {
    let mut game = Game::new(20, 20);

    game.key_pressed(Some(Direction::Down));
    assert_eq!(game.snake.head_position(), (4, 3));
    assert!(matches!(game.snake.head_direction(), Direction::Down));

    // The accumulator was reset, so a short update moves nothing.
    game.update(50);
    assert_eq!(game.snake.head_position(), (4, 3));
}

#[test]
fn test_vertical_wall_collision() {
    let mut game = Game::new(20, 20);

    // From (4, 2), one step up is (4, 1): still inside the walls.
    game.key_pressed(Some(Direction::Up));
    assert_eq!(game.snake.head_position(), (4, 1));
    assert_eq!(game.is_game_over, false);

    // One more step up would reach the wall ring at y = 0: fatal, and
    // the snake stays in place.
    game.key_pressed(Some(Direction::Up));
    assert_eq!(game.is_game_over, true);
    assert_eq!(game.snake.head_position(), (4, 1));
}

#[test]
fn test_input_ignored_while_game_over() {
    let mut game = Game::new(20, 20);
    for _ in 0..15 {
        game.update(1000);
    }
    assert_eq!(game.is_game_over, true);
    let head = game.snake.head_position();

    game.key_pressed(Some(Direction::Down));

    assert_eq!(game.is_game_over, true);
    assert_eq!(game.snake.head_position(), head);
}

#[test]
fn test_restart_after_cooldown() {
    let mut game = Game::new(20, 20);
    for _ in 0..15 {
        game.update(1000);
    }
    assert_eq!(game.is_game_over, true);

    // The cooldown has not elapsed yet: still game over, snake frozen.
    game.update(500);
    assert_eq!(game.is_game_over, true);

    // Now the accumulated time passes the cooldown: the snake resets to
    // its initial three-cell configuration and the flag clears.
    game.update(501);
    assert_eq!(game.is_game_over, false);
    let body = game.snake.get_body();
    assert_eq!(body.len(), 3);
    assert!(body[0].x == 4 && body[0].y == 2);
    assert!(body[1].x == 3 && body[1].y == 2);
    assert!(body[2].x == 2 && body[2].y == 2);
    assert!(matches!(game.snake.head_direction(), Direction::Right));
}

#[test]
fn test_foods_decay_while_game_over() {
    let mut game = Game::new(20, 20);
    game.update(1000);
    assert_eq!(game.foods.len(), NUM_FOODS);
    for _ in 0..14 {
        game.update(1000);
    }
    assert_eq!(game.is_game_over, true);
    let lives: Vec<u32> = game.foods.iter().map(|f| f.life).collect();

    // A short update while game over: no replenishment, but decay goes on.
    game.update(100);
    assert_eq!(game.is_game_over, true);
    assert_eq!(game.foods.len(), lives.len());
    for (f, old_life) in game.foods.iter().zip(lives.iter()) {
        assert_eq!(f.life, old_life - FOOD_DECAY_STEP);
    }
}

#[test]
fn test_update_zero_delta() {
    let mut game = Game::new(20, 20);

    game.update(0);

    // No movement tick, but the foods are still topped up.
    assert_eq!(game.snake.head_position(), (4, 2));
    assert_eq!(game.foods.len(), NUM_FOODS);
    assert_eq!(game.is_game_over, false);
}

#[test]
fn test_eating_grows_snake() {
    let mut game = Game::new(20, 20);
    game.foods.push(Food {
        x: 5,
        y: 2,
        life: 5000,
    });
    assert_eq!(game.snake.get_body().len(), 3);

    game.update(1000);

    // The head moved onto the food: the food is gone and the snake grew.
    assert_eq!(game.snake.head_position(), (5, 2));
    assert_eq!(game.snake.get_body().len(), 4);
    // Only freshly replenished foods are left, not the one we placed.
    for f in game.foods.iter() {
        assert_eq!(f.life, INIT_FOOD_LIFE);
    }
    let body = game.snake.get_body();
    let mut hits = 0;
    for b in body.iter() {
        if b.x == 5 && b.y == 2 {
            hits += 1;
        }
    }
    assert_eq!(hits, 1);
}

#[test]
fn test_board_dimensions() {
    let game = Game::new(24, 18);
    assert_eq!(game.width(), 24);
    assert_eq!(game.height(), 18);
}
