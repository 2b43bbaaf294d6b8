use snake_game::direction::Direction;
use snake_game::fruit::Fruit;
use snake_game::grid::Grid;
use snake_game::shade::darken;
use snake_game::snake::Snake;

fn count_apples(g: &Grid) -> usize {
    g.data.iter().filter(|f| **f == Fruit::Apple).count()
}

fn apple_cell(g: &Grid) -> usize {
    g.data
        .iter()
        .position(|f| *f == Fruit::Apple)
        .expect("no apple on the grid")
}

fn clear_cells(g: &mut Grid) {
    for i in 0..g.data.len() {
        g.data[i] = Fruit::Empty;
    }
}

#[test]
fn inv_involutive_for_real_headings() {
    for d in [Direction::Up, Direction::Down, Direction::Left, Direction::Right] {
        assert_eq!(d.inv().inv(), d);
    }
}

#[test]
fn inv_values() {
    assert_eq!(Direction::Up.inv(), Direction::Down);
    assert_eq!(Direction::Down.inv(), Direction::Up);
    assert_eq!(Direction::Left.inv(), Direction::Right);
    assert_eq!(Direction::Right.inv(), Direction::Left);
    assert_eq!(Direction::Idle.inv(), Direction::Idle);
}

#[test]
fn delta_values() {
    assert_eq!(Direction::Idle.delta(), (0, 0));
    assert_eq!(Direction::Up.delta(), (0, -1));
    assert_eq!(Direction::Down.delta(), (0, 1));
    assert_eq!(Direction::Left.delta(), (-1, 0));
    assert_eq!(Direction::Right.delta(), (1, 0));
}

#[test]
fn fruit_colors() {
    assert_eq!(Fruit::Empty.color(), 0xFFFFFFFF);
    assert_eq!(Fruit::Apple.color(), 0xFFFF0000);
}

#[test]
fn darken_exact_values() {
    assert_eq!(darken(0xFFFFFFFF, 900), 0xFFE5E5E5);
    assert_eq!(darken(0xFF00FF00, 900), 0xFF00E500);
    assert_eq!(darken(0xFFFFFFFF, 100), 0xFF191919);
    assert_eq!(darken(0xFF880000, 900), 0xFF7A0000);
    assert_eq!(darken(0xFF123456, 1000), 0xFF123456);
    assert_eq!(darken(0xFFFFFFFF, 2000), 0xFFFFFFFF);
}

#[test]
fn new_snake_shape() {
    let s = Snake::new(3000, 3000, 0xFF00FF00);
    assert_eq!(s.head_x, 3000);
    assert_eq!(s.head_y, 3000);
    assert_eq!(s.color, 0xFF00FF00);
    assert!(!s.dead);
    assert_eq!(
        s.body,
        vec![
            Direction::Right,
            Direction::Idle,
            Direction::Idle,
            Direction::Idle,
            Direction::Idle
        ]
    );
}

#[test]
fn dir_refuses_exact_reversal() {
    let mut s = Snake::new(3000, 3000, 0xFF00FF00);
    s.dir(Direction::Left);
    assert_eq!(s.body[0], Direction::Right);
    s.dir(Direction::Up);
    assert_eq!(s.body[0], Direction::Up);
    s.dir(Direction::Down);
    assert_eq!(s.body[0], Direction::Up);
    s.dir(Direction::Right);
    assert_eq!(s.body[0], Direction::Right);
}

#[test]
fn grow_appends_idle_segments() {
    let mut s = Snake::new(3000, 3000, 0xFF00FF00);
    let before = s.body.len();
    s.grow(3);
    assert_eq!(s.body.len(), before + 3);
    for i in before..s.body.len() {
        assert_eq!(s.body[i], Direction::Idle);
    }
}

#[test]
fn collision_walks_the_history() {
    let mut s = Snake::new(5 * 64000 + 32000, 5 * 64000 + 32000, 0xFF00FF00);
    s.body = vec![Direction::Right, Direction::Right, Direction::Right];
    assert!(s.collision(4, 5));
    assert!(s.collision(3, 5));
    assert!(!s.collision(2, 5));
    assert!(!s.collision(4, 4));
}

#[test]
fn collision_excludes_the_head_tile() {
    let s = Snake::new(5 * 64000 + 32000, 5 * 64000 + 32000, 0xFF00FF00);
    assert!(!s.collision(5, 5));
}

#[test]
fn collision_sees_a_closed_loop_at_the_head() {
    let mut s = Snake::new(5 * 64000 + 32000, 5 * 64000 + 32000, 0xFF00FF00);
    s.body = vec![
        Direction::Right,
        Direction::Up,
        Direction::Left,
        Direction::Down,
        Direction::Right,
    ];
    assert!(s.collision(5, 5));
}

#[test]
fn update_integrates_and_shifts_on_crossing() {
    let mut s = Snake::new(3000, 3000, 0xFF00FF00);
    s.update(64000);
    assert_eq!(s.head_x, 67000);
    assert_eq!(s.head_y, 3000);
    assert!(!s.dead);
    assert_eq!(
        s.body,
        vec![
            Direction::Right,
            Direction::Right,
            Direction::Idle,
            Direction::Idle,
            Direction::Idle
        ]
    );
}

#[test]
fn update_without_crossing_keeps_the_history() {
    let mut s = Snake::new(3000, 3000, 0xFF00FF00);
    s.update(1000);
    assert_eq!(s.head_x, 4000);
    assert_eq!(
        s.body,
        vec![
            Direction::Right,
            Direction::Idle,
            Direction::Idle,
            Direction::Idle,
            Direction::Idle
        ]
    );
}

#[test]
fn update_is_a_no_op_when_dead() {
    let mut s = Snake::new(3000, 3000, 0xFF00FF00);
    s.dead = true;
    s.update(64000);
    assert_eq!(s.head_x, 3000);
    assert!(s.dead);
}

#[test]
fn boundary_death_on_the_right_edge() {
    let mut s = Snake::new(34 * 64000 + 63000, 3000, 0xFF00FF00);
    s.update(64000);
    assert_eq!(s.head_x, 34 * 64000 + 63000 + 64000);
    assert!(s.dead);
}

#[test]
fn left_exit_dies_only_past_a_full_tile() {
    let mut s = Snake::new(3000, 3000, 0xFF00FF00);
    s.dir(Direction::Up);
    s.dir(Direction::Left);
    s.update(64000);
    assert_eq!(s.head_x, -61000);
    assert!(!s.dead);
    s.update(64000);
    assert_eq!(s.head_x, -125000);
    assert!(s.dead);
}

#[test]
fn self_collision_dies() {
    let mut s = Snake::new(5 * 64000 + 32000, 5 * 64000 + 32000, 0xFF00FF00);
    s.body = vec![Direction::Left, Direction::Right, Direction::Idle];
    s.update(64000);
    assert!(s.dead);
}

#[test]
fn snake_reset_restores_the_origin() {
    let mut s = Snake::new(3000, 3000, 0xFF00FF00);
    s.dead = true;
    s.grow(4);
    s.reset();
    assert!(!s.dead);
    assert_eq!(s.head_x, 0);
    assert_eq!(s.head_y, 0);
    assert_eq!(s.body, vec![Direction::Right]);
}

#[test]
fn new_grid_holds_exactly_one_apple_off_the_snake() {
    let g = Grid::new(3000, 3000, 0xFF00FF00);
    assert_eq!(g.score, 0);
    assert_eq!(g.data.len(), 700);
    assert_eq!(count_apples(&g), 1);
    let cell = apple_cell(&g);
    let nx = (cell % 35) as i64;
    let ny = (cell / 35) as i64;
    assert!(!g.snake.collision(nx, ny));
}

#[test]
fn spawn_avoids_the_snakes_tail() {
    let mut g = Grid::new(5 * 64000 + 32000, 5 * 64000 + 32000, 0xFF00FF00);
    clear_cells(&mut g);
    g.snake.body = vec![Direction::Right, Direction::Right, Direction::Right];
    g.spawn(Fruit::Apple);
    assert_eq!(count_apples(&g), 1);
    let cell = apple_cell(&g);
    let nx = (cell % 35) as i64;
    let ny = (cell / 35) as i64;
    assert!(!g.snake.collision(nx, ny));
    assert!((nx, ny) != (4, 5));
    assert!((nx, ny) != (3, 5));
}

#[test]
fn eating_scores_grows_and_respawns() {
    let mut g = Grid::new(3000, 3000, 0xFF00FF00);
    let cell = apple_cell(&g);
    g.snake.head_x = ((cell % 35) as i64) * 64000 + 32000;
    g.snake.head_y = ((cell / 35) as i64) * 64000 + 32000;
    let len_before = g.snake.body.len();
    g.eat();
    assert_eq!(g.score, 1);
    assert_eq!(g.snake.body.len(), len_before + 1);
    assert_eq!(count_apples(&g), 1);
    let fresh = apple_cell(&g);
    assert!(!g.snake.collision((fresh % 35) as i64, (fresh / 35) as i64));
}

#[test]
fn eat_without_fruit_changes_nothing() {
    let mut g = Grid::new(3000, 3000, 0xFF00FF00);
    clear_cells(&mut g);
    let len_before = g.snake.body.len();
    g.eat();
    assert_eq!(g.score, 0);
    assert_eq!(g.snake.body.len(), len_before);
    assert!(!g.snake.dead);
}

#[test]
fn win_at_capacity_kills_without_respawning() {
    let mut g = Grid::new(3000, 3000, 0xFF00FF00);
    g.score = 699;
    let cell = apple_cell(&g);
    g.snake.head_x = ((cell % 35) as i64) * 64000 + 32000;
    g.snake.head_y = ((cell / 35) as i64) * 64000 + 32000;
    g.eat();
    assert_eq!(g.score, 700);
    assert!(g.snake.dead);
    assert_eq!(count_apples(&g), 0);
}

#[test]
fn grid_reset_keeps_the_fruit_layout() {
    let mut g = Grid::new(3000, 3000, 0xFF00FF00);
    g.score = 5;
    g.snake.dead = true;
    let layout = g.data.clone();
    g.reset();
    assert_eq!(g.score, 0);
    assert!(!g.snake.dead);
    assert_eq!(g.snake.body.len(), 1);
    assert_eq!(g.snake.head_x, 0);
    assert_eq!(g.snake.head_y, 0);
    assert_eq!(g.data, layout);
}

#[test]
fn grid_update_moves_the_snake() {
    let mut g = Grid::new(3000, 3000, 0xFF00FF00);
    g.update(2000);
    assert_eq!(g.snake.head_x, 5000);
    assert_eq!(g.snake.head_y, 3000);
}

#[test]
fn render_paints_gradient_fruit_and_snake() {
    let mut g = Grid::new(5 * 64000 + 3000, 5 * 64000 + 3000, 0xFF00FF00);
    clear_cells(&mut g);
    g.data[1] = Fruit::Apple;
    let mut buffer: Vec<u32> = vec![0; 2240 * 1280];
    g.render(&mut buffer);
    // cell (0, 0): empty background, ambient light only
    assert_eq!(buffer[0], 0xFF191919);
    // cell (1, 0): the apple's flat color
    assert_eq!(buffer[64], 0xFFFF0000);
    // cell (2, 0): gradient one step brighter — light 100 + 450*2/35 = 125
    assert_eq!(buffer[128], 0xFF1F1F1F);
    // cell (34, 19), the far corner: light 100 + 437 + 427 = 964 per-mille
    assert_eq!(buffer[1216 * 2240 + 2176], 0xFFF5F5F5);
    // the head tile: the trailing placeholder segments paint the darkened
    // snake shade over the head's block
    assert_eq!(buffer[5 * 64 * 2240 + 5 * 64], 0xFF00E500);
}

#[test]
fn render_uses_the_dead_color() {
    let mut g = Grid::new(5 * 64000 + 3000, 5 * 64000 + 3000, 0xFF00FF00);
    clear_cells(&mut g);
    g.snake.dead = true;
    let mut buffer: Vec<u32> = vec![0; 2240 * 1280];
    g.render(&mut buffer);
    assert_eq!(buffer[5 * 64 * 2240 + 5 * 64], 0xFF7A0000);
}

#[test]
fn snake_render_clips_at_the_buffer_border() {
    let s = Snake::new(3000, 3000, 0xFF00FF00);
    let mut buffer: Vec<u32> = vec![7; 100];
    s.render(&mut buffer);
    // indices inside the head's block and the buffer are painted, the rest
    // of the tiny buffer keeps its contents
    assert_eq!(buffer[0], 0xFF00E500);
    assert_eq!(buffer[63], 0xFF00E500);
    assert_eq!(buffer[64], 7);
}
