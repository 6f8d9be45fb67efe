use game_of_life::GameOfLife;
use game_of_life::MAX_BOARD_SIZE;
use soroban_sdk::testutils::Address as _;
use soroban_sdk::testutils::EnvTestConfig;
use soroban_sdk::{Address, Env};

fn step(env: &Env, board: &str) -> Vec<u8> {
    GameOfLife::next_generation(env, board.as_bytes().to_vec())
}

#[test]
fn test_empty_input_pass_through() {
    let env = Env::default();
    let next = GameOfLife::next_generation(&env, Vec::new());
    assert_eq!(next, Vec::<u8>::new());
}

#[test]
fn test_oversized_input_pass_through() {
    let env = Env::default();
    let board = vec![b'O'; MAX_BOARD_SIZE + 1];
    let next = GameOfLife::next_generation(&env, board.clone());
    assert_eq!(next, board);
}

#[test]
fn test_zero_width_pass_through() {
    let env = Env::default();
    // The first row is empty, so the parsed width is zero.
    let board = "\nAB";
    let next = step(&env, board);
    assert_eq!(next, board.as_bytes().to_vec());
}

#[test]
fn test_zero_height_pass_through() {
    // A single separator has an empty first row and no trailing row.
    let env = Env::default();
    let board = "\n";
    let next = step(&env, board);
    assert_eq!(next, board.as_bytes().to_vec());
}

#[test]
fn test_grid_over_capacity_pass_through() {
    // 50000 cells in the first row and 50000 rows: the input fits the byte
    // bound but the grid it declares does not, so it is echoed back.
    let env = Env::default();
    let mut board = vec![b'a'; 50_000];
    board.extend(vec![b'\n'; 50_000]);
    let next = GameOfLife::next_generation(&env, board.clone());
    assert_eq!(next, board);
}

#[test]
fn test_still_life_second_type() {
    let env = Env::default();
    let board = "    \n ZZ \n ZZ \n    ";
    let next = step(&env, board);
    assert_eq!(next, board.as_bytes().to_vec());
}

#[test]
fn test_two_cells_die_of_underpopulation() {
    let env = Env::default();
    // Each cell has exactly one live neighbor.
    let next = step(&env, "XX");
    assert_eq!(next, b"  ".to_vec());
}

#[test]
fn test_ragged_rows_shift_the_grid() {
    // The second row is shorter than the first: the stripped text fills the
    // 3x2 grid from the front and the missing tail reads as type-zero live
    // cells, which the transition treats like any other colony.
    let env = Env::default();
    let next = step(&env, "AAA\nA");
    assert_eq!(next, vec![b'A', b' ', b'A', b'\n', b'A', b' ', 0u8]);
}

#[test]
fn test_tie_break_picks_a_winner() {
    // The dead corner sees one A, one B and one C: a three-way tie resolved
    // by the host's random draw. Whatever the draw, the newborn cell must
    // take one of the three tied types, and the rest of the board is fixed.
    // Snapshot capture is off: this test registers a contract instance, and
    // the harness directory is read-only.
    let env = Env::new_with_config(EnvTestConfig { capture_snapshot_at_drop: false });
    let admin = Address::generate(&env);
    let contract = env.register_stellar_asset_contract_v2(admin);
    let next = env.as_contract(&contract.address(), || {
        GameOfLife::next_generation(&env, b"AB\nC ".to_vec())
    });
    assert_eq!(&next[..4], b"AB\nC");
    assert_eq!(next.len(), 5);
    assert!(next[4] == b'A' || next[4] == b'B' || next[4] == b'C');
}

#[test]
fn test_clear_majority_in_mixed_scan_order() {
    // The birth cell at the center sees X, O, X in scan order: X still wins
    // two to one whatever position the minority type holds.
    let env = Env::default();
    let next = step(&env, "XOX\n   \n   ");
    assert_eq!(next, " O \n X \n   ".as_bytes().to_vec());
}

#[test]
fn test_uniform_neighbors_third_type() {
    // A birth among three 'q' cells inherits 'q': no hard-coded type byte.
    let env = Env::default();
    let next = step(&env, "   \nqqq\n   ");
    assert_eq!(next, " q \n q \n q ".as_bytes().to_vec());
}
