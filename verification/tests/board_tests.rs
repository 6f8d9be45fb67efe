use game_of_life::GameOfLife;
use soroban_sdk::Env;

fn step(env: &Env, board: &str) -> Vec<u8> {
    GameOfLife::next_generation(env, board.as_bytes().to_vec())
}

#[test]
fn test_empty_board() {
    let env = Env::default();
    let board = "     \n     \n     ";
    let next = step(&env, board);
    assert_eq!(next, board.as_bytes().to_vec());
}

#[test]
fn test_block_still_life() {
    let env = Env::default();
    // Block pattern - stable
    let board = "    \n OO \n OO \n    ";
    let next = step(&env, board);
    assert_eq!(next, board.as_bytes().to_vec());
}

#[test]
fn test_blinker_oscillator() {
    let env = Env::default();
    // Horizontal blinker
    let board = "     \n     \n OOO \n     \n     ";
    let next = step(&env, board);
    // Should become vertical blinker
    let expected = "     \n  O  \n  O  \n  O  \n     ";
    assert_eq!(next, expected.as_bytes().to_vec());
    // And back to horizontal
    let next2 = GameOfLife::next_generation(&env, next);
    assert_eq!(next2, board.as_bytes().to_vec());
}

#[test]
fn test_single_cell_dies() {
    let env = Env::default();
    // Single cell dies from underpopulation
    let board = "   \n O \n   ";
    let next = step(&env, board);
    let expected = "   \n   \n   ";
    assert_eq!(next, expected.as_bytes().to_vec());
}

#[test]
fn test_overcrowding() {
    let env = Env::default();
    // Center cell has 8 neighbors - dies from overcrowding
    let board = "OOO\nOOO\nOOO";
    let next = step(&env, board);
    // Corners survive (3 neighbors), edges die (5 neighbors), center dies (8 neighbors)
    let expected = "O O\n   \nO O";
    assert_eq!(next, expected.as_bytes().to_vec());
}

#[test]
fn test_birth() {
    let env = Env::default();
    // Three cells in L-shape - center should be born
    let board = "    \n O  \n OO \n    ";
    let next = step(&env, board);
    // All original cells survive (2 neighbors each), and (1,1) is born (3 neighbors)
    let expected = "    \n OO \n OO \n    ";
    assert_eq!(next, expected.as_bytes().to_vec());
}

#[test]
fn test_dominant_type_clear_winner() {
    let env = Env::default();
    // Two X neighbors and one O neighbor - new cell should be X
    let board = "   \n X \nX O\n   ";
    let next = step(&env, board);
    // The cell at (1,2) should be born as X (2 X neighbors vs 1 O)
    let expected = "   \n X \n X \n   ";
    assert_eq!(next, expected.as_bytes().to_vec());
}

#[test]
fn test_mixed_types_block_survives() {
    let env = Env::default();
    // Mixed type block should preserve original types
    let board = "    \n XO \n OX \n    ";
    let next = step(&env, board);
    // All cells have exactly 3 neighbors, so all survive with original types
    assert_eq!(next, board.as_bytes().to_vec());
}

#[test]
fn test_same_type_blinker() {
    let env = Env::default();
    // X-only blinker should produce X-only vertical blinker
    let board = "     \n     \n XXX \n     \n     ";
    let next = step(&env, board);
    // New cells should be X (all neighbors are X)
    let expected = "     \n  X  \n  X  \n  X  \n     ";
    assert_eq!(next, expected.as_bytes().to_vec());
}

#[test]
fn test_birth_inherits_neighbor_type() {
    let env = Env::default();
    // Three Y cells in a row - new cells should be Y
    let board = "     \n     \n YYY \n     \n     ";
    let next = step(&env, board);
    // Vertical blinker of Y cells
    let expected = "     \n  Y  \n  Y  \n  Y  \n     ";
    assert_eq!(next, expected.as_bytes().to_vec());
}
