//! Plum Chess: bitboard game state, move generation, make/unmake, check
//! detection, perft counting and engine helpers, with their contracts.

pub mod bits;
pub mod chess_types;
pub mod text;
pub mod piece_team;
pub mod chess_errors;
pub mod board_location;
pub mod collision_masks;
pub mod generate_moves_level_1;
pub mod generate_moves_level_2;
pub mod generate_moves_level_3;
pub mod generate_moves_level_4;
pub mod apply_move_to_game;
pub mod types_of_check;
pub mod inspect_check;
pub mod checked_move_description;
pub mod generate_moves_level_5;
pub mod generate_all_moves;
pub mod inspect_if_king_is_under_check;
pub mod chess_engine_thread_trait;
pub mod errors;
pub mod fen_roundtrip;
pub mod check_laws;
pub mod chess_move;
pub mod piece_record;
pub mod available_movement_masks;
pub mod move_description;
pub mod special_move_flags;
pub mod till_collide_moves;
pub mod generate_movements;
pub mod move_descriptions;
pub mod attacks;
pub mod zobrist;
pub mod game_state;
pub mod legal_move_shared;
pub mod legal_move_apply;
pub mod key_tracking;
pub mod legal_move_checks;
pub mod piece_moves;
pub mod legal_moves_knight;
pub mod legal_moves_bishop;
pub mod legal_moves_rook;
pub mod legal_moves_queen;
pub mod legal_moves_king;
pub mod legal_moves_pawn;
pub mod move_generator;
pub mod legal_move_generator;
pub mod perft;
pub mod fen_parser;
pub mod fen_generator;
pub mod material;
pub mod long_algebraic;
pub mod engine_trait;
pub mod engine_options;
pub mod info_line_scan;
pub mod time_management;
pub mod engine_random;
pub mod engine_greedy;
pub mod engine_greedy_1_move;
pub mod engine_iterative;
pub mod engine_iterative_v10;
pub mod engine_iterative_v16;
pub mod engine_iterative_v17;
pub mod engine_humanized_v5;
