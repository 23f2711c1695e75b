# plum_chess

A chess engine library whose rules, move generation and engine decisions
are verified with Verus.

## Layout

- `src/` — the verified library.
  - Bitboard layer: `chess_types`, `bits`, `game_state`, `zobrist`,
    `key_tracking`, `attacks`, `piece_moves`, `legal_moves_*`,
    `legal_move_apply` (make/unmake), `legal_move_checks`,
    `legal_move_generator`, `move_descriptions` (packed moves), `perft`,
    `fen_parser`, `fen_generator`, `fen_roundtrip`, `long_algebraic`,
    `material`.
  - Square-vector layer: `board_location`, `piece_record`, `collision_masks`,
    `generate_movements`, `generate_moves_level_1` … `generate_moves_level_5`,
    `generate_all_moves`, `check_laws`, `move_description`, `special_move_flags`,
    `apply_move_to_game`, `inspect_check`, `inspect_if_king_is_under_check`,
    `types_of_check`, `checked_move_description`, `available_movement_masks`,
    `till_collide_moves` and `chess_move` (coordinate moves), `errors`, `chess_errors`.
  - Engines: `engine_trait`, `engine_options`, `time_management`,
    `engine_random`, `engine_greedy`, `engine_iterative*`,
    `engine_humanized_v5`, `info_line_scan`, `chess_engine_thread_trait`.
- `tests/` — tests run against the compiled library.
- `app/` — the UCI command loop, multi-threaded perft, the
  floating-point strength model of the humanized engine, and the
  channel-driven engines of the first search generation.

The only outside crate is `rand`, called from the library through small
trusted wrappers for the random choices of the random and humanized
engines.
