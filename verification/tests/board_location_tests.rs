use plum_chess::board_location::BoardLocation;
use plum_chess::chess_errors::ChessErrors;

#[test]
fn test_file_rank_into_board_location() {
    let mut dut = BoardLocation::from_file_rank(0, 0).unwrap();
    assert_eq!(dut.binary_location, 1);
    let (f, r) = dut.get_file_rank();
    assert_eq!(f, 0);
    assert_eq!(r, 0);

    dut = BoardLocation::from_file_rank(7, 7).unwrap();
    assert_eq!(dut.binary_location, 0x8000_0000_0000_0000 as u64);
    let (f, r) = dut.get_file_rank();
    assert_eq!(f, 7);
    assert_eq!(r, 7);

    dut = BoardLocation::from_file_rank(7, 0).unwrap();
    assert_eq!(dut.binary_location, 0x0100_0000_0000_0000 as u64);
    let (f, r) = dut.get_file_rank();
    assert_eq!(f, 7);
    assert_eq!(r, 0);

    dut = BoardLocation::from_file_rank(0, 7).unwrap();
    assert_eq!(dut.binary_location, 0x0000_0000_0000_0080 as u64);
    let (f, r) = dut.get_file_rank();
    assert_eq!(f, 0);
    assert_eq!(r, 7);

    dut = BoardLocation::from_file_rank(1, 0).unwrap();
    assert_eq!(dut.binary_location, 0x0000_0000_0000_0100 as u64);
    let (f, r) = dut.get_file_rank();
    assert_eq!(f, 1);
    assert_eq!(r, 0);
}

#[test]
fn test_move_d_file_and_d_rank() {
    let dut = BoardLocation::from_file_rank(0, 0).unwrap();
    let next_dut = dut.generate_moved_location_without_validation(1, 1);
    let (f, r) = next_dut.get_file_rank();
    assert_eq!(f, 1);
    assert_eq!(r, 1);

    let dut = BoardLocation::from_file_rank(5, 5).unwrap();
    let next_dut = dut.generate_moved_location_without_validation(-1, -4);
    let (f, r) = next_dut.get_file_rank();
    assert_eq!(f, 4);
    assert_eq!(r, 1);

    let dut = BoardLocation::from_file_rank(0, 0).unwrap();
    assert!(dut.generate_moved_location_checked(-1, 1).is_err());
}

#[test]
fn long_algebraic_names_round_trip() {
    for file in 0..8u8 {
        for rank in 0..8u8 {
            let loc = BoardLocation::from_file_rank(file, rank).unwrap();
            let name = loc.to_long_algebraic();
            let back = BoardLocation::from_long_algebraic(&name).unwrap();
            assert_eq!(back.binary_location, loc.binary_location);
        }
    }
    assert_eq!(BoardLocation::from_file_rank(4, 1).unwrap().to_long_algebraic(), "e2");
    assert!(BoardLocation::from_file_rank(9, 0).is_err());
    assert!(BoardLocation::from_long_algebraic("i9").is_err());
}

#[test]
fn file_or_rank_past_seven_is_refused() {
    assert!(matches!(BoardLocation::from_file_rank(0, 8), Err(ChessErrors::InvalidFileOrRank((0, 8)))));
    assert!(matches!(BoardLocation::from_file_rank(8, 0), Err(ChessErrors::InvalidFileOrRank((8, 0)))));
    assert!(matches!(BoardLocation::from_file_rank(9, 9), Err(ChessErrors::InvalidFileOrRank((9, 9)))));
    assert!(BoardLocation::from_file_rank(7, 7).is_ok());
}
