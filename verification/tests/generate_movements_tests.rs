use plum_chess::board_location::BoardLocation;
use plum_chess::generate_movements::{
    generate_bishop_movement, generate_king_movement, generate_knight_movement,
    generate_pawn_capture_movement, generate_pawn_double_step_movement,
    generate_pawn_single_step_movement, generate_rook_movement,
};
use plum_chess::piece_team::PieceTeam;

#[test]
    fn test_generate_pawn_double_step_movement(){
        let mask = generate_pawn_double_step_movement(BoardLocation::from_long_algebraic("e2").unwrap(),PieceTeam::Light).unwrap();
        let expected = BoardLocation::from_long_algebraic("e4").unwrap();
        assert_eq!(mask.binary_location,expected.binary_location);

        let mask = generate_pawn_double_step_movement(BoardLocation::from_long_algebraic("e7").unwrap(),PieceTeam::Dark).unwrap();
        let expected = BoardLocation::from_long_algebraic("e5").unwrap();
        assert_eq!(mask.binary_location,expected.binary_location);
    }
    #[test]
    fn test_generate_pawn_single_step_movement(){
        let mask = generate_pawn_single_step_movement(BoardLocation::from_long_algebraic("e2").unwrap(),PieceTeam::Light).unwrap();
        let expected = BoardLocation::from_long_algebraic("e3").unwrap();
        assert_eq!(mask.binary_location,expected.binary_location);

        let mask = generate_pawn_single_step_movement(BoardLocation::from_long_algebraic("e7").unwrap(),PieceTeam::Dark).unwrap();
        let expected = BoardLocation::from_long_algebraic("e6").unwrap();
        assert_eq!(mask.binary_location,expected.binary_location);
    }    
    #[test]
    fn test_generate_pawn_capture_movement_movement(){
        let mask = generate_pawn_capture_movement(BoardLocation::from_long_algebraic("e7").unwrap(),PieceTeam::Dark,1).unwrap();
        let expected = BoardLocation::from_long_algebraic("f6").unwrap();
        assert_eq!(mask.binary_location,expected.binary_location);

        let mask = generate_pawn_capture_movement(BoardLocation::from_long_algebraic("e4").unwrap(),PieceTeam::Light,-1).unwrap();
        let expected = BoardLocation::from_long_algebraic("d5").unwrap();
        assert_eq!(mask.binary_location,expected.binary_location);        
    }     
    #[test]
    fn test_generate_knight_movement(){
        let mask = generate_knight_movement(BoardLocation::from_long_algebraic("e4").unwrap(),0).unwrap();
        let expected = BoardLocation::from_long_algebraic("g5").unwrap();
        assert_eq!(mask.binary_location,expected.binary_location);    
        let mask = generate_knight_movement(BoardLocation::from_long_algebraic("e4").unwrap(),1).unwrap();
        let expected = BoardLocation::from_long_algebraic("f6").unwrap();
        assert_eq!(mask.binary_location,expected.binary_location);     
        let mask = generate_knight_movement(BoardLocation::from_long_algebraic("e4").unwrap(),2).unwrap();
        let expected = BoardLocation::from_long_algebraic("d6").unwrap();
        assert_eq!(mask.binary_location,expected.binary_location);    
        let mask = generate_knight_movement(BoardLocation::from_long_algebraic("e4").unwrap(),3).unwrap();
        let expected = BoardLocation::from_long_algebraic("c5").unwrap();
        assert_eq!(mask.binary_location,expected.binary_location);       
        let mask = generate_knight_movement(BoardLocation::from_long_algebraic("e4").unwrap(),4).unwrap();
        let expected = BoardLocation::from_long_algebraic("c3").unwrap();
        assert_eq!(mask.binary_location,expected.binary_location);    
        let mask = generate_knight_movement(BoardLocation::from_long_algebraic("e4").unwrap(),5).unwrap();
        let expected = BoardLocation::from_long_algebraic("d2").unwrap();
        assert_eq!(mask.binary_location,expected.binary_location);     
        let mask = generate_knight_movement(BoardLocation::from_long_algebraic("e4").unwrap(),6).unwrap();
        let expected = BoardLocation::from_long_algebraic("f2").unwrap();
        assert_eq!(mask.binary_location,expected.binary_location);    
        let mask = generate_knight_movement(BoardLocation::from_long_algebraic("e4").unwrap(),7).unwrap();
        let expected = BoardLocation::from_long_algebraic("g3").unwrap();
        assert_eq!(mask.binary_location,expected.binary_location);                           
    }           
    #[test]
    fn test_generate_bishop_movement(){
        let mask = generate_bishop_movement(BoardLocation::from_long_algebraic("e4").unwrap(),0,1).unwrap();
        let expected = BoardLocation::from_long_algebraic("f5").unwrap();
        assert_eq!(mask.binary_location,expected.binary_location);      
        let mask = generate_bishop_movement(BoardLocation::from_long_algebraic("e4").unwrap(),0,2).unwrap();
        let expected = BoardLocation::from_long_algebraic("g6").unwrap();
        assert_eq!(mask.binary_location,expected.binary_location);           
        let mask = generate_bishop_movement(BoardLocation::from_long_algebraic("e4").unwrap(),0,5);
        assert!(mask.is_err());     
        let mask = generate_bishop_movement(BoardLocation::from_long_algebraic("e4").unwrap(),1,1).unwrap();
        let expected = BoardLocation::from_long_algebraic("d5").unwrap();
        assert_eq!(mask.binary_location,expected.binary_location);      
        let mask = generate_bishop_movement(BoardLocation::from_long_algebraic("e4").unwrap(),2,1).unwrap();
        let expected = BoardLocation::from_long_algebraic("d3").unwrap();
        assert_eq!(mask.binary_location,expected.binary_location);            
        let mask = generate_bishop_movement(BoardLocation::from_long_algebraic("e4").unwrap(),3,1).unwrap();
        let expected = BoardLocation::from_long_algebraic("f3").unwrap();
        assert_eq!(mask.binary_location,expected.binary_location);                                         
    }       
    #[test]
    fn test_generate_rook_movement(){
        let mask = generate_rook_movement(BoardLocation::from_long_algebraic("e4").unwrap(),0,1).unwrap();
        let expected = BoardLocation::from_long_algebraic("f4").unwrap();
        assert_eq!(mask.binary_location,expected.binary_location);      
        let mask = generate_rook_movement(BoardLocation::from_long_algebraic("e4").unwrap(),0,2).unwrap();
        let expected = BoardLocation::from_long_algebraic("g4").unwrap();
        assert_eq!(mask.binary_location,expected.binary_location);           
        let mask = generate_rook_movement(BoardLocation::from_long_algebraic("e4").unwrap(),0,5);
        assert!(mask.is_err());          
        let mask = generate_rook_movement(BoardLocation::from_long_algebraic("e4").unwrap(),1,1).unwrap();
        let expected = BoardLocation::from_long_algebraic("e5").unwrap();
        assert_eq!(mask.binary_location,expected.binary_location);      
        let mask = generate_rook_movement(BoardLocation::from_long_algebraic("e4").unwrap(),2,1).unwrap();
        let expected = BoardLocation::from_long_algebraic("d4").unwrap();
        assert_eq!(mask.binary_location,expected.binary_location);            
        let mask = generate_rook_movement(BoardLocation::from_long_algebraic("e4").unwrap(),3,1).unwrap();
        let expected = BoardLocation::from_long_algebraic("e3").unwrap();
        assert_eq!(mask.binary_location,expected.binary_location);                                         
    }   
    #[test]
    fn test_generate_king_movement(){
        let mask = generate_king_movement(BoardLocation::from_long_algebraic("e4").unwrap(),0).unwrap();
        let expected = BoardLocation::from_long_algebraic("f4").unwrap();
        assert_eq!(mask.binary_location,expected.binary_location);    
        let mask = generate_king_movement(BoardLocation::from_long_algebraic("e4").unwrap(),1).unwrap();
        let expected = BoardLocation::from_long_algebraic("f5").unwrap();
        assert_eq!(mask.binary_location,expected.binary_location);     
        let mask = generate_king_movement(BoardLocation::from_long_algebraic("e4").unwrap(),2).unwrap();
        let expected = BoardLocation::from_long_algebraic("e5").unwrap();
        assert_eq!(mask.binary_location,expected.binary_location);    
        let mask = generate_king_movement(BoardLocation::from_long_algebraic("e4").unwrap(),3).unwrap();
        let expected = BoardLocation::from_long_algebraic("d5").unwrap();
        assert_eq!(mask.binary_location,expected.binary_location);       
        let mask = generate_king_movement(BoardLocation::from_long_algebraic("e4").unwrap(),4).unwrap();
        let expected = BoardLocation::from_long_algebraic("d4").unwrap();
        assert_eq!(mask.binary_location,expected.binary_location);    
        let mask = generate_king_movement(BoardLocation::from_long_algebraic("e4").unwrap(),5).unwrap();
        let expected = BoardLocation::from_long_algebraic("d3").unwrap();
        assert_eq!(mask.binary_location,expected.binary_location);     
        let mask = generate_king_movement(BoardLocation::from_long_algebraic("e4").unwrap(),6).unwrap();
        let expected = BoardLocation::from_long_algebraic("e3").unwrap();
        assert_eq!(mask.binary_location,expected.binary_location);    
        let mask = generate_king_movement(BoardLocation::from_long_algebraic("e4").unwrap(),7).unwrap();
        let expected = BoardLocation::from_long_algebraic("f3").unwrap();
        assert_eq!(mask.binary_location,expected.binary_location);                           
    }            
