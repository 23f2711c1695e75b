use plum_chess::engine_humanized_v5::HumanizedEngineV5;
use plum_chess::engine_iterative_v10::IterativeEngine as IterativeEngineV10;
use plum_chess::engine_iterative_v16::IterativeEngine;
use plum_chess::engine_iterative_v17::IterativeEngineV17;
use plum_chess::engine_options::{eq_ignore_ascii_case, is_truthy, parse_usize_value};

#[test]
fn option_words_and_numbers_are_read() {
    assert!(eq_ignore_ascii_case("ownbook", "OwnBook"));
    assert!(!eq_ignore_ascii_case("OwnBooks", "OwnBook"));
    assert!(is_truthy(" YES "));
    assert!(is_truthy("1"));
    assert!(!is_truthy("no"));
    assert_eq!(parse_usize_value(" +42 "), Some(42));
    assert_eq!(parse_usize_value("007"), Some(7));
    assert_eq!(parse_usize_value("+"), None);
    assert_eq!(parse_usize_value("-3"), None);
    assert_eq!(parse_usize_value("99999999999999999999999"), None);
    assert_eq!(parse_usize_value("12a"), None);
}

#[test]
fn iterative_engine_accepts_and_refuses_options() {
    let mut engine = IterativeEngine::new(4);
    assert!(engine.set_option("OwnBook", "false").is_ok());
    assert!(engine.set_option("hash", " 128 ").is_ok());
    assert_eq!(engine.set_option("Hash", "lots"), Err("invalid Hash value 'lots'".to_owned()));
    assert!(engine.set_option("MultiPV", "64").is_ok());
    assert!(engine.set_option("Threads", "4").is_ok());
    assert!(engine.set_option("ThreadingModel", "LazySMP").is_ok());
    assert_eq!(
        engine.set_option("ThreadingModel", "fibers"),
        Err("invalid ThreadingModel value 'fibers'".to_owned())
    );
    assert!(engine.set_option("TimeStrategy", "legacy").is_ok());
    assert_eq!(
        engine.set_option("TimeStrategy", "x"),
        Err("invalid TimeStrategy value 'x'".to_owned())
    );
    assert!(engine.set_option("UCI_ShowRefutations", "true").is_ok());
    assert!(engine.set_option("Ponder", "whatever").is_ok());

    let mut older = IterativeEngineV10::new(3);
    assert!(older.set_option("OwnBook", "off").is_ok());
    assert_eq!(older.set_option("HASH", ""), Err("invalid Hash value ''".to_owned()));
    assert!(older.set_option("MultiPV", "nonsense").is_ok());

    let mut v17 = IterativeEngineV17::new(3);
    assert!(v17.set_option("OwnBook", "false").is_ok());
    assert!(v17.set_option("Threads", "two").is_err());

    let mut humanized = HumanizedEngineV5::new(10);
    assert!(humanized.set_option("OwnBook", "false").is_ok());
    assert!(humanized.set_option("MultiPV", "3").is_ok());
}
