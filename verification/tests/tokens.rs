use practicedb::enums::{Command, FieldTypesAllowed, Filter, Operand, TokenType, ValueTypes};
use practicedb::parsing::classify_token;
use practicedb::value::{compare_values, VariableReturn};

#[test]
fn command_words() {
    assert!(matches!(Command::from_str("select"), Some(Command::SELECT)));
    assert!(matches!(Command::from_str("insert"), Some(Command::INSERT)));
    assert!(matches!(Command::from_str("create"), Some(Command::CREATE)));
    assert!(matches!(Command::from_str("delete"), Some(Command::DELETE)));
    assert!(matches!(Command::from_str("exit"), Some(Command::EXIT)));
    assert!(Command::from_str("SELECT").is_none());
    assert_eq!(Command::SELECT.to_string(), "SELECT");
    assert_eq!(Command::EXIT.to_string(), "EXIT");
}

#[test]
fn filter_words() {
    assert!(matches!(Filter::from_str("from"), Some(Filter::FROM)));
    assert!(matches!(Filter::from_str("where"), Some(Filter::WHERE)));
    assert!(matches!(Filter::from_str("and"), Some(Filter::AND)));
    assert!(matches!(Filter::from_str("or"), Some(Filter::OR)));
    assert!(Filter::from_str("not").is_none());
    assert_eq!(Filter::WHERE.to_string(), "WHERE");
}

#[test]
fn operand_words() {
    assert!(matches!(Operand::from_str(">"), Some(Operand::GT)));
    assert!(matches!(Operand::from_str(">="), Some(Operand::GTE)));
    assert!(matches!(Operand::from_str("="), Some(Operand::EQ)));
    assert!(matches!(Operand::from_str("=="), Some(Operand::EQ)));
    assert!(matches!(Operand::from_str("<"), Some(Operand::LT)));
    assert!(matches!(Operand::from_str("<="), Some(Operand::LTE)));
    assert!(matches!(Operand::from_str("!="), Some(Operand::NQ)));
    assert!(matches!(Operand::from_str("<>"), Some(Operand::NQ)));
    assert!(Operand::from_str("=>").is_none());
    assert_eq!(Operand::NQ.to_string(), "!=");
    assert_eq!(Operand::GTE.to_string(), ">=");
}

#[test]
fn operand_text_reads_back() {
    for o in [Operand::EQ, Operand::GT, Operand::GTE, Operand::LT, Operand::LTE, Operand::NQ] {
        let shown = o.to_string();
        assert_eq!(Operand::from_str(&shown), Some(o));
    }
}

#[test]
fn field_type_words() {
    assert!(matches!(FieldTypesAllowed::from_str("i8"), Some(FieldTypesAllowed::I8)));
    assert!(matches!(FieldTypesAllowed::from_str("i32"), Some(FieldTypesAllowed::I32)));
    assert!(matches!(FieldTypesAllowed::from_str("string"), Some(FieldTypesAllowed::String)));
    assert!(FieldTypesAllowed::from_str("f64").is_none());
    for t in [FieldTypesAllowed::I8, FieldTypesAllowed::I32, FieldTypesAllowed::String] {
        assert_eq!(FieldTypesAllowed::from_str(&t.to_string()), Some(t));
    }
}

#[test]
fn value_words() {
    assert!(matches!(ValueTypes::from_str("*"), Some(ValueTypes::STAR)));
    assert!(ValueTypes::from_str("").is_none());
    match ValueTypes::from_str("name") {
        Some(ValueTypes::String(s)) => assert_eq!(s, "name"),
        _ => panic!("expected a word"),
    }
    assert_eq!(ValueTypes::STAR.to_string(), "*");
    assert_eq!(ValueTypes::String("abc".to_string()).to_string(), "abc");
}

#[test]
fn classify_each_kind() {
    assert!(matches!(classify_token("select"), TokenType::CMD(Command::SELECT)));
    assert!(matches!(classify_token("where"), TokenType::FILTER(Filter::WHERE)));
    assert!(matches!(classify_token("<>"), TokenType::OP(Operand::NQ)));
    assert!(matches!(classify_token("*"), TokenType::VALUE(ValueTypes::STAR)));
    match classify_token("profile") {
        TokenType::VALUE(ValueTypes::String(s)) => assert_eq!(s, "profile"),
        _ => panic!("expected a value"),
    }
    // The empty word is no value and counts as `exit`.
    assert!(matches!(classify_token(""), TokenType::CMD(Command::EXIT)));
    assert_eq!(classify_token("from").to_string(), "FROM");
}

#[test]
fn compare_same_kind() {
    let a = VariableReturn::I32(5);
    let b = VariableReturn::I32(7);
    assert!(compare_values(&a, &b, &Operand::LT));
    assert!(compare_values(&a, &b, &Operand::LTE));
    assert!(!compare_values(&a, &b, &Operand::GT));
    assert!(!compare_values(&a, &b, &Operand::EQ));
    assert!(compare_values(&a, &b, &Operand::NQ));
    assert!(compare_values(&b, &a, &Operand::GT));
    let x = VariableReturn::String("abc".to_string());
    let y = VariableReturn::String("abd".to_string());
    assert!(compare_values(&x, &y, &Operand::LT));
    assert!(compare_values(&y, &x, &Operand::GTE));
    let z = VariableReturn::String("ab".to_string());
    assert!(compare_values(&z, &x, &Operand::LT));
    let e = VariableReturn::String("abc".to_string());
    assert!(compare_values(&x, &e, &Operand::EQ));
    assert!(compare_values(&x, &e, &Operand::GTE));
    assert!(compare_values(&x, &e, &Operand::LTE));
}

#[test]
fn compare_different_kinds() {
    let a = VariableReturn::I8(5);
    let b = VariableReturn::I32(5);
    assert!(!compare_values(&a, &b, &Operand::EQ));
    assert!(compare_values(&a, &b, &Operand::NQ));
    assert!(!compare_values(&a, &b, &Operand::LT));
    assert!(!compare_values(&a, &b, &Operand::GT));
    assert!(!compare_values(&a, &b, &Operand::LTE));
    assert!(!compare_values(&a, &b, &Operand::GTE));
}

#[test]
fn comparisons_agree_on_values() {
    let vals = [
        VariableReturn::I8(-3),
        VariableReturn::I8(4),
        VariableReturn::I32(4),
        VariableReturn::String("b".to_string()),
        VariableReturn::String("ab".to_string()),
    ];
    for a in vals.iter() {
        for b in vals.iter() {
            let eq = compare_values(a, b, &Operand::EQ);
            let lt = compare_values(a, b, &Operand::LT);
            let gt = compare_values(a, b, &Operand::GT);
            assert_eq!(compare_values(a, b, &Operand::NQ), !eq);
            assert_eq!(compare_values(a, b, &Operand::GTE), gt || eq);
            assert_eq!(compare_values(a, b, &Operand::LTE), lt || eq);
            assert_eq!(lt, compare_values(b, a, &Operand::GT));
            assert!(!(lt && gt) && !(lt && eq) && !(gt && eq));
        }
    }
}

#[test]
fn keywords_read_back_lower_cased() {
    for c in [Command::INSERT, Command::SELECT, Command::CREATE, Command::DELETE, Command::EXIT] {
        assert_eq!(Command::from_str(&c.to_string().to_lowercase()), Some(c));
    }
    for f in [Filter::FROM, Filter::WHERE, Filter::AND, Filter::OR] {
        assert_eq!(Filter::from_str(&f.to_string().to_lowercase()), Some(f));
    }
}
