//! The run-time library: tables, bytes and bits, random numbers, messages, patterns.
use tie::builtins::{tie_parse_int, tie_parse_trit, tie_str_char, tie_to_string_i64};
use tie::host::{c_string, settle, After, Outcome, Reply};
use tie::msg::MsgState;
use tie::pattern::{
    tie_regex_find, tie_regex_find_all, tie_regex_group, tie_regex_match, tie_regex_replace,
};
use tie::table::{
    bytes_table, next_rand, seed_rng, table_bytes, tie_bit_read, tie_bit_write, tie_byte_concat,
    tie_rand_range, DynTable,
};
use tie::text::{
    contains_sep, dec_i64, dec_u64, has_prefix, join_strings, parse_i64, same, split_path_string,
};
use tie::value::{clamp_trit, compare_i64, eval_binary, op_display, BinOut, Value};
use tie::ast::BinaryOp;

#[test]
fn decimal_text_and_back() {
    for n in [0, 7, -7, 120, i64::MAX, i64::MIN] {
        assert_eq!(dec_i64(n), n.to_string());
        assert_eq!(parse_i64(&dec_i64(n)), Some(n));
    }
    assert_eq!(dec_u64(u64::MAX), "18446744073709551615");
    assert_eq!(parse_i64("+5"), Some(5));
    for bad in ["", "-", "+", "1a", " 1", "9223372036854775808", "-9223372036854775809"] {
        assert_eq!(parse_i64(bad), None, "{bad}");
        assert!(bad.parse::<i64>().is_err());
    }
}

#[test]
fn paths_split_and_join() {
    for p in ["", "a", "a::b", "a::b::c", "::", "a:::b", "a::"] {
        let parts = split_path_string(p);
        let want: Vec<&str> = p.split("::").collect();
        assert_eq!(parts, want);
        assert_eq!(join_strings(&parts, "::"), p);
        assert_eq!(contains_sep(p), p.contains("::"));
    }
    assert!(has_prefix("abc", "ab") && !has_prefix("a", "ab"));
    assert!(same("a", "a") && !same("a", "b"));
}

#[test]
fn a_table_reads_back_what_is_written() {
    let mut t = DynTable::tie_table_new(8);
    assert_eq!(t.tie_table_len(), 0);
    for i in 0..20 {
        t.tie_table_push_i64(i * i);
    }
    assert_eq!(t.tie_table_len(), 20);
    assert_eq!(t.cap, 32);
    assert_eq!(t.tie_table_at_i64(7), Some(49));
    assert_eq!(t.tie_table_at_i64(20), None);
    assert_eq!(t.tie_table_at_i64(-1), None);
    assert!(t.tie_table_set_i64(7, -1));
    assert!(!t.tie_table_set_i64(20, -1));
    assert_eq!(t.tie_table_at_i64(7), Some(-1));
    assert_eq!(t.tie_table_at_i64(6), Some(36));
    let mut f = DynTable::tie_table_new(8);
    f.tie_table_push_f64(1.5f64.to_bits());
    assert_eq!(f.tie_table_at_f64(0).map(f64::from_bits), Some(1.5));
    assert!(f.tie_table_set_f64(0, (-0.5f64).to_bits()));
    assert_eq!(f.tie_table_at_f64(0).map(f64::from_bits), Some(-0.5));
    let mut b = DynTable::tie_table_new(1);
    b.tie_table_push_bool(1);
    assert_eq!(b.tie_table_at_bool(0), Some(1));
    assert!(b.tie_table_set_bool(0, 0));
    assert_eq!(b.tie_table_at_bool(0), Some(0));
    let mut s = DynTable::tie_table_new(8);
    s.tie_table_push_string(3);
    assert_eq!(s.tie_table_at_string(0), Some(3));
    assert!(s.tie_table_set_string(0, 4));
    assert_eq!(s.tie_table_at_string(0), Some(4));
}

#[test]
fn bits_read_back_and_others_stay() {
    let mut v = vec![0b0101, -1];
    assert_eq!((tie_bit_read(&v, 0), tie_bit_read(&v, 1), tie_bit_read(&v, 2)), (1, 0, 1));
    assert!(tie_bit_write(&mut v, 1, 9));
    assert_eq!(v, [0b0111, -1]);
    assert!(tie_bit_write(&mut v, 8, 0));
    assert_eq!(v, [0b0111, -2]);
    assert!(!tie_bit_write(&mut v, 16, 1));
    assert!(!tie_bit_write(&mut v, -1, 1));
    assert_eq!(tie_bit_read(&v, -1), 0);
    assert_eq!(tie_byte_concat(&vec![1], &vec![2, 3]), [1, 2, 3]);
}

#[test]
fn bytes_survive_the_table() {
    assert_eq!(table_bytes(&vec![-5, 0, 255, 256, 300]), [0, 0, 255, 255, 255]);
    let all: Vec<u8> = (0..=255).collect();
    assert_eq!(table_bytes(&bytes_table(&all)), all);
}

#[test]
fn random_numbers_follow_the_generator() {
    assert_eq!(seed_rng(0), 1);
    assert_eq!(seed_rng(9), 9);
    assert_eq!(next_rand(1), 0x40822041);
    assert_ne!(next_rand(u64::MAX), 0);
    assert_eq!(tie_rand_range(5, 10, 12), Some(7));
    assert_eq!(tie_rand_range(-10, 0, 3), Some(-7));
    assert_eq!(tie_rand_range(5, 5, 3), None);
    assert_eq!(tie_rand_range(10, 5, 3), None);
    assert_eq!(tie_rand_range(i64::MIN, i64::MAX, u64::MAX), Some(i64::MIN));
}

#[test]
fn messages_fall_back() {
    let mut m = MsgState::default();
    assert_eq!(m.tie_msg_get_lang(), "zh");
    m.tie_msg_register("k", "zh", "一");
    m.tie_msg_register("k", "en", "one");
    assert_eq!(m.tie_msg_t("k"), "一");
    m.tie_msg_set_lang("en");
    assert_eq!(m.tie_msg_t("k"), "one");
    m.tie_msg_set_lang("ja");
    assert_eq!(m.tie_msg_t("k"), "一");
    assert_eq!(m.tie_msg_t("other"), "other");
    assert_eq!(m.tie_msg_t_lang("k", "en"), "one");
    assert_eq!(m.tie_msg_t_lang("k", "fr"), "");
    m.tie_msg_register("k", "en", "two");
    assert_eq!(m.tie_msg_t_lang("k", "en"), "two");
    assert_eq!(m.tie_msg_t_lang("k", "zh"), "一");
}

#[test]
fn patterns_match_find_and_replace() {
    assert_eq!(tie_regex_match("a1b2", "\\d"), Some(true));
    assert_eq!(tie_regex_match("hello", "^x"), Some(false));
    assert_eq!(tie_regex_match("hello", "["), None);
    assert_eq!(tie_regex_find("abc123def", "\\d+").as_deref(), Some("123"));
    assert_eq!(tie_regex_find("abc", "\\d+").as_deref(), Some(""));
    assert_eq!(tie_regex_find("abc", "("), None);
    assert_eq!(tie_regex_find("a\0b", "a.b").as_deref(), Some(""));
    assert_eq!(tie_regex_find_all("a1b22", "\\d+").unwrap(), ["1", "22"]);
    assert_eq!(tie_regex_find_all("abc", "\\d").unwrap().len(), 0);
    assert_eq!(tie_regex_find_all("abc", "*"), None);
    assert_eq!(tie_regex_replace("a1b2", "\\d", "#").as_deref(), Some("a#b#"));
    assert_eq!(tie_regex_replace("2026-08", "(\\d+)-(\\d+)", "$2/$1").as_deref(), Some("08/2026"));
    assert_eq!(tie_regex_replace("a", ")", "b"), None);
    for (i, want) in [(0, "hello world"), (1, "hello"), (2, "world"), (3, ""), (-1, ""), (i64::MAX, "")] {
        assert_eq!(tie_regex_group("hello world", "(\\w+) (\\w+)", i).as_deref(), Some(want));
    }
    assert_eq!(tie_regex_group("x", "(", 0), None);
    assert_eq!(tie_regex_group("x", "(", -1), None);
}

#[test]
fn characters_and_numbers_of_strings() {
    assert_eq!(tie_str_char("你好", 1), "好");
    assert_eq!(tie_str_char("你好", 2), "");
    assert_eq!(tie_str_char("你好", -1), "");
    assert_eq!(tie_to_string_i64(-42), "-42");
    assert_eq!(tie_parse_int("12abc"), None);
    assert_eq!(tie_parse_int("-12"), Some(-12));
    assert_eq!(tie_parse_trit("1"), Some(1));
    assert_eq!(tie_parse_trit("-1"), Some(-1));
    assert_eq!(tie_parse_trit("0"), Some(0));
    assert_eq!(tie_parse_trit("2"), None);
}

#[test]
fn nul_ends_a_c_string() {
    assert_eq!(c_string("abc"), "abc");
    assert_eq!(c_string("a\0b"), "");
}

fn number(o: BinOut) -> i64 {
    match o {
        BinOut::Val(Value::Int(n)) => n,
        _ => panic!("no integer"),
    }
}

fn flag(o: BinOut) -> bool {
    match o {
        BinOut::Val(Value::Bool(b)) => b,
        _ => panic!("no truth value"),
    }
}

fn refused(o: BinOut) -> String {
    match o {
        BinOut::Fail(m) => m,
        _ => panic!("not refused"),
    }
}

#[test]
fn operators_on_integers() {
    let (a, b) = (Value::Int(-7), Value::Int(2));
    assert_eq!(number(eval_binary(BinaryOp::Add, &a, &b)), -5);
    assert_eq!(number(eval_binary(BinaryOp::Sub, &a, &b)), -9);
    assert_eq!(number(eval_binary(BinaryOp::Mul, &a, &b)), -14);
    assert_eq!(number(eval_binary(BinaryOp::Div, &a, &b)), -3);
    assert_eq!(number(eval_binary(BinaryOp::Mod, &a, &b)), -1);
    assert_eq!(number(eval_binary(BinaryOp::Shr, &a, &b)), -2);
    assert_eq!(number(eval_binary(BinaryOp::BitXor, &a, &b)), -5);
    assert!(flag(eval_binary(BinaryOp::Lt, &a, &b)));
    assert!(!flag(eval_binary(BinaryOp::Eq, &a, &b)));
    assert!(compare_i64(BinaryOp::Ge, 3, 3) && !compare_i64(BinaryOp::Gt, 3, 3));
    assert!(matches!(
        eval_binary(BinaryOp::Add, &Value::Int(i64::MAX), &Value::Int(1)),
        BinOut::Crash
    ));
    assert!(refused(eval_binary(BinaryOp::Div, &a, &Value::Int(0))).contains("除"));
    refused(eval_binary(BinaryOp::Shl, &a, &Value::Int(64)));
    refused(eval_binary(BinaryOp::Add, &a, &Value::Bool(true)));
    assert_eq!(op_display(BinaryOp::Shl), "<<");
}

#[test]
fn trits_follow_kleene_and_saturate() {
    let t = |n: i8| Value::Trit(n);
    let get = |o: BinOut| match o {
        BinOut::Val(Value::Trit(n)) => n,
        _ => panic!("no trit"),
    };
    for a in [-1i8, 0, 1] {
        for b in [-1i8, 0, 1] {
            assert_eq!(get(eval_binary(BinaryOp::And, &t(a), &t(b))), a.min(b));
            assert_eq!(get(eval_binary(BinaryOp::Or, &t(a), &t(b))), a.max(b));
            assert_eq!(get(eval_binary(BinaryOp::Add, &t(a), &t(b))), (a + b).clamp(-1, 1));
            assert_eq!(get(eval_binary(BinaryOp::Sub, &t(a), &t(b))), (a - b).clamp(-1, 1));
            assert_eq!(get(eval_binary(BinaryOp::Mul, &t(a), &t(b))), a * b);
        }
    }
    assert_eq!((clamp_trit(-9), clamp_trit(0), clamp_trit(9)), (-1, 0, 1));
}

#[test]
fn answers_become_values() {
    let val = |o: Outcome| match o {
        Outcome::Val(v) => v.to_repl_string(),
        Outcome::Fail(m) => format!("fail {m}"),
        Outcome::Crash => "crash".to_string(),
    };
    let m = || "no".to_string();
    assert_eq!(val(settle(After::Done, Reply::Done)), "");
    assert_eq!(val(settle(After::Text, Reply::Text("a".to_string()))), "a");
    assert_eq!(val(settle(After::Text, Reply::Text("a\0".to_string()))), "");
    assert_eq!(val(settle(After::MaybeText(m()), Reply::MaybeText(None))), "fail no");
    assert_eq!(val(settle(After::Names(m()), Reply::Names(Some(vec![m()])))), "[no]");
    assert_eq!(val(settle(After::Bytes(m()), Reply::Bytes(Some(vec![1, 255])))), "[1, 255]");
    assert_eq!(val(settle(After::Number, Reply::Number(-3))), "-3");
    assert_eq!(val(settle(After::Random { min: 5, max: 8 }, Reply::Random(4))), "6");
    assert_eq!(val(settle(After::Flag, Reply::Done)), "crash");
    assert_eq!(val(settle(After::Never, Reply::Done)), "crash");
}
