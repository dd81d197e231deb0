use dinglebob::clean_transcript;
use dinglebob::ErrorKind;
use dinglebob::FloatHost;
use dinglebob::Session;

struct RealHost;

impl FloatHost for RealHost {
    fn f_add(&self, a: u64, b: u64) -> u64 {
        (f64::from_bits(a) + f64::from_bits(b)).to_bits()
    }
    fn f_sub(&self, a: u64, b: u64) -> u64 {
        (f64::from_bits(a) - f64::from_bits(b)).to_bits()
    }
    fn f_mul(&self, a: u64, b: u64) -> u64 {
        (f64::from_bits(a) * f64::from_bits(b)).to_bits()
    }
    fn f_div(&self, a: u64, b: u64) -> u64 {
        (f64::from_bits(a) / f64::from_bits(b)).to_bits()
    }
    fn f_rem(&self, a: u64, b: u64) -> u64 {
        (f64::from_bits(a) % f64::from_bits(b)).to_bits()
    }
    fn f_from_int(&self, n: i128) -> u64 {
        (n as f64).to_bits()
    }
    fn f_parse(&self, digits: &Vec<u8>) -> Option<u64> {
        std::str::from_utf8(digits).ok()?.parse::<f64>().ok().map(|f| f.to_bits())
    }
    fn f_render(&self, a: u64) -> Vec<u8> {
        format!("{}", f64::from_bits(a)).into_bytes()
    }
    fn now_seconds(&self) -> u64 {
        std::time::SystemTime::now()
            .duration_since(std::time::UNIX_EPOCH)
            .map(|d| d.as_secs_f64())
            .unwrap_or(0.0)
            .to_bits()
    }
}

fn line(s: &mut Session<RealHost>, src: &str) -> Result<(), ErrorKind> {
    s.run_line(&src.as_bytes().to_vec()).map_err(|d| d.kind)
}

fn printed(s: &Session<RealHost>) -> Vec<String> {
    s.interpreter
        .output
        .iter()
        .map(|l| String::from_utf8(l.clone()).expect("printed line should be text"))
        .collect()
}

#[test]
fn repl_keeps_bindings_across_lines() {
    let mut s = Session::new(RealHost);
    line(&mut s, "let x = 1;").unwrap();
    line(&mut s, "print x;").unwrap();
    assert_eq!(printed(&s), vec!["1"]);
}

#[test]
fn repl_rolls_back_an_erroring_line() {
    let mut s = Session::new(RealHost);
    line(&mut s, "let x = 1;").unwrap();
    assert_eq!(line(&mut s, "print nosuch;"), Err(ErrorKind::UndefinedVariable));
    line(&mut s, "print x;").unwrap();
    assert_eq!(printed(&s), vec!["1"]);
}

#[test]
fn repl_rollback_drops_partial_bindings() {
    let mut s = Session::new(RealHost);
    line(&mut s, "let x = 1;").unwrap();
    assert_eq!(
        line(&mut s, "let q = 5; let w = nosuch;"),
        Err(ErrorKind::UndefinedVariable)
    );
    assert_eq!(line(&mut s, "print q;"), Err(ErrorKind::UndefinedVariable));
    line(&mut s, "print x;").unwrap();
    assert_eq!(printed(&s), vec!["1"]);
}

#[test]
fn repl_rollback_undoes_list_mutation() {
    let mut s = Session::new(RealHost);
    line(&mut s, "let a = [1];").unwrap();
    assert_eq!(
        line(&mut s, "append(a, 2); nosuch;"),
        Err(ErrorKind::UndefinedVariable)
    );
    line(&mut s, "print len(a);").unwrap();
    assert_eq!(printed(&s), vec!["1"]);
}

#[test]
fn repl_rollback_undoes_assignment() {
    let mut s = Session::new(RealHost);
    line(&mut s, "let x = 1;").unwrap();
    assert_eq!(line(&mut s, "x = 2; nosuch;"), Err(ErrorKind::UndefinedVariable));
    line(&mut s, "print x;").unwrap();
    assert_eq!(printed(&s), vec!["1"]);
}

#[test]
fn repl_keeps_output_printed_before_a_failure() {
    let mut s = Session::new(RealHost);
    assert_eq!(
        line(&mut s, "print 7; nosuch;"),
        Err(ErrorKind::UndefinedVariable)
    );
    assert_eq!(printed(&s), vec!["7"]);
}

#[test]
fn repl_parse_error_changes_nothing() {
    let mut s = Session::new(RealHost);
    line(&mut s, "let x = 1;").unwrap();
    assert_eq!(line(&mut s, "let y = ;"), Err(ErrorKind::ParseError));
    line(&mut s, "let y = 2;").unwrap();
    line(&mut s, "print x + y;").unwrap();
    assert_eq!(printed(&s), vec!["3"]);
}

#[test]
fn repl_closures_survive_across_lines() {
    let mut s = Session::new(RealHost);
    line(&mut s, "define make() { let v = 41; return lambda() { return v + 1; }; }").unwrap();
    line(&mut s, "let f = make();").unwrap();
    line(&mut s, "print f();").unwrap();
    assert_eq!(printed(&s), vec!["42"]);
}

#[test]
fn transcript_strips_ansi_escapes_and_joins_streams() {
    let stdout = b"\x1b[32mgreen\x1b[0m out\n".to_vec();
    let stderr = b"\x1b[31merr\x1b[0m!\n".to_vec();
    let cleaned = clean_transcript(&stdout, &stderr);
    assert_eq!(cleaned, b"green out\nerr!\n".to_vec());
}

#[test]
fn transcript_of_plain_bytes_is_the_concatenation() {
    let cleaned = clean_transcript(&b"ab".to_vec(), &b"cd".to_vec());
    assert_eq!(cleaned, b"abcd".to_vec());
}
