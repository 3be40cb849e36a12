use cellular_automata::startup::{
    parse_u32_arg, parse_u64_arg, random_seed, unsigned_error, StartupArgs, StartupConfig,
};
use cellular_automata::text::{
    chars_of, format_u64, parse_trimmed_u64, parse_u32, parse_u64, same_text,
};

fn args(words: &[&str]) -> Vec<String> {
    words.iter().map(|w| w.to_string()).collect()
}

#[test]
fn numbers_are_read() {
    assert_eq!(parse_u64("0"), Some(0));
    assert_eq!(parse_u64("+12"), Some(12));
    assert_eq!(parse_u64("007"), Some(7));
    assert_eq!(parse_u64("18446744073709551615"), Some(u64::MAX));
    assert_eq!(parse_u64("18446744073709551616"), None);
    assert_eq!(parse_u64("99999999999999999999999"), None);
    assert_eq!(parse_u32("4294967295"), Some(u32::MAX));
    assert_eq!(parse_u32("4294967296"), None);
    for text in ["", "+", "-1", "-0", "++1", " 1", "1 ", "1_0", "0x1", "1.0", "\u{661}"] {
        assert_eq!(parse_u64(text), None);
        assert!(text.parse::<u64>().is_err());
    }
}

#[test]
fn white_space_around_a_number_is_skipped() {
    assert_eq!(parse_trimmed_u64(" \t42\u{a0}\n"), Some(42));
    assert_eq!(parse_trimmed_u64("\u{3000}+7"), Some(7));
    assert_eq!(parse_trimmed_u64("   "), None);
    assert_eq!(parse_trimmed_u64("4 2"), None);
    for code in 0..0x3100 {
        if let Some(c) = char::from_u32(code) {
            let text = format!("{c}5{c}");
            assert_eq!(parse_trimmed_u64(&text), text.trim().parse().ok());
        }
    }
}

#[test]
fn numbers_read_back() {
    for n in [0, 9, 10, 99, 100, 1234567890, u64::MAX] {
        assert_eq!(format_u64(n), n.to_string());
        assert_eq!(parse_u64(&format_u64(n)), Some(n));
    }
}

#[test]
fn texts_are_compared() {
    assert!(same_text("a\u{e4}", "a\u{e4}"));
    assert!(!same_text("a", "ab"));
    assert!(!same_text("ab", "aB"));
    assert!(same_text("", ""));
    assert_eq!(chars_of("x\u{20ac}"), vec!['x', '\u{20ac}']);
}

#[test]
fn bad_values_are_quoted() {
    assert_eq!(
        parse_u64_arg("seed", "a\"b\n"),
        Err("seed must be an unsigned integer, got \"a\\\"b\\n\"".to_string())
    );
    assert_eq!(
        parse_u32_arg("cluster-size", "-1"),
        Err("cluster-size must be an unsigned integer, got \"-1\"".to_string())
    );
    assert_eq!(parse_u64_arg("seed", "8"), Ok(8));
    assert_eq!(parse_u32_arg("cluster-size", "8"), Ok(8));
    assert_eq!(unsigned_error("n", "q"), "n must be an unsigned integer, got q");
}

#[test]
fn seed_follows_from_time_and_process() {
    assert_eq!(random_seed(123_456_789, 4321), 0x61c5_42f9_3799_cb6e);
}

#[test]
fn empty_command_line_has_defaults() {
    assert_eq!(
        StartupArgs::read(&Vec::new()),
        Ok(StartupArgs { seed: None, cluster_size: 24, perfect_vsync: false })
    );
    assert_eq!(
        StartupConfig::from_args(&Vec::new(), 123_456_789, 4321),
        Ok(StartupConfig { seed: 0x61c5_42f9_3799_cb6e, cluster_size: 24, perfect_vsync: false })
    );
}

#[test]
fn arguments_are_read() {
    assert_eq!(
        StartupConfig::from_args(&args(&["--seed", "5", "-c", "0", "--pv"]), 1, 2),
        Ok(StartupConfig { seed: 5, cluster_size: 1, perfect_vsync: true })
    );
    assert_eq!(
        StartupConfig::from_args(&args(&["-s", "5", "--cluster-size", "3", "-s", "6"]), 1, 2),
        Ok(StartupConfig { seed: 6, cluster_size: 3, perfect_vsync: false })
    );
}

#[test]
fn bad_arguments_are_refused() {
    let complaint = |words: &[&str]| StartupConfig::from_args(&args(words), 1, 2).unwrap_err();
    assert_eq!(complaint(&["--seed"]), "missing value after --seed");
    assert_eq!(complaint(&["-s"]), "missing value after -s");
    assert_eq!(complaint(&["--pv", "-c"]), "missing value after -c");
    assert_eq!(complaint(&["-s", "x"]), "seed must be an unsigned integer, got \"x\"");
    assert_eq!(
        complaint(&["-c", "4294967296"]),
        "cluster-size must be an unsigned integer, got \"4294967296\""
    );
    let usage = "usage: cellular-automata [--seed <u64>] [--cluster-size <u32>] [--pv]";
    assert_eq!(complaint(&["--help"]), usage);
    assert_eq!(complaint(&["-h", "--bogus"]), usage);
    assert_eq!(complaint(&["--bogus"]), "unknown argument: --bogus");
    assert_eq!(complaint(&["--pv", "7", "-s"]), "unknown argument: 7");
}
