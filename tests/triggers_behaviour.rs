use cerebro::triggers::{command_words, find_all, is_rule_file, parse_line, parse_lines, Kind, Operator, Trigger};
use cerebro::text::{format_u64, parse_i64, remove_line_feeds, str_contains};

#[test]
fn threshold_rule_fires_once() {
    let rule = parse_line("U /battery/percent < 20 /bin/true").unwrap();
    assert_eq!(rule.kind, Kind::Update);
    assert_eq!(rule.operator, Operator::LowerThan);
    assert_eq!(rule.value_to_compare, "20");
    assert_eq!(rule.command(), "/bin/true");
    let rules = vec![rule];
    let values = ["25", "22", "18", "15", "22"];
    let mut fired = Vec::new();
    for w in values.windows(2) {
        if !find_all(&rules, Kind::Update, "battery", "percent", w[0], w[1]).is_empty() {
            fired.push((w[0], w[1]));
        }
    }
    assert_eq!(fired, vec![("22", "18")]);
}

#[test]
fn greater_than_rule_is_edge_triggered() {
    let rules = vec![Trigger::new("U", "/cpu/.*", ">", "50", "x")];
    assert_eq!(find_all(&rules, Kind::Update, "cpu", "logical/count", "50", "51"), vec![0]);
    assert!(find_all(&rules, Kind::Update, "cpu", "logical/count", "51", "60").is_empty());
    assert!(find_all(&rules, Kind::Update, "cpu", "logical/count", "40", "50").is_empty());
    assert!(find_all(&rules, Kind::Update, "cpu", "logical/count", "?", "60").is_empty());
}

#[test]
fn equality_operators_compare_text() {
    let rules = vec![
        Trigger::new("U", "/battery/plugged", "==", "true", "a"),
        Trigger::new("U", "/battery/plugged", "!=", "true", "b"),
        Trigger::new("U", "/battery/plugged", "*", "*", "c"),
        Trigger::new("C", "/battery/plugged", "*", "*", "d"),
    ];
    assert_eq!(find_all(&rules, Kind::Update, "battery", "plugged", "false", "true"), vec![0, 2]);
    assert_eq!(find_all(&rules, Kind::Update, "battery", "plugged", "true", "false"), vec![1, 2]);
    assert_eq!(find_all(&rules, Kind::Create, "battery", "plugged", "", ""), vec![3]);
}

#[test]
fn paths_match_in_both_directions() {
    let t = Trigger::new("U", "/battery/percent/more", "*", "*", "x");
    assert!(t.matches(Kind::Update, "/battery/percent"));
    assert!(!t.matches(Kind::Delete, "/battery/percent"));
    let u = Trigger::new("C", "/brightness/.*", "*", "*", "x");
    assert!(u.matches(Kind::Create, "/brightness/intel/value"));
    assert!(!u.matches(Kind::Create, "/battery/percent"));
    let bad = Trigger::new("U", "(", "*", "*", "x");
    assert!(!bad.matches(Kind::Update, "/battery/percent"));
    let broken = Trigger::new("U", "/battery/percent(", "*", "*", "x");
    assert!(broken.matches(Kind::Update, "/battery/percent"));
    assert_eq!(find_all(&vec![broken], Kind::Update, "battery", "percent", "1", "2"), vec![0]);
}

#[test]
fn rule_lines() {
    let t = parse_line("C /brightness/.* * * logger \"brightness device appeared\"").unwrap();
    assert_eq!(t.kind, Kind::Create);
    assert_eq!(t.path, "/brightness/.*");
    assert_eq!(t.operator, Operator::Any);
    assert_eq!(t.value_to_compare, "*");
    assert_eq!(t.command(), "logger \"brightness device appeared\"");
    let d = parse_line("D /x != abc9 cmd").unwrap();
    assert_eq!((d.kind, d.operator), (Kind::Delete, Operator::Different));
    assert_eq!(parse_line("U /x == 1 ").unwrap().command(), "");
    assert!(parse_line("X /x < 1 cmd").is_none());
    assert!(parse_line("U /x <= 1 cmd").is_none());
    assert!(parse_line("U /x < 1.5 cmd").is_none());
    assert!(parse_line("U  < 1 cmd").is_none());
    assert!(parse_line("U /x < 1").is_none());
    assert!(parse_line("").is_none());
    let lines = vec!["# comment".to_string(), "U /a > 3 x".to_string(), "C /b * * y".to_string()];
    let rules = parse_lines(&lines);
    assert_eq!(rules.len(), 2);
    assert_eq!(rules[1].path, "/b");
}

#[test]
fn commands_split_into_pieces_and_words() {
    let t = Trigger::new("U", "/a", "*", "*", "notify-send \"Battery low\"; logger 'a b';x");
    let pieces = t.command_pieces();
    assert_eq!(pieces, vec!["notify-send \"Battery low\"", " logger 'a b'", "x"]);
    assert_eq!(command_words(&pieces[0]).unwrap(), vec!["notify-send", "Battery low"]);
    assert_eq!(command_words(&pieces[1]).unwrap(), vec!["logger", "a b"]);
    assert!(command_words("echo \"open").is_err());
    assert!(command_words("   ").is_err());
}

#[test]
fn rule_files() {
    assert!(is_rule_file("/home/u/.config/cerebro/battery.triggers"));
    assert!(!is_rule_file("/home/u/.config/cerebro/config.json"));
    assert!(!is_rule_file("battery.triggers.bak"));
}

#[test]
fn integers_parse_as_i64() {
    assert_eq!(parse_i64("20"), Some(20));
    assert_eq!(parse_i64("+7"), Some(7));
    assert_eq!(parse_i64("-15"), Some(-15));
    assert_eq!(parse_i64("9223372036854775807"), Some(i64::MAX));
    assert_eq!(parse_i64("-9223372036854775808"), Some(i64::MIN));
    assert_eq!(parse_i64("9223372036854775808"), None);
    assert_eq!(parse_i64(""), None);
    assert_eq!(parse_i64("-"), None);
    assert_eq!(parse_i64("1a"), None);
    assert_eq!(parse_i64("?"), None);
}

#[test]
fn text_helpers() {
    assert_eq!(format_u64(0), "0");
    assert_eq!(format_u64(1234567890123), "1234567890123");
    assert_eq!(format_u64(u64::MAX), u64::MAX.to_string());
    assert_eq!(remove_line_feeds("12\n3\n"), "123");
    assert!(str_contains("/sys/class/backlight/intel/brightness", "intel"));
    assert!(!str_contains("/sys/class/backlight/amd/brightness", "intel"));
    assert!(str_contains("abc", ""));
}
