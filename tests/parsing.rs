use rand_str_gen::args::{parse_args, Command, DirectiveState, Request};
use rand_str_gen::error::{ArgName, GenError};
use rand_str_gen::pool::build_pool;
use rand_str_gen::sample::gen_rand_string;

fn args(list: &[&str]) -> Vec<String> {
    list.iter().map(|s| s.to_string()).collect()
}

fn request(list: &[&str]) -> Request {
    match parse_args(&args(list)) {
        Ok(Command::Generate(q)) => q,
        Ok(Command::Help) => panic!("help instead of a request"),
        Err(e) => panic!("unexpected error {:?}", e),
    }
}

fn pool_for(list: &[&str]) -> Result<Vec<char>, GenError> {
    let q = request(list);
    build_pool(&q.directives.sets, &q.directives.add_chars, &q.directives.remove_chars)
}

fn text(pool: &[char]) -> String {
    pool.iter().collect()
}

const CANONICAL: &str = "0123456789abcdefghijklmnopqrstuvwxyzABCDEFGHIJKLMNOPQRSTUVWXYZ-._!*&#";

#[test]
fn length_must_be_numeric() {
    let r = parse_args(&args(&["abc"]));
    assert!(matches!(r, Err(GenError::InvalidInteger(ArgName::Length, ref t)) if t.iter().collect::<String>() == "abc"));
}

#[test]
fn length_is_required() {
    assert!(matches!(parse_args(&args(&[])), Err(GenError::MissingArgument(ArgName::Length))));
    assert!(matches!(
        parse_args(&args(&["-c", "--show-pool"])),
        Err(GenError::MissingArgument(ArgName::Length))
    ));
}

#[test]
fn length_accepts_plus_and_rejects_overflow() {
    assert_eq!(request(&["+12"]).length, 12);
    assert_eq!(request(&["0"]).length, 0);
    assert!(matches!(
        parse_args(&args(&["99999999999999999999999"])),
        Err(GenError::InvalidInteger(ArgName::Length, _))
    ));
    assert!(matches!(parse_args(&args(&["+"])), Err(GenError::InvalidInteger(ArgName::Length, _))));
    assert!(matches!(parse_args(&args(&["1x"])), Err(GenError::InvalidInteger(ArgName::Length, _))));
}

#[test]
fn unknown_flag_is_refused() {
    assert!(matches!(parse_args(&args(&["-x", "5"])), Err(GenError::UnknownFlag(_))));
    assert!(matches!(parse_args(&args(&["--verbose", "5"])), Err(GenError::UnknownFlag(_))));
}

#[test]
fn help_stops_parsing() {
    assert!(matches!(parse_args(&args(&["--help"])), Ok(Command::Help)));
    assert!(matches!(parse_args(&args(&["-c", "-h", "abc"])), Ok(Command::Help)));
}

#[test]
fn repeat_count_rules() {
    assert!(matches!(
        parse_args(&args(&["--repeat"])),
        Err(GenError::MissingArgument(ArgName::RepeatCount))
    ));
    assert!(matches!(
        parse_args(&args(&["--repeat", "0", "5"])),
        Err(GenError::InvalidInteger(ArgName::RepeatCount, _))
    ));
    assert!(matches!(
        parse_args(&args(&["-r", "many", "5"])),
        Err(GenError::InvalidInteger(ArgName::RepeatCount, _))
    ));
    assert_eq!(request(&["5"]).repeat, 1);
}

#[test]
fn flags_are_gathered() {
    let q = request(&["--copy", "--show-pool", "-r", "3", "7", "-d"]);
    assert_eq!(q.length, 7);
    assert_eq!(q.repeat, 3);
    assert!(q.copy);
    assert!(q.show_pool);
    assert_eq!(q.directives.sets, vec![false, true, true, true, true]);
}

#[test]
fn directive_prefix_must_be_sign() {
    assert!(matches!(parse_args(&args(&["5", "d"])), Err(GenError::InvalidPrefix('d'))));
}

#[test]
fn directive_letter_must_be_known() {
    assert!(matches!(parse_args(&args(&["5", "+dx"])), Err(GenError::InvalidPoolEntry('x'))));
}

#[test]
fn last_directive_wins() {
    assert_eq!(request(&["5", "+d", "-d"]).directives.sets[0], false);
    assert_eq!(request(&["5", "-d", "+d"]).directives.sets[0], true);
    assert_eq!(request(&["5", "+d-d"]).directives.sets[0], false);
}

#[test]
fn all_letter_clears_every_set() {
    assert_eq!(request(&["5", "+A"]).directives.sets, vec![false; 5]);
    assert_eq!(text(&pool_for(&["5", "+A+[xy]"]).unwrap()), "xy");
    assert_eq!(text(&pool_for(&["5", "-A+d"]).unwrap()), "0123456789");
}

#[test]
fn custom_run_without_close_runs_to_end() {
    let q = request(&["5", "-A+[xyz"]);
    assert_eq!(q.directives.add_chars, vec!['x', 'y', 'z']);
    assert_eq!(text(&pool_for(&["5", "-A+[é]m"]).unwrap()), "!*&#é");
}

#[test]
fn empty_group_is_skipped() {
    assert_eq!(text(&pool_for(&["5", ""]).unwrap()), CANONICAL);
}

#[test]
fn default_pool_is_canonical() {
    let d = DirectiveState::new();
    let p = build_pool(&d.sets, &d.add_chars, &d.remove_chars).unwrap();
    assert_eq!(text(&p), CANONICAL);
    assert_eq!(text(&pool_for(&["5"]).unwrap()), CANONICAL);
}

#[test]
fn duplicate_character_is_refused() {
    let r = pool_for(&["5", "+[ab]", "+[ab]"]);
    assert!(matches!(r, Err(GenError::DuplicateCharacter('a', ref p)) if text(p) == CANONICAL));
}

#[test]
fn removal_checks_the_resolved_pool() {
    let p = pool_for(&["5", "-d", "-[z]"]).unwrap();
    assert!(!p.contains(&'z'));
    assert_eq!(p.len(), 26 + 26 + 3 + 4 - 1);
    let r = pool_for(&["5", "-l", "-[z]"]);
    assert!(matches!(r, Err(GenError::CharacterNotFound('z', _))));
}

#[test]
fn removal_keeps_order() {
    assert_eq!(text(&pool_for(&["5", "-A+s", "-[.]"]).unwrap()), "-_");
    assert_eq!(text(&pool_for(&["5", "-A+[abc]", "-[b]"]).unwrap()), "ac");
}

#[test]
fn digits_only_end_to_end() {
    let q = request(&["4", "-u-l-s-m"]);
    let p = build_pool(&q.directives.sets, &q.directives.add_chars, &q.directives.remove_chars)
        .unwrap();
    assert_eq!(text(&p), "0123456789");
    for _ in 0..50 {
        let s = gen_rand_string(&p, q.length).unwrap();
        assert_eq!(s.chars().count(), 4);
        assert!(s.chars().all(|c| c.is_ascii_digit()));
    }
}

#[test]
fn excluding_everything_gives_empty_strings() {
    let p = pool_for(&["8", "-A"]).unwrap();
    assert!(p.is_empty());
    assert_eq!(gen_rand_string(&p, 8).unwrap(), "");
}
