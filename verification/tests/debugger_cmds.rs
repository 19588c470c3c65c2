use balancebeam::debugger::{
    align_addr_to_word, parse_address, replace_byte_in_word, DebuggerCommand,
};
use balancebeam::hangman::{all_revealed, apply_guess};

#[test]
fn command_words_parse() {
    for w in ["bt", "back", "backtrace"] {
        let tokens = vec![w];
        assert_eq!(
            DebuggerCommand::from_tokens(&tokens),
            Some(DebuggerCommand::Backtrace)
        );
    }
    for w in ["c", "cont", "continue"] {
        let tokens = vec![w];
        assert_eq!(
            DebuggerCommand::from_tokens(&tokens),
            Some(DebuggerCommand::Continue)
        );
    }
    for w in ["q", "quit"] {
        let tokens = vec![w];
        assert_eq!(DebuggerCommand::from_tokens(&tokens), Some(DebuggerCommand::Quit));
    }
}

#[test]
fn break_command_carries_its_target() {
    let tokens = vec!["b", "main"];
    assert_eq!(
        DebuggerCommand::from_tokens(&tokens),
        Some(DebuggerCommand::Break(String::from("main")))
    );
    let tokens = vec!["break", "0x40123a"];
    assert_eq!(
        DebuggerCommand::from_tokens(&tokens),
        Some(DebuggerCommand::Break(String::from("0x40123a")))
    );
}

#[test]
fn run_command_carries_all_arguments() {
    let tokens = vec!["r", "--flag", "value"];
    assert_eq!(
        DebuggerCommand::from_tokens(&tokens),
        Some(DebuggerCommand::Run(vec![
            String::from("--flag"),
            String::from("value")
        ]))
    );
    let tokens = vec!["run"];
    assert_eq!(
        DebuggerCommand::from_tokens(&tokens),
        Some(DebuggerCommand::Run(vec![]))
    );
}

#[test]
fn unknown_command_parses_to_nothing() {
    let tokens = vec!["step"];
    assert_eq!(DebuggerCommand::from_tokens(&tokens), None);
}

#[test]
fn addresses_parse_with_and_without_prefix() {
    assert_eq!(parse_address("0x1f"), Some(31));
    assert_eq!(parse_address("0X10"), Some(16));
    assert_eq!(parse_address("1F"), Some(31));
    assert_eq!(parse_address("deadbeef"), Some(0xdead_beef));
    assert_eq!(parse_address("0"), Some(0));
}

#[test]
fn bad_addresses_parse_to_nothing() {
    assert_eq!(parse_address(""), None);
    assert_eq!(parse_address("0x"), None);
    assert_eq!(parse_address("zz"), None);
    assert_eq!(parse_address("0x12g4"), None);
    // One digit more than a 64-bit word can hold.
    assert_eq!(parse_address("0x1ffffffffffffffff"), None);
}

#[test]
fn largest_address_still_parses() {
    assert_eq!(parse_address("0xffffffffffffffff"), Some(usize::MAX));
    assert_eq!(parse_address("0x10000000000000000"), None);
}

#[test]
fn align_rounds_down_to_word_start() {
    assert_eq!(align_addr_to_word(0), 0);
    assert_eq!(align_addr_to_word(7), 0);
    assert_eq!(align_addr_to_word(8), 8);
    assert_eq!(align_addr_to_word(0x40123a), 0x401238);
}

#[test]
fn replace_byte_swaps_one_byte_and_reports_the_old() {
    let word = 0x1122_3344_5566_7788u64;
    let (updated, orig) = replace_byte_in_word(word, 0, 0xcc);
    assert_eq!(orig, 0x88);
    assert_eq!(updated, 0x1122_3344_5566_77cc);
    let (updated, orig) = replace_byte_in_word(word, 7, 0xcc);
    assert_eq!(orig, 0x11);
    assert_eq!(updated, 0xcc22_3344_5566_7788);
    // Restoring the reported byte brings the original word back.
    let (planted, orig) = replace_byte_in_word(word, 3, 0xcc);
    let (restored, planted_byte) = replace_byte_in_word(planted, 3, orig);
    assert_eq!(restored, word);
    assert_eq!(planted_byte, 0xcc);
}

#[test]
fn guesses_reveal_matching_positions() {
    let secret: Vec<char> = "hello".chars().collect();
    let mut known = vec!['-'; 5];
    assert!(apply_guess(&secret, &mut known, 'l'));
    assert_eq!(known, vec!['-', '-', 'l', 'l', '-']);
    assert!(!apply_guess(&secret, &mut known, 'z'));
    assert_eq!(known, vec!['-', '-', 'l', 'l', '-']);
    assert!(!all_revealed(&known));
    for c in ['h', 'e', 'o'] {
        apply_guess(&secret, &mut known, c);
    }
    assert!(all_revealed(&known));
    assert_eq!(known, vec!['h', 'e', 'l', 'l', 'o']);
}
