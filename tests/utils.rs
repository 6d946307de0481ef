use swtorlib::consts::{ENTER_COMBAT, ID};
use swtorlib::namedid::NamedID;
use swtorlib::logs::{pick_log, str_lt, LOG_FROM_END};
use swtorlib::text::{parse_i32, parse_u64, trim, trim_to_n};
use swtorlib::utils::{
    add, extract_id, extract_lpart, extract_num, extract_rpart, extract_until, Packet,
};

fn chars(s: &str) -> Vec<char> {
    s.chars().collect()
}

#[test]
fn it_works() {
    let result = add(2, 2);
    assert_eq!(result, 4);
}

#[test]
fn pkg_to_bytes() {
    let p = Packet::new([69, 69, 4, 20], 69, 420, 42069, 69, 420, None);
    let b = p.to_bytes();
    println!("{:?} {}", b, Packet::SIZE);
    assert_eq!(b.len(), Packet::SIZE);
    assert_eq!(
        b,
        vec![69, 69, 4, 20, 0, 69, 1, 164, 0, 0, 164, 85, 0, 0, 0, 69, 0, 0, 1, 164]
    );
}

#[test]
fn packet_body_follows_header() {
    let body = [1u8, 2, 3];
    let p = Packet::new([1, 2, 3, 4], 0x0102, 0, 0x01020304, 3, 3, Some(&body));
    let b = p.to_bytes();
    assert_eq!(b.len(), Packet::SIZE + 3);
    assert_eq!(&b[4..6], &[1, 2]);
    assert_eq!(&b[8..12], &[1, 2, 3, 4]);
    assert_eq!(&b[20..], &[1, 2, 3]);
}

#[test]
fn extract_parts() {
    assert_eq!(extract_lpart("Name {12} tail {34}", '{', '}'), "12");
    assert_eq!(extract_rpart("Name {12} tail {34}", '{', '}'), "34");
    assert_eq!(extract_lpart("no braces", '{', '}'), "");
    assert_eq!(extract_lpart("a}b{c", '{', '}'), "");
    assert_eq!(extract_until("Name {12}", '{'), "Name ");
    assert_eq!(extract_until("Name", '{'), "Name");
}

#[test]
fn extract_numbers() {
    assert_eq!(extract_num("Berserk {4056205769048064}", '{', '}', false), 4056205769048064);
    assert_eq!(extract_num("x {1} y {2}", '{', '}', true), 2);
    assert_eq!(extract_num("x {abc}", '{', '}', false), 0);
    assert_eq!(extract_num("x {99999999999999999999}", '{', '}', false), 0);
    assert_eq!(extract_id("Heal {836045448945500}"), 836045448945500);
}

#[test]
fn parse_like_std() {
    for s in ["0", "+7", "18446744073709551615", "18446744073709551616", "", "+", "-1", "1a"] {
        assert_eq!(parse_u64(&chars(s)), s.parse::<u64>().ok(), "{}", s);
    }
    for s in ["0", "-7", "+7", "2147483647", "2147483648", "-2147483648", "-2147483649", "-", "x"] {
        assert_eq!(parse_i32(&chars(s)), s.parse::<i32>().ok(), "{}", s);
    }
}

#[test]
fn trim_like_std() {
    for s in ["  a b  ", "\t\u{3000}x\u{85}", "", "   ", "x"] {
        assert_eq!(trim(s), s.trim());
    }
}

#[test]
fn named_id_decodes() {
    let n = NamedID::new("Berserk {4056205769048064}");
    assert_eq!(n.id, 4056205769048064);
    assert_eq!(n.name, "Berserk");
    let n = NamedID::new("  Backhand Smash {2857321482944512}:52422000225810");
    assert_eq!(n.id, 2857321482944512);
    assert_eq!(n.name, "Backhand Smash");
    let n = NamedID::new("a}b {12}");
    assert_eq!(n.id, 12);
    assert_eq!(n.name, "a}b");
    let n = NamedID::new("x {12");
    assert_eq!(n.id, 0);
    let n = NamedID::new("no id here");
    assert_eq!(n.id, 0);
    assert_eq!(n.name, "no id here");
}

#[test]
fn named_id_round_trip() {
    for (text, id, tail) in [("Salvation ", 812990064492544u64, ""), (" Toth", 7, ":52422000225810")] {
        let frag = format!("{}{{{}}}{}", text, id, tail);
        let n = NamedID::new(&frag);
        assert_eq!(n.id, id);
        assert_eq!(n.name, text.trim());
        let again = NamedID::new(&format!("{} {{{}}}", n.name, n.id));
        assert_eq!(again, n);
    }
}

#[test]
fn opcode_names() {
    assert_eq!(ID(ENTER_COMBAT).name(), "EnterCombat");
    assert_eq!(ID(1).name(), "");
}

#[test]
fn trim_to_width() {
    assert_eq!(trim_to_n("short", 10), "short");
    assert_eq!(trim_to_n("a long ability name", 10), "a long ...");
    assert_eq!(trim_to_n("exactly10!", 10), "exactly10!");
    assert_eq!(trim_to_n("ab", 2), "ab");
    assert_eq!(trim_to_n("", 0), "");
}

#[test]
fn log_pick_skips_newest() {
    assert_eq!(LOG_FROM_END, 2);
    let names: Vec<String> = ["combat_2024-01-02.txt", "combat_2024-01-03.txt", "combat_2024-01-01.txt"]
        .iter()
        .map(|s| s.to_string())
        .collect();
    assert_eq!(pick_log(&names), Some(0));
    assert_eq!(pick_log(&vec!["only.txt".to_string()]), None);
    assert_eq!(pick_log(&Vec::new()), None);
    assert!(str_lt("abc", "abd"));
    assert!(str_lt("ab", "abc"));
    assert!(!str_lt("abc", "abc"));
    assert_eq!(str_lt("\u{e9}", "z"), "\u{e9}" < "z");
}
