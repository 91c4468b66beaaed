use project_catalog::text::{chars, decimal, find, parse_id};

#[test]
fn decimal_writes_numbers_without_leading_zeros() {
    assert_eq!(decimal(0), "0");
    assert_eq!(decimal(7), "7");
    assert_eq!(decimal(10), "10");
    assert_eq!(decimal(1234567890), "1234567890");
    assert_eq!(decimal(usize::MAX), usize::MAX.to_string());
}

#[test]
fn parse_id_reads_decimal_digits() {
    assert_eq!(parse_id("0"), Some(0));
    assert_eq!(parse_id("7"), Some(7));
    assert_eq!(parse_id("007"), Some(7));
    assert_eq!(parse_id("1234567890"), Some(1234567890));
    assert_eq!(parse_id(&usize::MAX.to_string()), Some(usize::MAX));
}

#[test]
fn parse_id_takes_one_leading_plus_sign() {
    assert_eq!(parse_id("+7"), Some(7));
    assert_eq!(parse_id("++7"), None);
    assert_eq!(parse_id("+"), None);
    assert_eq!(parse_id("7+"), None);
}

#[test]
fn parse_id_rejects_what_is_no_number() {
    assert_eq!(parse_id(""), None);
    assert_eq!(parse_id("-1"), None);
    assert_eq!(parse_id(" 7"), None);
    assert_eq!(parse_id("7 "), None);
    assert_eq!(parse_id("7a"), None);
    assert_eq!(parse_id("a7"), None);
    assert_eq!(parse_id("1_000"), None);
    assert_eq!(parse_id("٧"), None);
}

#[test]
fn parse_id_rejects_numbers_that_do_not_fit() {
    let mut too_large = usize::MAX.to_string();
    too_large.push('0');
    assert_eq!(parse_id(&too_large), None);
    assert_eq!(parse_id("99999999999999999999999999999999999999999"), None);
    let max = usize::MAX.to_string();
    let last = max.chars().last().unwrap();
    if last != '9' {
        let mut next = max[..max.len() - 1].to_string();
        next.push(char::from_digit(last.to_digit(10).unwrap() + 1, 10).unwrap());
        assert_eq!(parse_id(&next), None);
    }
}

#[test]
fn parse_id_reads_back_what_decimal_wrote() {
    for n in [0usize, 1, 9, 10, 99, 100, 65535, 4294967295, usize::MAX] {
        assert_eq!(parse_id(&decimal(n)), Some(n));
    }
}

#[test]
fn parse_id_agrees_with_the_standard_parser() {
    for s in ["", "+", "+0", "0", "12", "+12", "-12", "1 2", "12x", "18446744073709551615",
        "18446744073709551616", "000000000000000000000000000001"] {
        assert_eq!(parse_id(s), s.parse::<usize>().ok());
    }
}

#[test]
fn find_gives_the_leftmost_place() {
    assert_eq!(find("7%2Fa%2Fb", "%2F"), Some(1));
    assert_eq!(find("%2F", "%2F"), Some(0));
    assert_eq!(find("abc%2F", "%2F"), Some(3));
    assert_eq!(find("aaa", "aa"), Some(0));
}

#[test]
fn find_gives_nothing_where_the_needle_is_absent() {
    assert_eq!(find("7%2fa", "%2F"), None);
    assert_eq!(find("", "%2F"), None);
    assert_eq!(find("%2", "%2F"), None);
    assert_eq!(find("7/a", "%2F"), None);
}

#[test]
fn find_counts_characters_not_bytes() {
    assert_eq!(find("日本語%2Fx", "%2F"), Some(3));
    assert_eq!(find("abc", ""), Some(0));
    assert_eq!(find("", ""), Some(0));
}

#[test]
fn chars_gives_the_characters_in_order() {
    assert_eq!(chars("a/日%"), vec!['a', '/', '日', '%']);
    assert_eq!(chars(""), Vec::<char>::new());
}

#[test]
fn parse_id_agrees_with_the_standard_parser_on_many_strings() {
    let alphabet = ['0', '1', '9', '+', '-', ' ', 'a'];
    let mut tried = 0usize;
    for len in 0..=5usize {
        let mut index = vec![0usize; len];
        loop {
            let s: String = index.iter().map(|&i| alphabet[i]).collect();
            assert_eq!(parse_id(&s), s.parse::<usize>().ok(), "string {:?}", s);
            tried += 1;
            let mut k = 0;
            while k < len {
                index[k] += 1;
                if index[k] < alphabet.len() {
                    break;
                }
                index[k] = 0;
                k += 1;
            }
            if k == len {
                break;
            }
        }
    }
    assert_eq!(tried, 1 + 7 + 49 + 343 + 2401 + 16807);
}

#[test]
fn decimal_agrees_with_the_standard_formatting() {
    let mut n: usize = 1;
    for _ in 0..200 {
        assert_eq!(decimal(n), n.to_string());
        assert_eq!(decimal(n - 1), (n - 1).to_string());
        n = n.wrapping_mul(6364136223846793005).wrapping_add(1442695040888963407);
    }
}

#[test]
fn find_agrees_with_the_standard_search() {
    let alphabet = ['%', '2', 'F', 'é'];
    for len in 0..=6usize {
        let mut index = vec![0usize; len];
        loop {
            let s: String = index.iter().map(|&i| alphabet[i]).collect();
            let expected = s.find("%2F").map(|bytes| s[..bytes].chars().count());
            assert_eq!(find(&s, "%2F"), expected, "string {:?}", s);
            let mut k = 0;
            while k < len {
                index[k] += 1;
                if index[k] < alphabet.len() {
                    break;
                }
                index[k] = 0;
                k += 1;
            }
            if k == len {
                break;
            }
        }
    }
}
