use account_store::account::{Account, AccountCode};
use account_store::digest::{Digest, MODULUS};
use account_store::error::StoreError;
use account_store::row;
use account_store::row::{account_code_row, account_row};

#[derive(Debug, PartialEq)]
enum Kind {
    ConnectionError,
    QueryError,
    InputSerializationError,
    DataDeserializationError,
}

fn kind<T>(result: Result<T, StoreError>) -> Result<T, Kind> {
    result.map_err(|error| match error {
        StoreError::ConnectionError => Kind::ConnectionError,
        StoreError::QueryError => Kind::QueryError,
        StoreError::InputSerializationError(_) => Kind::InputSerializationError,
        StoreError::DataDeserializationError(_) => Kind::DataDeserializationError,
    })
}

fn root_from_text(text: &str) -> Result<Digest, Kind> {
    kind(row::root_from_text(text))
}

fn hex_value(c: char) -> Option<u64> {
    match c {
        '0'..='9' => Some(c as u64 - 48),
        'a'..='f' => Some(c as u64 - 87),
        'A'..='F' => Some(c as u64 - 55),
        _ => None,
    }
}

fn is_space(c: char) -> bool {
    c == ' ' || c == '\n' || c == '\t' || c == '\r'
}

/// The root that a text stands for, written out by hand: spaces, a quote,
/// `0x`, sixty-four digits, a quote, spaces.
fn expected_root(text: &str) -> Option<[u64; 4]> {
    let chars: Vec<char> = text.chars().collect();
    let start = chars.iter().take_while(|c| is_space(**c)).count();
    if chars.len() < start + 68 || chars[start] != '"' || chars[start + 67] != '"' {
        return None;
    }
    if !chars[start + 68..].iter().all(|c| is_space(*c)) {
        return None;
    }
    let hex = &chars[start + 1..start + 67];
    if hex[0] != '0' || hex[1] != 'x' {
        return None;
    }
    let mut elements = [0u64; 4];
    for (k, element) in elements.iter_mut().enumerate() {
        for byte in 0..8 {
            let high = hex_value(hex[2 + 16 * k + 2 * byte])?;
            let low = hex_value(hex[3 + 16 * k + 2 * byte])?;
            *element |= (16 * high + low) << (8 * byte);
        }
        if *element >= MODULUS {
            return None;
        }
    }
    Some(elements)
}

fn expected_text(elements: [u64; 4]) -> String {
    let digits: Vec<char> = "0123456789abcdef".chars().collect();
    let mut text = String::from("\"0x");
    for element in elements {
        for byte in 0..8 {
            let value = ((element >> (8 * byte)) & 0xff) as usize;
            text.push(digits[value / 16]);
            text.push(digits[value % 16]);
        }
    }
    text.push('"');
    text
}

fn next(state: &mut u64) -> u64 {
    *state ^= *state << 13;
    *state ^= *state >> 7;
    *state ^= *state << 17;
    *state
}

fn some_element(state: &mut u64) -> u64 {
    match next(state) % 4 {
        0 => next(state) % 16,
        1 => MODULUS - 1 - next(state) % 16,
        _ => next(state) % MODULUS,
    }
}

fn root_text_of(digest: Digest) -> String {
    let account = Account::from_parts(0, 0, digest, digest, digest, false).unwrap();
    account_row(&account).unwrap().vault_root
}

#[test]
fn written_root_text_is_the_quoted_hex_of_its_bytes() {
    let mut state: u64 = 0x9e37_79b9_7f4a_7c15;
    for _ in 0..2000 {
        let elements = [
            some_element(&mut state),
            some_element(&mut state),
            some_element(&mut state),
            some_element(&mut state),
        ];
        let digest = Digest::from_elements(elements).unwrap();
        assert_eq!(root_text_of(digest), expected_text(elements));
    }
}

#[test]
fn written_root_text_is_read_back() {
    let mut state: u64 = 0x2545_f491_4f6c_dd1d;
    for _ in 0..2000 {
        let elements = [
            some_element(&mut state),
            some_element(&mut state),
            some_element(&mut state),
            some_element(&mut state),
        ];
        let digest = Digest::from_elements(elements).unwrap();
        assert_eq!(root_from_text(&root_text_of(digest)), Ok(digest));
    }
}

#[test]
fn damaged_root_text_is_read_as_the_rule_says() {
    let alphabet: Vec<char> =
        "0123456789abcdefABCDEFxXgG\" \t\n\r\\,[]{}:-+.eu\u{0}\u{1f}\u{7f}\u{e9}\u{2028}\u{feff}"
            .chars()
            .collect();
    let mut state: u64 = 0xdead_beef_cafe_f00d;
    let mut accepted = 0;
    let mut refused = 0;
    for _ in 0..20000 {
        let elements = [
            some_element(&mut state),
            some_element(&mut state),
            some_element(&mut state),
            some_element(&mut state),
        ];
        let mut chars: Vec<char> = expected_text(elements).chars().collect();
        for _ in 0..next(&mut state) % 4 {
            let c = alphabet[(next(&mut state) % alphabet.len() as u64) as usize];
            let at = (next(&mut state) % (chars.len() as u64 + 1)) as usize;
            match next(&mut state) % 4 {
                0 => chars.insert(at, c),
                1 if at < chars.len() => chars[at] = c,
                2 if at < chars.len() => {
                    chars.remove(at);
                },
                3 if at < chars.len() => chars[at] = chars[at].to_ascii_uppercase(),
                _ => chars.push(c),
            }
        }
        let text: String = chars.into_iter().collect();
        let expected = match expected_root(&text) {
            Some(elements) => {
                accepted += 1;
                Ok(Digest::from_elements(elements).unwrap())
            },
            None => {
                refused += 1;
                Err(Kind::DataDeserializationError)
            },
        };
        assert_eq!(root_from_text(&text), expected, "{:?}", text);
    }
    assert!(accepted > 1000);
    assert!(refused > 1000);
}

#[test]
fn element_at_the_field_order_is_refused_in_each_place() {
    for place in 0..4 {
        let mut elements = [1u64, 2, 3, 4];
        elements[place] = MODULUS - 1;
        let text = expected_text(elements);
        assert_eq!(root_from_text(&text), Ok(Digest::from_elements(elements).unwrap()));
        elements[place] = MODULUS;
        let text = expected_text(elements);
        assert_eq!(root_from_text(&text), Err(Kind::DataDeserializationError));
        elements[place] = u64::MAX;
        let text = expected_text(elements);
        assert_eq!(root_from_text(&text), Err(Kind::DataDeserializationError));
    }
}

#[test]
fn different_procedure_lists_have_different_texts() {
    let root = Digest::from_elements([0, 0, 0, 0]).unwrap();
    let a = Digest::from_elements([1, 2, 3, 4]).unwrap();
    let b = Digest::from_elements([4, 3, 2, 1]).unwrap();
    let lists = [vec![], vec![a], vec![b], vec![a, b], vec![b, a], vec![a, a], vec![a, b, a]];
    let mut texts: Vec<String> = Vec::new();
    for list in lists {
        let code = AccountCode::from_parts(root, list, String::new()).unwrap();
        let text = account_code_row(&code).unwrap().procedures;
        assert!(!texts.contains(&text));
        texts.push(text);
    }
}

#[test]
fn procedure_list_text_is_the_bracketed_list_of_root_texts() {
    let root = Digest::from_elements([0, 0, 0, 0]).unwrap();
    let mut state: u64 = 0x1234_5678_9abc_def1;
    for count in 0..20 {
        let mut procedures = Vec::new();
        let mut parts = Vec::new();
        for _ in 0..count {
            let elements = [
                some_element(&mut state),
                some_element(&mut state),
                some_element(&mut state),
                some_element(&mut state),
            ];
            procedures.push(Digest::from_elements(elements).unwrap());
            parts.push(expected_text(elements));
        }
        let code = AccountCode::from_parts(root, procedures, String::new()).unwrap();
        let text = account_code_row(&code).unwrap().procedures;
        assert_eq!(text, format!("[{}]", parts.join(",")));
    }
}
