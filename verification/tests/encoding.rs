use abot::cache::cache_key;
use abot::search::{resolve_link, search_url};

fn hex_digit(n: u8) -> char {
    if n < 10 {
        (0x30 + n) as char
    } else {
        (0x41 + n - 10) as char
    }
}

fn encoded(text: &str, keeps: fn(u8) -> bool) -> String {
    let mut out = String::new();
    for b in text.bytes() {
        if keeps(b) {
            out.push(b as char);
        } else {
            out.push('%');
            out.push(hex_digit(b / 16));
            out.push(hex_digit(b % 16));
        }
    }
    out
}

fn alphanumeric(b: u8) -> bool {
    (0x30..=0x39).contains(&b) || (0x41..=0x5A).contains(&b) || (0x61..=0x7A).contains(&b)
}

fn unreserved(b: u8) -> bool {
    alphanumeric(b) || b == 0x2D || b == 0x5F || b == 0x2E || b == 0x7E
}

fn hex_value(b: u8) -> Option<u8> {
    match b {
        0x30..=0x39 => Some(b - 0x30),
        0x41..=0x46 => Some(b - 0x41 + 10),
        0x61..=0x66 => Some(b - 0x61 + 10),
        _ => None,
    }
}

fn decoded(text: &str) -> Option<String> {
    let bytes = text.as_bytes();
    let mut out = Vec::new();
    let mut i = 0;
    while i < bytes.len() {
        if bytes[i] == 0x25 && bytes.len() - i >= 3 {
            if let (Some(h), Some(l)) = (hex_value(bytes[i + 1]), hex_value(bytes[i + 2])) {
                out.push(h * 16 + l);
                i += 3;
                continue;
            }
        }
        out.push(bytes[i]);
        i += 1;
    }
    String::from_utf8(out).ok()
}

fn samples() -> Vec<String> {
    let mut all = Vec::new();
    let mut c = 0u32;
    while c < 0x3000 {
        if let Some(ch) = char::from_u32(c) {
            all.push(ch.to_string());
            all.push(format!("a{}b", ch));
        }
        c += 1;
    }
    for ch in ['\u{FFFF}', '\u{10000}', '\u{1F600}', '\u{10FFFF}'] {
        all.push(ch.to_string());
    }
    all
}

#[test]
fn cache_key_is_the_encoding_of_every_byte_but_letters_and_digits() {
    for s in samples() {
        assert_eq!(cache_key(&s), encoded(&s, alphanumeric), "{:?}", s);
    }
}

#[test]
fn search_url_is_the_endpoint_and_the_encoding_of_the_query() {
    for s in samples() {
        assert_eq!(
            search_url(&s),
            format!("https://html.duckduckgo.com/html/?q={}", encoded(&s, unreserved)),
            "{:?}",
            s
        );
    }
}

#[test]
fn redirect_targets_are_decoded_escape_by_escape() {
    let alphabet = ['%', '4', 'a', 'F', 'g', 'x', 'C', '3', 'B'];
    let mut targets: Vec<String> = vec![String::new()];
    for _ in 0..5 {
        let mut longer = Vec::new();
        for t in targets.iter() {
            for c in alphabet {
                longer.push(format!("{}{}", t, c));
            }
        }
        for target in longer.iter() {
            let expected = decoded(target).unwrap_or(target.clone());
            assert_eq!(
                resolve_link(&format!("x?uddg={}", target)),
                Some(format!("https://{}", expected)),
                "{:?}",
                target
            );
        }
        targets = longer;
    }
}

#[test]
fn decoding_gives_back_what_was_encoded() {
    for s in samples() {
        let clean: String = s.chars().filter(|c| !c.is_whitespace()).collect();
        if clean.is_empty() || clean.starts_with("http") {
            continue;
        }
        assert_eq!(
            resolve_link(&format!("x?uddg={}", encoded(&clean, unreserved))),
            Some(format!("https://{}", clean)),
            "{:?}",
            s
        );
    }
}
