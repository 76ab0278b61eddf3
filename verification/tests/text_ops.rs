use mighty_grpc::text::{join_texts, percent_encode};

#[test]
fn unreserved_characters_stand_for_themselves() {
    let unreserved = "ABCDEFGHIJKLMNOPQRSTUVWXYZabcdefghijklmnopqrstuvwxyz0123456789-._~";
    assert_eq!(percent_encode(unreserved), unreserved);
    assert_eq!(percent_encode(""), "");
}

#[test]
fn other_ascii_characters_are_percent_encoded() {
    assert_eq!(percent_encode(" "), "%20");
    assert_eq!(percent_encode("%"), "%25");
    assert_eq!(percent_encode("+"), "%2B");
    assert_eq!(percent_encode("/?#[]@"), "%2F%3F%23%5B%5D%40");
    assert_eq!(percent_encode("!$&'()*,;="), "%21%24%26%27%28%29%2A%2C%3B%3D");
    assert_eq!(percent_encode("\u{0}\n\u{7f}"), "%00%0A%7F");
    assert_eq!(percent_encode("a b"), "a%20b");
    assert_eq!(percent_encode("`{|}^\"<>\\"), "%60%7B%7C%7D%5E%22%3C%3E%5C");
}

#[test]
fn other_characters_are_encoded_byte_by_byte() {
    assert_eq!(percent_encode("é"), "%C3%A9");
    assert_eq!(percent_encode("€"), "%E2%82%AC");
    assert_eq!(percent_encode("𝄞"), "%F0%9D%84%9E");
    assert_eq!(percent_encode("naïve café"), "na%C3%AFve%20caf%C3%A9");
    assert_eq!(percent_encode("\u{ff}"), "%C3%BF");
}

#[test]
fn every_byte_value_has_its_two_digits() {
    let digits = "0123456789ABCDEF".as_bytes();
    for b in 0u8..128 {
        let text = (b as char).to_string();
        let encoded = percent_encode(&text);
        let unreserved = b.is_ascii_alphanumeric() || b"-._~".contains(&b);
        if unreserved {
            assert_eq!(encoded, text);
        } else {
            let expected = format!(
                "%{}{}",
                digits[(b / 16) as usize] as char,
                digits[(b % 16) as usize] as char
            );
            assert_eq!(encoded, expected);
        }
    }
}

#[test]
fn joining_puts_the_second_text_after_the_first() {
    assert_eq!(join_texts("Error fetching embeddings: ", "timed out"), "Error fetching embeddings: timed out");
    assert_eq!(join_texts("", "x"), "x");
    assert_eq!(join_texts("x", ""), "x");
    assert_eq!(join_texts("", ""), "");
    assert_eq!(join_texts("é", "ü"), "éü");
}

#[test]
fn encoded_text_holds_only_safe_characters() {
    let safe = "ABCDEFGHIJKLMNOPQRSTUVWXYZabcdefghijklmnopqrstuvwxyz0123456789-._~%";
    for text in ["a&b=c#d?e f", "Zoë went to 東京.", "100%", "\u{0}\u{7f}\u{80}\u{10ffff}", "/path?x=1"] {
        let encoded = percent_encode(text);
        assert!(encoded.chars().all(|c| safe.contains(c)));
    }
}

#[test]
fn different_texts_have_different_encodings() {
    assert_eq!(percent_encode("%41"), "%2541");
    assert_eq!(percent_encode("A"), "A");
    assert_eq!(percent_encode("%20"), "%2520");
    assert_eq!(percent_encode(" "), "%20");
    assert_ne!(percent_encode("a b"), percent_encode("a+b"));
    assert_ne!(percent_encode("a%20b"), percent_encode("a b"));
    assert_ne!(percent_encode("é"), percent_encode("e"));
}
