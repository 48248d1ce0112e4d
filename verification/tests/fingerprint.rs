use rogue_hunter::fingerprint::content_fingerprint;

fn reference(sources: &[(&str, &str)]) -> u16 {
    let mut hash: u64 = 0xcbf29ce484222325;
    for (name, source) in sources {
        for byte in name.bytes().chain(source.bytes()).filter(|b| *b != b'\r') {
            hash ^= u64::from(byte);
            hash = hash.wrapping_mul(0x100000001b3);
        }
    }
    (hash ^ (hash >> 16) ^ (hash >> 32) ^ (hash >> 48)) as u16
}

#[test]
fn the_fingerprint_ignores_line_endings() {
    let lf = [("balance.toml", "[combat]\nmelee = 80\n"), ("items.toml", "a = 1\n")];
    let crlf = [("balance.toml", "[combat]\r\nmelee = 80\r\n"), ("items.toml", "a = 1\r\n")];
    assert_eq!(content_fingerprint(&lf), content_fingerprint(&crlf));
    assert_eq!(content_fingerprint(&lf), reference(&lf));
}

#[test]
fn the_fingerprint_sees_every_byte_of_content() {
    let a = [("balance.toml", "melee = 80\n")];
    let b = [("balance.toml", "melee = 81\n")];
    assert_ne!(content_fingerprint(&a), content_fingerprint(&b));
    assert_eq!(content_fingerprint(&b), reference(&b));
    assert_eq!(content_fingerprint(&[]), reference(&[]));
}
