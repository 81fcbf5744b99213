use telnetls::normalizer::{LineEndingNormalizer, Policy};
use telnetls::preamble::{preamble_bytes, send_preamble};

/// The outbound stream of a session: the preamble, then the lines typed.
fn outbound(policy: Policy, loaded: Option<Vec<u8>>, lines: &[&[u8]]) -> Vec<u8> {
    let mut normalizer = LineEndingNormalizer::new(policy);
    let mut wire = send_preamble(&mut normalizer, loaded);
    for line in lines {
        wire.extend(normalizer.write(line));
    }
    wire.extend(normalizer.finish());
    wire
}

#[test]
fn preamble_comes_first() {
    let wire = outbound(Policy::BoundarySafe, Some(b"USER guest\nPASS x\n".to_vec()), &[b"abc\n"]);
    assert_eq!(wire, b"USER guest\r\nPASS x\r\nabc\r\n".to_vec());
    let mut normalizer = LineEndingNormalizer::new(Policy::BoundarySafe);
    let first = send_preamble(&mut normalizer, Some(b"hello\n".to_vec()));
    assert_eq!(first, b"hello\r\n".to_vec());
    assert_eq!(normalizer.write(b"abc\n"), b"abc\r\n".to_vec());
}

#[test]
fn preamble_and_input_share_one_normalizer() {
    let wire = outbound(Policy::BoundarySafe, Some(b"hello\r".to_vec()), &[b"\nabc\n"]);
    assert_eq!(wire, b"hello\r\nabc\r\n".to_vec());
    let wire = outbound(Policy::BoundarySafe, Some(b"hello\r".to_vec()), &[b"abc\n"]);
    assert_eq!(wire, b"hello\rabc\r\n".to_vec());
}

#[test]
fn preamble_under_the_simple_policy() {
    let wire = outbound(Policy::Simple, Some(b"hi\n".to_vec()), &[b"abc\n"]);
    assert_eq!(wire, b"hi\r\nabc\r\n".to_vec());
}

#[test]
fn missing_preamble_is_like_an_empty_one() {
    for policy in [Policy::BoundarySafe, Policy::Simple] {
        let missing = outbound(policy, None, &[b"abc\n"]);
        let empty = outbound(policy, Some(Vec::new()), &[b"abc\n"]);
        assert_eq!(missing, empty);
        assert_eq!(missing, b"abc\r\n".to_vec());
    }
    let mut normalizer = LineEndingNormalizer::new(Policy::BoundarySafe);
    assert_eq!(send_preamble(&mut normalizer, None), Vec::<u8>::new());
}

#[test]
fn unreadable_preamble_gives_no_bytes() {
    assert_eq!(preamble_bytes(None), Vec::<u8>::new());
    assert_eq!(preamble_bytes(Some(Vec::new())), Vec::<u8>::new());
    assert_eq!(preamble_bytes(Some(b"a\n".to_vec())), b"a\n".to_vec());
}
