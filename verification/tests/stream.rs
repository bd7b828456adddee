use shrimp::stream::take_frame;
use shrimp::stream::take_last_frame;

#[test]
fn frames_are_taken_line_by_line() {
    let mut buf = b"  \n{\"a\":1}\r\n{\"b\"".to_vec();
    assert_eq!(take_frame(&mut buf), Some(b"{\"a\":1}".to_vec()));
    assert_eq!(buf, b"{\"b\"".to_vec());
    assert_eq!(take_frame(&mut buf), None);
    assert_eq!(take_last_frame(&mut buf), Some(b"{\"b\"".to_vec()));
    assert!(buf.is_empty());
    assert_eq!(take_last_frame(&mut buf), None);
}

fn frames_of(chunks: &[&[u8]]) -> Vec<Vec<u8>> {
    let mut buf: Vec<u8> = Vec::new();
    let mut out = Vec::new();
    for c in chunks {
        buf.extend_from_slice(c);
        while let Some(f) = take_frame(&mut buf) {
            out.push(f);
        }
    }
    if let Some(f) = take_last_frame(&mut buf) {
        out.push(f);
    }
    out
}

#[test]
fn frames_do_not_depend_on_chunks() {
    let whole: &[u8] = b"{\"a\":1}\n\n  {\"b\":2}  \r\n{\"c\":3}";
    let one = frames_of(&[whole]);
    let many = frames_of(&[&whole[..3], &whole[3..9], &whole[9..10], &whole[10..]]);
    let bytes: Vec<&[u8]> = whole.chunks(1).collect();
    let single = frames_of(&bytes);
    assert_eq!(one, vec![b"{\"a\":1}".to_vec(), b"{\"b\":2}".to_vec(), b"{\"c\":3}".to_vec()]);
    assert_eq!(one, many);
    assert_eq!(one, single);
}
