use magic_cursor::stream::LineBuffer;

#[test]
fn lines_split_across_chunks() {
    let mut b = LineBuffer::new();
    assert!(b.push_chunk("data: {\"a\"").is_empty());
    assert_eq!(b.push_chunk(":1}\n\ndata: x  \r\nda"), vec!["data: {\"a\":1}", "", "data: x"]);
    assert_eq!(b.push_chunk("ta: end\n"), vec!["data: end"]);
    assert!(b.push_chunk("").is_empty());
}

#[test]
fn lines_same_for_any_chunking() {
    let text = "one\ntwo\n  three  \nfour";
    let mut whole = LineBuffer::new();
    let all = whole.push_chunk(text);
    let mut parts = LineBuffer::new();
    let mut got = Vec::new();
    for piece in ["o", "ne\ntw", "o\n  th", "ree  \nfo", "ur"] {
        got.extend(parts.push_chunk(piece));
    }
    assert_eq!(all, got);
    assert_eq!(all, vec!["one", "two", "three"]);
}
