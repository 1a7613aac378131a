//! The paper encode/decode pair, round trips included.

use cio::codec::{decode_paper, encode_paper};
use cio::records::NewJournalClubPaper;

fn paper(title: &str, link: &str, meeting: &str, links: Vec<&str>) -> NewJournalClubPaper {
    NewJournalClubPaper {
        title: title.to_string(),
        link: link.to_string(),
        meeting: meeting.to_string(),
        link_to_meeting: links.into_iter().map(|s| s.to_string()).collect(),
    }
}

#[test]
fn encodes_the_canonical_form() {
    let p = paper("Raft", "https://raft.github.io", "org/repo#7", vec!["recM"]);
    assert_eq!(
        encode_paper(&p),
        "{\"title\":\"Raft\",\"link\":\"https://raft.github.io\",\"meeting\":\"org/repo#7\",\"link_to_meeting\":[\"recM\"]}"
    );
}

#[test]
fn encodes_empty_fields_and_list() {
    let p = paper("", "", "", vec![]);
    assert_eq!(
        encode_paper(&p),
        "{\"title\":\"\",\"link\":\"\",\"meeting\":\"\",\"link_to_meeting\":[]}"
    );
}

#[test]
fn escapes_quotes_backslashes_and_controls() {
    let p = paper("a\"b\\c\nd\te\u{1}f", "l", "m", vec![]);
    let s = encode_paper(&p);
    assert_eq!(
        s,
        "{\"title\":\"a\\\"b\\\\c\\nd\\te\\u0001f\",\"link\":\"l\",\"meeting\":\"m\",\"link_to_meeting\":[]}"
    );
    assert_eq!(decode_paper(&s), Some(p));
}

#[test]
fn round_trips_ordinary_papers() {
    let cases = vec![
        paper("Raft", "https://raft.github.io", "org/repo#7", vec!["recM"]),
        paper("", "", "", vec![]),
        paper("two links", "l", "m", vec!["a", "b"]),
        paper("unicode Ä“", "l", "m", vec![]),
        paper("\r\n", "\\", "\"", vec!["\u{1f}"]),
    ];
    for p in cases {
        let s = encode_paper(&p);
        assert_eq!(decode_paper(&s), Some(p));
    }
}

#[test]
fn rejects_non_canonical_text() {
    // trailing data
    assert_eq!(
        decode_paper("{\"title\":\"a\",\"link\":\"l\",\"meeting\":\"m\",\"link_to_meeting\":[]}x"),
        None
    );
    // missing field
    assert_eq!(decode_paper("{\"title\":\"a\"}"), None);
    // an escape the encoder never writes
    assert_eq!(
        decode_paper(
            "{\"title\":\"\\u0041\",\"link\":\"l\",\"meeting\":\"m\",\"link_to_meeting\":[]}"
        ),
        None
    );
    // a raw control character in a string body
    assert_eq!(
        decode_paper("{\"title\":\"a\nb\",\"link\":\"l\",\"meeting\":\"m\",\"link_to_meeting\":[]}"),
        None
    );
    // a trailing comma in the list
    assert_eq!(
        decode_paper("{\"title\":\"a\",\"link\":\"l\",\"meeting\":\"m\",\"link_to_meeting\":[\"x\",]}"),
        None
    );
    assert_eq!(decode_paper(""), None);
}

#[test]
fn decodes_handwritten_canonical_text() {
    let s = "{\"title\":\"T\",\"link\":\"L\",\"meeting\":\"M\",\"link_to_meeting\":[\"r1\",\"r2\"]}";
    let p = decode_paper(s).expect("canonical text must decode");
    assert_eq!(p.title, "T");
    assert_eq!(p.link, "L");
    assert_eq!(p.meeting, "M");
    assert_eq!(p.link_to_meeting, vec!["r1".to_string(), "r2".to_string()]);
}
