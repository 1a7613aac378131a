//! The typed encode/decode pair for papers carried inside a meeting row.
//!
//! A paper travels through the record stores as a single JSON-object
//! string. The encoding here is canonical: every field is written, in a
//! fixed order, with a fixed escaping (backslash escapes for quote,
//! backslash and the three common control characters, `\u00XX` with
//! upper-case hex for the rest of the control range). The decoder accepts
//! exactly the canonical form: `paper_decoding` returns `Some(p)` if and
//! only if the text is `paper_encoding(p)`, and the round trip is proved
//! in `lemma_paper_round_trip`.

use vstd::prelude::*;
use crate::records::{NewJournalClubPaper, PaperDocView};
use crate::strutil;

verus! {

/// The upper-case hex digit for `d`.
pub open spec fn hex_digit(d: int) -> char {
    if d == 0 {
        '0'
    } else if d == 1 {
        '1'
    } else if d == 2 {
        '2'
    } else if d == 3 {
        '3'
    } else if d == 4 {
        '4'
    } else if d == 5 {
        '5'
    } else if d == 6 {
        '6'
    } else if d == 7 {
        '7'
    } else if d == 8 {
        '8'
    } else if d == 9 {
        '9'
    } else if d == 10 {
        'A'
    } else if d == 11 {
        'B'
    } else if d == 12 {
        'C'
    } else if d == 13 {
        'D'
    } else if d == 14 {
        'E'
    } else {
        'F'
    }
}

/// The value of an upper-case hex digit, or -1 for any other character.
pub open spec fn hex_val(c: char) -> int {
    if c == '0' {
        0
    } else if c == '1' {
        1
    } else if c == '2' {
        2
    } else if c == '3' {
        3
    } else if c == '4' {
        4
    } else if c == '5' {
        5
    } else if c == '6' {
        6
    } else if c == '7' {
        7
    } else if c == '8' {
        8
    } else if c == '9' {
        9
    } else if c == 'A' {
        10
    } else if c == 'B' {
        11
    } else if c == 'C' {
        12
    } else if c == 'D' {
        13
    } else if c == 'E' {
        14
    } else if c == 'F' {
        15
    } else {
        -1
    }
}

/// How one character is written inside a JSON string.
pub open spec fn escaped_char(c: char) -> Seq<char> {
    if c == '"' {
        seq!['\\', '"']
    } else if c == '\\' {
        seq!['\\', '\\']
    } else if c == '\n' {
        seq!['\\', 'n']
    } else if c == '\r' {
        seq!['\\', 'r']
    } else if c == '\t' {
        seq!['\\', 't']
    } else if (c as u32) < 32 {
        seq!['\\', 'u', '0', '0', hex_digit(c as u32 as int / 16), hex_digit(c as u32 as int % 16)]
    } else {
        seq![c]
    }
}

/// How a whole string body is written, character by character.
pub open spec fn escaped(s: Seq<char>) -> Seq<char>
    decreases s.len(),
{
    if s.len() == 0 {
        seq![]
    } else {
        escaped_char(s[0]) + escaped(s.skip(1))
    }
}

/// A string field: quotes around the escaped body.
pub open spec fn quoted(s: Seq<char>) -> Seq<char> {
    seq!['"'] + escaped(s) + seq!['"']
}

/// A list of string fields: quoted values separated by commas.
pub open spec fn list_encoding(l: Seq<Seq<char>>) -> Seq<char>
    decreases l.len(),
{
    if l.len() == 0 {
        seq![]
    } else if l.len() == 1 {
        quoted(l[0])
    } else {
        quoted(l[0]) + seq![','] + list_encoding(l.skip(1))
    }
}

/// The canonical text form of a paper.
pub open spec fn paper_encoding(p: PaperDocView) -> Seq<char> {
    "{\"title\":"@ + quoted(p.title) + ",\"link\":"@ + quoted(p.link) + ",\"meeting\":"@ + quoted(
        p.meeting,
    ) + ",\"link_to_meeting\":["@ + list_encoding(p.link_to_meeting) + "]}"@
}

/// Append the escaped form of `s` to `out`.
fn push_escaped(out: &mut Vec<char>, s: &Vec<char>)
    ensures
        final(out)@ == old(out)@ + escaped(s@),
{
    let ghost orig = out@;
    let mut i: usize = 0;
    assert(s@.skip(0) =~= s@);
    assert(out@.skip(orig.len() as int) =~= Seq::<char>::empty());
    while i < s.len()
        invariant
            i <= s@.len(),
            orig.len() <= out@.len(),
            out@.subrange(0, orig.len() as int) == orig,
            escaped(s@) == out@.skip(orig.len() as int) + escaped(s@.skip(i as int)),
        decreases s@.len() - i,
    {
        let ghost pre = out@;
        let c = s[i];
        if c == '"' {
            out.push('\\');
            out.push('"');
        } else if c == '\\' {
            out.push('\\');
            out.push('\\');
        } else if c == '\n' {
            out.push('\\');
            out.push('n');
        } else if c == '\r' {
            out.push('\\');
            out.push('r');
        } else if c == '\t' {
            out.push('\\');
            out.push('t');
        } else if (c as u32) < 32 {
            out.push('\\');
            out.push('u');
            out.push('0');
            out.push('0');
            out.push(hex_digit_char((c as u32 / 16) as u64));
            out.push(hex_digit_char((c as u32 % 16) as u64));
        } else {
            out.push(c);
        }
        proof {
            assert(out@ =~= pre + escaped_char(s@[i as int]));
            assert(s@.skip(i as int)[0] == s@[i as int]);
            assert(s@.skip(i as int).skip(1) =~= s@.skip(i + 1));
            assert(out@.skip(orig.len() as int) =~= pre.skip(orig.len() as int) + escaped_char(
                s@[i as int],
            ));
            assert(pre.skip(orig.len() as int) + escaped(s@.skip(i as int)) =~= out@.skip(
                orig.len() as int,
            ) + escaped(s@.skip(i + 1)));
            assert(out@.subrange(0, orig.len() as int) =~= orig);
        }
        i = i + 1;
    }
    proof {
        assert(s@.skip(i as int) =~= Seq::<char>::empty());
        assert(escaped(Seq::<char>::empty()) == Seq::<char>::empty());
        assert(out@.skip(orig.len() as int) + Seq::<char>::empty() =~= out@.skip(
            orig.len() as int,
        ));
        assert(out@ =~= orig + escaped(s@));
    }
}

fn hex_digit_char(d: u64) -> (c: char)
    requires
        d < 16,
    ensures
        c == hex_digit(d as int),
{
    if d == 0 {
        '0'
    } else if d == 1 {
        '1'
    } else if d == 2 {
        '2'
    } else if d == 3 {
        '3'
    } else if d == 4 {
        '4'
    } else if d == 5 {
        '5'
    } else if d == 6 {
        '6'
    } else if d == 7 {
        '7'
    } else if d == 8 {
        '8'
    } else if d == 9 {
        '9'
    } else if d == 10 {
        'A'
    } else if d == 11 {
        'B'
    } else if d == 12 {
        'C'
    } else if d == 13 {
        'D'
    } else if d == 14 {
        'E'
    } else {
        'F'
    }
}

/// Append a quoted string field to `out`.
fn push_quoted(out: &mut Vec<char>, s: &String)
    ensures
        final(out)@ == old(out)@ + quoted(s@),
{
    out.push('"');
    let body = strutil::chars_of(s.as_str());
    push_escaped(out, &body);
    out.push('"');
    assert(final(out)@ =~= old(out)@ + quoted(s@));
}

/// Write a paper as its canonical text form.
pub fn encode_paper(p: &NewJournalClubPaper) -> (r: String)
    ensures
        r@ == paper_encoding(p@),
{
    let mut out: Vec<char> = Vec::new();
    strutil::push_str(&mut out, "{\"title\":");
    push_quoted(&mut out, &p.title);
    strutil::push_str(&mut out, ",\"link\":");
    push_quoted(&mut out, &p.link);
    strutil::push_str(&mut out, ",\"meeting\":");
    push_quoted(&mut out, &p.meeting);
    strutil::push_str(&mut out, ",\"link_to_meeting\":[");
    let mut i: usize = 0;
    let ghost l = p.link_to_meeting.deep_view();
    let ghost head = out@;
    while i < p.link_to_meeting.len()
        invariant
            i <= l.len(),
            l == p.link_to_meeting.deep_view(),
            out@ == head + list_prefix(l, i as int),
        decreases l.len() - i,
    {
        if i > 0 {
            out.push(',');
        }
        push_quoted(&mut out, &p.link_to_meeting[i]);
        proof {
            lemma_list_prefix_step(l, i as int);
            assert(out@ =~= head + list_prefix(l, i + 1));
        }
        i = i + 1;
    }
    proof {
        lemma_list_prefix_full(l);
    }
    strutil::push_str(&mut out, "]}");
    assert(out@ =~= paper_encoding(p@));
    strutil::string_of(&out)
}

/// The encoding of the first `i` items of a list, as it stands mid-way.
pub open spec fn list_prefix(l: Seq<Seq<char>>, i: int) -> Seq<char>
    decreases i,
{
    if i <= 0 {
        seq![]
    } else if i == 1 {
        quoted(l[0])
    } else {
        list_prefix(l, i - 1) + seq![','] + quoted(l[i - 1])
    }
}

proof fn lemma_list_prefix_step(l: Seq<Seq<char>>, i: int)
    requires
        0 <= i < l.len(),
    ensures
        list_prefix(l, i + 1) == if i == 0 {
            quoted(l[0])
        } else {
            list_prefix(l, i) + seq![','] + quoted(l[i])
        },
{
}

proof fn lemma_list_prefix_full(l: Seq<Seq<char>>)
    ensures
        list_prefix(l, l.len() as int) == list_encoding(l),
    decreases l.len(),
{
    if l.len() >= 2 {
        // relate the prefix of the whole list to the encoding of its tail
        lemma_list_prefix_shift(l, l.len() as int);
        lemma_list_prefix_full(l.skip(1));
    }
}

proof fn lemma_list_prefix_shift(l: Seq<Seq<char>>, i: int)
    requires
        2 <= i <= l.len(),
    ensures
        list_prefix(l, i) == quoted(l[0]) + seq![','] + list_prefix(l.skip(1), i - 1),
    decreases i,
{
    if i == 2 {
        assert(l.skip(1)[0] == l[1]);
        assert(list_prefix(l, 1) == quoted(l[0]));
        assert(list_prefix(l.skip(1), 1) == quoted(l.skip(1)[0]));
        assert(list_prefix(l, 2) == list_prefix(l, 1) + seq![','] + quoted(l[1]));
        assert(quoted(l[0]) + seq![','] + quoted(l[1]) =~= quoted(l[0]) + seq![','] + list_prefix(
            l.skip(1),
            1,
        ));
    } else {
        lemma_list_prefix_shift(l, i - 1);
        assert(l.skip(1)[i - 2] == l[i - 1]);
        assert((quoted(l[0]) + seq![','] + list_prefix(l.skip(1), i - 2)) + seq![','] + quoted(
            l[i - 1],
        ) =~= quoted(l[0]) + seq![','] + (list_prefix(l.skip(1), i - 2) + seq![','] + quoted(
            l.skip(1)[i - 2],
        )));
    }
}

/// Parse a string body up to and including its closing quote: the value
/// read and the count of characters consumed. Accepts exactly the forms
/// the escaping writes; anything else is refused.
pub open spec fn parse_string_body(s: Seq<char>) -> Option<(Seq<char>, int)>
    decreases s.len(),
{
    if s.len() == 0 {
        None
    } else if s[0] == '"' {
        Some((seq![], 1))
    } else if s[0] == '\\' {
        if s.len() < 2 {
            None
        } else if s[1] == '"' || s[1] == '\\' || s[1] == 'n' || s[1] == 'r' || s[1] == 't' {
            let c = if s[1] == '"' {
                '"'
            } else if s[1] == '\\' {
                '\\'
            } else if s[1] == 'n' {
                '\n'
            } else if s[1] == 'r' {
                '\r'
            } else {
                '\t'
            };
            match parse_string_body(s.skip(2)) {
                Some((v, n)) => Some((seq![c] + v, n + 2)),
                None => None,
            }
        } else if s[1] == 'u' {
            if s.len() < 6 || s[2] != '0' || s[3] != '0' || hex_val(s[4]) < 0 || hex_val(s[5])
                < 0 {
                None
            } else {
                let x = hex_val(s[4]) * 16 + hex_val(s[5]);
                if x < 32 && x != 9 && x != 10 && x != 13 {
                    match parse_string_body(s.skip(6)) {
                        Some((v, n)) => Some((seq![(x as u32) as char] + v, n + 6)),
                        None => None,
                    }
                } else {
                    None
                }
            }
        } else {
            None
        }
    } else if (s[0] as u32) < 32 {
        None
    } else {
        match parse_string_body(s.skip(1)) {
            Some((v, n)) => Some((seq![s[0]] + v, n + 1)),
            None => None,
        }
    }
}

/// Parse a non-empty comma-separated run of quoted strings followed by
/// the closing bracket; the values and the count of characters consumed.
pub open spec fn parse_item_list(s: Seq<char>) -> Option<(Seq<Seq<char>>, int)>
    decreases s.len(),
{
    if s.len() == 0 || s[0] != '"' {
        None
    } else {
        match parse_string_body(s.skip(1)) {
            Some((v, n)) => {
                if n < 1 || 1 + n >= s.len() {
                    None
                } else if s[1 + n] == ']' {
                    Some((seq![v], 1 + n + 1))
                } else if s[1 + n] == ',' {
                    match parse_item_list(s.skip(1 + n + 1)) {
                        Some((l, m)) => Some((seq![v] + l, 1 + n + 1 + m)),
                        None => None,
                    }
                } else {
                    None
                }
            },
            None => None,
        }
    }
}

/// Parse a bracketed list tail (the opening bracket already consumed):
/// either an immediate closing bracket or a run of quoted strings.
pub open spec fn parse_items(s: Seq<char>) -> Option<(Seq<Seq<char>>, int)> {
    if s.len() > 0 && s[0] == ']' {
        Some((seq![], 1))
    } else {
        parse_item_list(s)
    }
}

/// The text starts with the given literal.
pub open spec fn expect(s: Seq<char>, lit: Seq<char>) -> bool {
    lit.len() <= s.len() && s.subrange(0, lit.len() as int) == lit
}

/// What a paper field text decodes to: `Some(p)` exactly on the canonical
/// form `paper_encoding(p)`.
pub open spec fn paper_decoding(s: Seq<char>) -> Option<PaperDocView> {
    let l1 = "{\"title\":\""@;
    let l2 = ",\"link\":\""@;
    let l3 = ",\"meeting\":\""@;
    let l4 = ",\"link_to_meeting\":["@;
    if !expect(s, l1) {
        None
    } else {
        match parse_string_body(s.skip(l1.len() as int)) {
            Some((title, n1)) => {
                let s2 = s.skip(l1.len() + n1);
                if n1 < 1 || l1.len() + n1 > s.len() || !expect(s2, l2) {
                    None
                } else {
                    match parse_string_body(s2.skip(l2.len() as int)) {
                        Some((link, n2)) => {
                            let s3 = s2.skip(l2.len() + n2);
                            if n2 < 1 || l2.len() + n2 > s2.len() || !expect(s3, l3) {
                                None
                            } else {
                                match parse_string_body(s3.skip(l3.len() as int)) {
                                    Some((meeting, n3)) => {
                                        let s4 = s3.skip(l3.len() + n3);
                                        if n3 < 1 || l3.len() + n3 > s3.len() || !expect(s4, l4) {
                                            None
                                        } else {
                                            match parse_items(s4.skip(l4.len() as int)) {
                                                Some((links, n4)) => {
                                                    let s5 = s4.skip(l4.len() + n4);
                                                    if n4 < 1 || l4.len() + n4 > s4.len() {
                                                        None
                                                    } else if s5 =~= seq!['}'] {
                                                        Some(
                                                            PaperDocView {
                                                                title,
                                                                link,
                                                                meeting,
                                                                link_to_meeting: links,
                                                            },
                                                        )
                                                    } else {
                                                        None
                                                    }
                                                },
                                                None => None,
                                            }
                                        }
                                    },
                                    None => None,
                                }
                            }
                        },
                        None => None,
                    }
                }
            },
            None => None,
        }
    }
}

fn hex_val_char(c: char) -> (r: i32)
    ensures
        r as int == hex_val(c),
{
    if c == '0' {
        0
    } else if c == '1' {
        1
    } else if c == '2' {
        2
    } else if c == '3' {
        3
    } else if c == '4' {
        4
    } else if c == '5' {
        5
    } else if c == '6' {
        6
    } else if c == '7' {
        7
    } else if c == '8' {
        8
    } else if c == '9' {
        9
    } else if c == 'A' {
        10
    } else if c == 'B' {
        11
    } else if c == 'C' {
        12
    } else if c == 'D' {
        13
    } else if c == 'E' {
        14
    } else if c == 'F' {
        15
    } else {
        -1
    }
}

/// Read a string body starting at `pos`, mirroring `parse_string_body`.
fn parse_body_exec(s: &Vec<char>, pos: usize) -> (r: Option<(Vec<char>, usize)>)
    requires
        pos <= s@.len(),
    ensures
        match r {
            Some(p) => parse_string_body(s@.skip(pos as int)) == Some((p.0@, p.1 as int)) && pos
                + p.1 <= s@.len(),
            None => parse_string_body(s@.skip(pos as int)) is None,
        },
    decreases s@.len() - pos,
{
    let n = s.len();
    let ghost t = s@.skip(pos as int);
    if pos == n {
        return None;
    }
    assert(t[0] == s@[pos as int]);
    let c = s[pos];
    if c == '"' {
        let v: Vec<char> = Vec::new();
        assert(v@ =~= Seq::<char>::empty());
        return Some((v, 1));
    }
    if c == '\\' {
        if n - pos < 2 {
            return None;
        }
        assert(t[1] == s@[pos + 1]);
        let e = s[pos + 1];
        if e == '"' || e == '\\' || e == 'n' || e == 'r' || e == 't' {
            let ch = if e == '"' {
                '"'
            } else if e == '\\' {
                '\\'
            } else if e == 'n' {
                '\n'
            } else if e == 'r' {
                '\r'
            } else {
                '\t'
            };
            assert(t.skip(2) =~= s@.skip(pos + 2));
            match parse_body_exec(s, pos + 2) {
                Some((rest, m)) => {
                    let mut v: Vec<char> = Vec::new();
                    v.push(ch);
                    strutil::push_chars(&mut v, &rest);
                    assert(v@ =~= seq![ch] + rest@);
                    return Some((v, 2 + m));
                },
                None => {
                    return None;
                },
            }
        } else if e == 'u' {
            if n - pos < 6 {
                assert(t.len() < 6);
                return None;
            }
            assert(t[2] == s@[pos + 2] && t[3] == s@[pos + 3] && t[4] == s@[pos + 4] && t[5]
                == s@[pos + 5]);
            if s[pos + 2] != '0' || s[pos + 3] != '0' {
                return None;
            }
            let h4 = hex_val_char(s[pos + 4]);
            let h5 = hex_val_char(s[pos + 5]);
            if h4 < 0 || h5 < 0 {
                return None;
            }
            let x = h4 * 16 + h5;
            if x < 32 && x != 9 && x != 10 && x != 13 {
                assert(t.skip(6) =~= s@.skip(pos + 6));
                match parse_body_exec(s, pos + 6) {
                    Some((rest, m)) => {
                        let ch = (x as u8) as char;
                        proof {
                            assert(ch as u32 == x as u32);
                            vstd::utf8::char_u32_cast(ch, x as u32);
                        }
                        let mut v: Vec<char> = Vec::new();
                        v.push(ch);
                        strutil::push_chars(&mut v, &rest);
                        assert(v@ =~= seq![(x as u32) as char] + rest@);
                        return Some((v, 6 + m));
                    },
                    None => {
                        return None;
                    },
                }
            } else {
                return None;
            }
        } else {
            return None;
        }
    }
    if (c as u32) < 32 {
        return None;
    }
    assert(t.skip(1) =~= s@.skip(pos + 1));
    match parse_body_exec(s, pos + 1) {
        Some((rest, m)) => {
            let mut v: Vec<char> = Vec::new();
            v.push(c);
            strutil::push_chars(&mut v, &rest);
            assert(v@ =~= seq![c] + rest@);
            Some((v, 1 + m))
        },
        None => None,
    }
}

/// Read a run of quoted strings up to the closing bracket, mirroring
/// `parse_item_list`.
fn parse_item_list_exec(s: &Vec<char>, pos: usize) -> (r: Option<(Vec<String>, usize)>)
    requires
        pos <= s@.len(),
    ensures
        match r {
            Some(p) => parse_item_list(s@.skip(pos as int)) == Some((p.0.deep_view(), p.1 as int))
                && pos + p.1 <= s@.len(),
            None => parse_item_list(s@.skip(pos as int)) is None,
        },
    decreases s@.len() - pos,
{
    let n = s.len();
    let ghost t = s@.skip(pos as int);
    if pos == n {
        return None;
    }
    assert(t[0] == s@[pos as int]);
    if s[pos] != '"' {
        return None;
    }
    assert(t.skip(1) =~= s@.skip(pos + 1));
    match parse_body_exec(s, pos + 1) {
        Some((v, nn)) => {
            if nn < 1 || pos + 1 + nn >= n {
                assert(1 + nn >= t.len() ==> parse_item_list(t) is None);
                return None;
            }
            assert(t[1 + nn] == s@[pos + 1 + nn]);
            let c = s[pos + 1 + nn];
            if c == ']' {
                let mut out: Vec<String> = Vec::new();
                out.push(strutil::string_of(&v));
                assert(out.deep_view() =~= seq![v@]);
                Some((out, nn + 2))
            } else if c == ',' {
                assert(t.skip(1 + nn + 1) =~= s@.skip(pos + 1 + nn + 1));
                match parse_item_list_exec(s, pos + 1 + nn + 1) {
                    Some((l, m)) => {
                        let ghost lv = l.deep_view();
                        let mut out: Vec<String> = Vec::new();
                        out.push(strutil::string_of(&v));
                        let mut rest = l;
                        out.append(&mut rest);
                        proof {
                            assert(out@.len() == 1 + lv.len());
                            assert(out.deep_view() =~= seq![v@] + lv);
                        }
                        Some((out, 1 + nn + 1 + m))
                    },
                    None => None,
                }
            } else {
                None
            }
        },
        None => None,
    }
}

/// Read a bracketed list tail, mirroring `parse_items`.
fn parse_items_exec(s: &Vec<char>, pos: usize) -> (r: Option<(Vec<String>, usize)>)
    requires
        pos <= s@.len(),
    ensures
        match r {
            Some(p) => parse_items(s@.skip(pos as int)) == Some((p.0.deep_view(), p.1 as int))
                && pos + p.1 <= s@.len(),
            None => parse_items(s@.skip(pos as int)) is None,
        },
{
    let ghost t = s@.skip(pos as int);
    if pos < s.len() {
        assert(t[0] == s@[pos as int]);
        if s[pos] == ']' {
            let out: Vec<String> = Vec::new();
            assert(out.deep_view() =~= Seq::<Seq<char>>::empty());
            return Some((out, 1));
        }
    }
    parse_item_list_exec(s, pos)
}

/// Check that the text at `pos` starts with the literal, as `expect` says
/// of the text from `pos` on.
fn expect_at(s: &Vec<char>, lit: &str, pos: usize) -> (r: bool)
    requires
        pos <= s@.len(),
    ensures
        r == expect(s@.skip(pos as int), lit@),
{
    let l = strutil::chars_of(lit);
    if s.len() - pos < l.len() {
        return false;
    }
    let r = strutil::matches_at(s, &l, pos);
    proof {
        assert(s@.skip(pos as int).subrange(0, lit@.len() as int) =~= s@.subrange(
            pos as int,
            pos + lit@.len(),
        ));
    }
    r
}

/// Read a paper back from its canonical text form. Returns the paper
/// exactly when the text is `paper_encoding` of it; anything else is
/// refused.
#[verifier::rlimit(100)]
pub fn decode_paper(text: &str) -> (r: Option<NewJournalClubPaper>)
    ensures
        match r {
            Some(p) => paper_decoding(text@) == Some(p@),
            None => paper_decoding(text@) is None,
        },
{
    let s = strutil::chars_of(text);
    let total = s.len();
    let ghost sv = text@;
    assert(s@.skip(0) =~= sv);
    if !expect_at(&s, "{\"title\":\"", 0) {
        return None;
    }
    let p1 = strutil::chars_of("{\"title\":\"").len();
    assert(p1 == "{\"title\":\""@.len()) by {
        reveal_strlit("{\"title\":\"");
    }
    let (title, n1) = match parse_body_exec(&s, p1) {
        Some(x) => x,
        None => {
            return None;
        },
    };
    if n1 < 1 {
        return None;
    }
    let p2 = p1 + n1;
    assert(s@.skip(p2 as int) =~= sv.skip("{\"title\":\""@.len() as int).skip(
        "{\"title\":\""@.len() + n1 - "{\"title\":\""@.len(),
    ));
    assert(sv.skip("{\"title\":\""@.len() + n1 as int) =~= s@.skip(p2 as int));
    if !expect_at(&s, ",\"link\":\"", p2) {
        return None;
    }
    let l2len = strutil::chars_of(",\"link\":\"").len();
    assert(l2len == ",\"link\":\""@.len()) by {
        reveal_strlit(",\"link\":\"");
    }
    assert(s@.skip(p2 + l2len) =~= s@.skip(p2 as int).skip(l2len as int));
    let (link, n2) = match parse_body_exec(&s, p2 + l2len) {
        Some(x) => x,
        None => {
            return None;
        },
    };
    if n2 < 1 {
        return None;
    }
    let p3 = p2 + l2len + n2;
    assert(s@.skip(p2 as int).skip(l2len + n2 as int) =~= s@.skip(p3 as int));
    if !expect_at(&s, ",\"meeting\":\"", p3) {
        return None;
    }
    let l3len = strutil::chars_of(",\"meeting\":\"").len();
    assert(l3len == ",\"meeting\":\""@.len()) by {
        reveal_strlit(",\"meeting\":\"");
    }
    assert(s@.skip(p3 + l3len) =~= s@.skip(p3 as int).skip(l3len as int));
    let (meeting, n3) = match parse_body_exec(&s, p3 + l3len) {
        Some(x) => x,
        None => {
            return None;
        },
    };
    if n3 < 1 {
        return None;
    }
    let p4 = p3 + l3len + n3;
    assert(s@.skip(p3 as int).skip(l3len + n3 as int) =~= s@.skip(p4 as int));
    if !expect_at(&s, ",\"link_to_meeting\":[", p4) {
        return None;
    }
    let l4len = strutil::chars_of(",\"link_to_meeting\":[").len();
    assert(l4len == ",\"link_to_meeting\":["@.len()) by {
        reveal_strlit(",\"link_to_meeting\":[");
    }
    assert(s@.skip(p4 + l4len) =~= s@.skip(p4 as int).skip(l4len as int));
    let (links, n4) = match parse_items_exec(&s, p4 + l4len) {
        Some(x) => x,
        None => {
            return None;
        },
    };
    if n4 < 1 {
        return None;
    }
    let p5 = p4 + l4len + n4;
    assert(s@.skip(p4 as int).skip(l4len + n4 as int) =~= s@.skip(p5 as int));
    if !(s.len() - p5 == 1) {
        assert(!(s@.skip(p5 as int) =~= seq!['}']));
        return None;
    }
    assert(s@.skip(p5 as int)[0] == s@[p5 as int]);
    if s[p5] != '}' {
        assert(!(s@.skip(p5 as int) =~= seq!['}']));
        return None;
    }
    assert(s@.skip(p5 as int) =~= seq!['}']);
    let p = NewJournalClubPaper {
        title: strutil::string_of(&title),
        link: strutil::string_of(&link),
        meeting: strutil::string_of(&meeting),
        link_to_meeting: links,
    };
    assert(paper_decoding(sv) == Some(p@)) by {
        assert(p@ =~~= PaperDocView {
            title: title@,
            link: link@,
            meeting: meeting@,
            link_to_meeting: p.link_to_meeting.deep_view(),
        });
    }
    Some(p)
}

/// Reading back what the escaping wrote yields the original body.
proof fn lemma_psb_escape(v: Seq<char>, rest: Seq<char>)
    ensures
        parse_string_body(escaped(v) + seq!['"'] + rest) == Some((v, escaped(v).len() as int + 1)),
    decreases v.len(),
{
    broadcast use vstd::utf8::char_u32_cast;

    let s = escaped(v) + seq!['"'] + rest;
    if v.len() == 0 {
        assert(escaped(v) == Seq::<char>::empty());
        assert(s[0] == '"');
        assert(parse_string_body(s) == Some((Seq::<char>::empty(), 1int)));
        assert(Seq::<char>::empty() =~= v);
    } else {
        let c = v[0];
        let ec = escaped_char(c);
        let tail = escaped(v.skip(1)) + seq!['"'] + rest;
        assert(escaped(v) == ec + escaped(v.skip(1)));
        assert(s =~= ec + tail);
        lemma_psb_escape(v.skip(1), rest);
        assert(forall|t: int| 0 <= t < ec.len() ==> s[t] == ec[t]);
        assert(s.skip(ec.len() as int) =~= tail);
        if c == '"' || c == '\\' || c == '\n' || c == '\r' || c == '\t' {
            assert(s[0] == '\\');
            assert(s.skip(2) =~= tail);
            assert(seq![c] + v.skip(1) =~= v);
        } else if (c as u32) < 32 {
            assert(s[0] == '\\' && s[1] == 'u' && s[2] == '0' && s[3] == '0');
            let cu = c as u32 as int;
            assert(hex_val(hex_digit(cu / 16)) == cu / 16 && hex_val(hex_digit(cu % 16)) == cu
                % 16);
            assert(hex_val(s[4]) * 16 + hex_val(s[5]) == cu);
            assert(s.skip(6) =~= tail);
            vstd::utf8::char_u32_cast(c, cu as u32);
            assert((cu as u32) as char == c);
            assert(seq![c] + v.skip(1) =~= v);
        } else {
            assert(ec == seq![c]);
            assert(s[0] == c);
            assert(s[0] != '"' && s[0] != '\\' && !((s[0] as u32) < 32));
            assert(s.skip(1) =~= tail);
            assert(seq![c] + v.skip(1) =~= v);
        }
    }
}

/// Reading back what the list encoding wrote yields the original items.
proof fn lemma_items_escape(l: Seq<Seq<char>>, rest: Seq<char>)
    requires
        rest.len() > 0,
        rest[0] != ']',
        rest[0] != ',',
    ensures
        parse_items(list_encoding(l) + seq![']'] + rest) == Some((l, list_encoding(l).len() as int + 1)),
    decreases l.len(),
{
    let s = list_encoding(l) + seq![']'] + rest;
    if l.len() == 0 {
        assert(s[0] == ']');
        assert(Seq::<Seq<char>>::empty() =~= l);
    } else {
        // the head item, then either the bracket or a comma and the tail
        let q = quoted(l[0]);
        assert(s[0] == '"');
        if l.len() == 1 {
            assert(list_encoding(l) == q);
            assert(s.skip(1) =~= escaped(l[0]) + seq!['"'] + (seq![']'] + rest));
            lemma_psb_escape(l[0], seq![']'] + rest);
            let n: int = escaped(l[0]).len() as int + 1;
            assert(s[1 + n] == ']');
            assert(seq![l[0]] =~= l);
            assert(parse_item_list(s) == Some((l, 1 + n + 1)));
        } else {
            assert(list_encoding(l) == q + seq![','] + list_encoding(l.skip(1)));
            let after = seq![','] + list_encoding(l.skip(1)) + seq![']'] + rest;
            assert(s.skip(1) =~= escaped(l[0]) + seq!['"'] + (seq![','] + (list_encoding(l.skip(1))
                + seq![']'] + rest)));
            lemma_psb_escape(l[0], seq![','] + (list_encoding(l.skip(1)) + seq![']'] + rest));
            let n: int = escaped(l[0]).len() as int + 1;
            assert(s[1 + n] == ',');
            assert(s.skip(1 + n + 1) =~= list_encoding(l.skip(1)) + seq![']'] + rest);
            lemma_items_escape(l.skip(1), rest);
            assert(list_encoding(l.skip(1)).len() > 0 ==> s.skip(1 + n + 1)[0] != ']') by {
                if l.skip(1).len() > 0 {
                    assert(list_encoding(l.skip(1))[0] == '"');
                }
            }
            assert(parse_items(s.skip(1 + n + 1)) == Some(
                (l.skip(1), list_encoding(l.skip(1)).len() as int + 1),
            ));
            assert(s.skip(1 + n + 1)[0] == '"');
            assert(parse_item_list(s.skip(1 + n + 1)) == Some(
                (l.skip(1), list_encoding(l.skip(1)).len() as int + 1),
            ));
            assert(seq![l[0]] + l.skip(1) =~= l);
            assert(parse_item_list(s) == Some((l, list_encoding(l).len() as int + 1)));
        }
    }
}

/// What the string parser consumes is exactly the escaping of what it
/// read, closing quote included.
proof fn lemma_psb_sound(s: Seq<char>)
    ensures
        match parse_string_body(s) {
            Some(r) => 1 <= r.1 <= s.len() && s.subrange(0, r.1) == escaped(r.0) + seq!['"'],
            None => true,
        },
    decreases s.len(),
{
    if s.len() == 0 {
    } else if s[0] == '"' {
        assert(s.subrange(0, 1) =~= escaped(Seq::<char>::empty()) + seq!['"']);
    } else if s[0] == '\\' {
        if s.len() < 2 {
        } else if s[1] == '"' || s[1] == '\\' || s[1] == 'n' || s[1] == 'r' || s[1] == 't' {
            let c = if s[1] == '"' {
                '"'
            } else if s[1] == '\\' {
                '\\'
            } else if s[1] == 'n' {
                '\n'
            } else if s[1] == 'r' {
                '\r'
            } else {
                '\t'
            };
            lemma_psb_sound(s.skip(2));
            match parse_string_body(s.skip(2)) {
                Some((v, n)) => {
                    let w = seq![c] + v;
                    assert(w[0] == c && w.skip(1) =~= v);
                    assert(escaped(w) == escaped_char(c) + escaped(v));
                    assert(escaped_char(c) =~= seq![s[0], s[1]]);
                    assert(s.subrange(0, n + 2) =~= s.subrange(0, 2) + s.skip(2).subrange(0, n));
                    assert(s.subrange(0, 2) =~= seq![s[0], s[1]]);
                    assert(s.subrange(0, n + 2) =~= escaped(w) + seq!['"']);
                },
                None => {},
            }
        } else if s[1] == 'u' {
            if s.len() < 6 || s[2] != '0' || s[3] != '0' || hex_val(s[4]) < 0 || hex_val(s[5])
                < 0 {
            } else {
                let x = hex_val(s[4]) * 16 + hex_val(s[5]);
                if x < 32 && x != 9 && x != 10 && x != 13 {
                    let c = (x as u32) as char;
                    assert(c as u32 == x);
                    lemma_psb_sound(s.skip(6));
                    match parse_string_body(s.skip(6)) {
                        Some((v, n)) => {
                            let w = seq![c] + v;
                            assert(w[0] == c && w.skip(1) =~= v);
                            assert(escaped(w) == escaped_char(c) + escaped(v));
                            // the character the parser built escapes back to
                            // exactly the six characters it consumed
                            assert(hex_val(s[4]) < 16 && hex_val(s[5]) < 16);
                            assert(x / 16 == hex_val(s[4]) && x % 16 == hex_val(s[5]));
                            assert(hex_digit(hex_val(s[4])) == s[4]);
                            assert(hex_digit(hex_val(s[5])) == s[5]);
                            assert(c != '"' && c != '\\' && c != '\n' && c != '\r' && c != '\t');
                            assert(escaped_char(c) =~= seq![s[0], s[1], s[2], s[3], s[4], s[5]]);
                            assert(s.subrange(0, n + 6) =~= s.subrange(0, 6) + s.skip(6).subrange(
                                0,
                                n,
                            ));
                            assert(s.subrange(0, 6) =~= seq![s[0], s[1], s[2], s[3], s[4], s[5]]);
                            assert(s.subrange(0, n + 6) =~= escaped(w) + seq!['"']);
                        },
                        None => {},
                    }
                }
            }
        }
    } else if (s[0] as u32) < 32 {
    } else {
        lemma_psb_sound(s.skip(1));
        match parse_string_body(s.skip(1)) {
            Some((v, n)) => {
                let w = seq![s[0]] + v;
                assert(w[0] == s[0] && w.skip(1) =~= v);
                assert(escaped(w) == escaped_char(s[0]) + escaped(v));
                assert(escaped_char(s[0]) =~= seq![s[0]]);
                assert(s.subrange(0, n + 1) =~= s.subrange(0, 1) + s.skip(1).subrange(0, n));
                assert(s.subrange(0, 1) =~= seq![s[0]]);
                assert(s.subrange(0, n + 1) =~= escaped(w) + seq!['"']);
            },
            None => {},
        }
    }
}

/// What the list parser consumes is exactly the encoding of the items it
/// read, closing bracket included.
proof fn lemma_items_sound(s: Seq<char>)
    ensures
        match parse_items(s) {
            Some(r) => 1 <= r.1 <= s.len() && s.subrange(0, r.1) == list_encoding(r.0)
                + seq![']'],
            None => true,
        },
    decreases s.len(),
{
    if s.len() > 0 && s[0] == ']' {
        assert(s.subrange(0, 1) =~= list_encoding(Seq::<Seq<char>>::empty()) + seq![']']);
    } else {
        lemma_item_list_sound(s);
    }
}

proof fn lemma_item_list_sound(s: Seq<char>)
    ensures
        match parse_item_list(s) {
            Some(r) => 1 <= r.1 <= s.len() && s.subrange(0, r.1) == list_encoding(r.0)
                + seq![']'] && r.0.len() >= 1,
            None => true,
        },
    decreases s.len(),
{
    if s.len() == 0 || s[0] != '"' {
    } else {
        lemma_psb_sound(s.skip(1));
        match parse_string_body(s.skip(1)) {
            Some((v, n)) => {
                if n < 1 || 1 + n >= s.len() {
                } else {
                    assert(s.skip(1).subrange(0, n) == escaped(v) + seq!['"']);
                    assert(s.subrange(0, 1 + n) =~= seq![s[0]] + s.skip(1).subrange(0, n));
                    assert(s.subrange(0, 1 + n) =~= quoted(v));
                    if s[1 + n] == ']' {
                        let l = seq![v];
                        assert(list_encoding(l) == quoted(l[0]));
                        assert(l[0] == v);
                        assert(s.subrange(0, 1 + n + 1) =~= s.subrange(0, 1 + n) + seq![s[1 + n]]);
                        assert(s.subrange(0, 1 + n + 1) =~= list_encoding(l) + seq![']']);
                    } else if s[1 + n] == ',' {
                        lemma_item_list_sound(s.skip(1 + n + 1));
                        match parse_item_list(s.skip(1 + n + 1)) {
                            Some((l2, m)) => {
                                let l = seq![v] + l2;
                                assert(l[0] == v && l.skip(1) =~= l2);
                                assert(l.len() >= 2);
                                assert(list_encoding(l) == quoted(v) + seq![','] + list_encoding(
                                    l2,
                                ));
                                assert(s.subrange(0, 1 + n + 1 + m) =~= s.subrange(0, 1 + n)
                                    + seq![s[1 + n]] + s.skip(1 + n + 1).subrange(0, m));
                                assert(s.subrange(0, 1 + n + 1 + m) =~= list_encoding(l)
                                    + seq![']']);
                            },
                            None => {},
                        }
                    }
                }
            },
            None => {},
        }
    }
}

/// Whatever the decoder accepts was the canonical text form of the paper
/// it returns: together with the round trip below, the decoder accepts
/// exactly the encoder's output.
#[verifier::rlimit(100)]
#[verifier::spinoff_prover]
pub proof fn lemma_paper_decoding_sound(s: Seq<char>)
    ensures
        paper_decoding(s) is Some ==> s == paper_encoding(paper_decoding(s).unwrap()),
{
    reveal_strlit("{\"title\":\"");
    reveal_strlit("{\"title\":");
    reveal_strlit(",\"link\":\"");
    reveal_strlit(",\"link\":");
    reveal_strlit(",\"meeting\":\"");
    reveal_strlit(",\"meeting\":");
    reveal_strlit(",\"link_to_meeting\":[");
    reveal_strlit("]}");
    let l1 = "{\"title\":\""@;
    let l2 = ",\"link\":\""@;
    let l3 = ",\"meeting\":\""@;
    let l4 = ",\"link_to_meeting\":["@;
    if paper_decoding(s) is Some {
        let p = paper_decoding(s).unwrap();
        lemma_psb_sound(s.skip(l1.len() as int));
        let (title, n1) = parse_string_body(s.skip(l1.len() as int)).unwrap();
        let s2 = s.skip(l1.len() + n1);
        lemma_psb_sound(s2.skip(l2.len() as int));
        let (link, n2) = parse_string_body(s2.skip(l2.len() as int)).unwrap();
        let s3 = s2.skip(l2.len() + n2);
        lemma_psb_sound(s3.skip(l3.len() as int));
        let (meeting, n3) = parse_string_body(s3.skip(l3.len() as int)).unwrap();
        let s4 = s3.skip(l3.len() + n3);
        lemma_items_sound(s4.skip(l4.len() as int));
        let (links, n4) = parse_items(s4.skip(l4.len() as int)).unwrap();
        let s5 = s4.skip(l4.len() + n4);
        assert(p == PaperDocView { title, link, meeting, link_to_meeting: links });
        // stitch the consumed segments back together
        assert(s.subrange(0, l1.len() as int) == l1);
        assert(s.skip(l1.len() as int).subrange(0, n1) == escaped(title) + seq!['"']);
        assert(s2.subrange(0, l2.len() as int) == l2);
        assert(s2.skip(l2.len() as int).subrange(0, n2) == escaped(link) + seq!['"']);
        assert(s3.subrange(0, l3.len() as int) == l3);
        assert(s3.skip(l3.len() as int).subrange(0, n3) == escaped(meeting) + seq!['"']);
        assert(s4.subrange(0, l4.len() as int) == l4);
        assert(s4.skip(l4.len() as int).subrange(0, n4) == list_encoding(links) + seq![']']);
        assert(s5 =~= seq!['}']);
        // each level of the text splits into its literal, the parsed
        // segment, and the rest
        assert(s4 =~= s4.subrange(0, l4.len() as int) + (s4.skip(l4.len() as int).subrange(0, n4)
            + s4.skip(l4.len() as int).skip(n4)));
        assert(s4.skip(l4.len() as int).skip(n4) =~= s5);
        let t4 = l4 + (list_encoding(links) + seq![']']) + seq!['}'];
        assert(s4 =~= t4);
        assert(s3 =~= s3.subrange(0, l3.len() as int) + (s3.skip(l3.len() as int).subrange(0, n3)
            + s3.skip(l3.len() as int).skip(n3)));
        assert(s3.skip(l3.len() as int).skip(n3) =~= s4);
        let t3 = l3 + (escaped(meeting) + seq!['"']) + t4;
        assert(s3 =~= t3);
        assert(s2 =~= s2.subrange(0, l2.len() as int) + (s2.skip(l2.len() as int).subrange(0, n2)
            + s2.skip(l2.len() as int).skip(n2)));
        assert(s2.skip(l2.len() as int).skip(n2) =~= s3);
        let t2 = l2 + (escaped(link) + seq!['"']) + t3;
        assert(s2 =~= t2);
        assert(s =~= s.subrange(0, l1.len() as int) + (s.skip(l1.len() as int).subrange(0, n1)
            + s.skip(l1.len() as int).skip(n1)));
        assert(s.skip(l1.len() as int).skip(n1) =~= s2);
        let t1 = l1 + (escaped(title) + seq!['"']) + t2;
        assert(s =~= t1);
        // and the nested form is the flat canonical encoding
        assert(l1 =~= "{\"title\":"@ + seq!['"']);
        assert(l2 =~= ",\"link\":"@ + seq!['"']);
        assert(l3 =~= ",\"meeting\":"@ + seq!['"']);
        assert(t1 =~= paper_encoding(p));
        assert(s =~= paper_encoding(p));
    }
}

/// The round trip: decoding a paper's canonical text form yields the
/// paper back, exactly.
#[verifier::rlimit(100)]
#[verifier::spinoff_prover]
pub proof fn lemma_paper_round_trip(p: PaperDocView)
    ensures
        paper_decoding(paper_encoding(p)) == Some(p),
{
    let s = paper_encoding(p);
    let l1 = "{\"title\":\""@;
    let l2 = ",\"link\":\""@;
    let l3 = ",\"meeting\":\""@;
    let l4 = ",\"link_to_meeting\":["@;
    reveal_strlit("{\"title\":\"");
    reveal_strlit("{\"title\":");
    reveal_strlit(",\"link\":\"");
    reveal_strlit(",\"link\":");
    reveal_strlit(",\"meeting\":\"");
    reveal_strlit(",\"meeting\":");
    reveal_strlit(",\"link_to_meeting\":[");
    reveal_strlit("]}");
    let rest1 = l2 + escaped(p.link) + seq!['"'] + (l3 + escaped(p.meeting) + seq!['"'] + (l4
        + list_encoding(p.link_to_meeting) + seq![']'] + seq!['}']));
    assert(s =~= l1 + (escaped(p.title) + seq!['"'] + rest1));
    // walk the fields one after the other
    assert(expect(s, l1)) by {
        assert(s.subrange(0, l1.len() as int) =~= l1);
    }
    assert(s.skip(l1.len() as int) =~= escaped(p.title) + seq!['"'] + rest1);
    lemma_psb_escape(p.title, rest1);
    let n1: int = escaped(p.title).len() as int + 1;
    let s2 = s.skip(l1.len() + n1);
    assert(s2 =~= rest1);
    assert(expect(s2, l2)) by {
        assert(s2.subrange(0, l2.len() as int) =~= l2);
    }
    let rest2 = l3 + escaped(p.meeting) + seq!['"'] + (l4 + list_encoding(p.link_to_meeting)
        + seq![']'] + seq!['}']);
    assert(s2.skip(l2.len() as int) =~= escaped(p.link) + seq!['"'] + rest2);
    lemma_psb_escape(p.link, rest2);
    let n2: int = escaped(p.link).len() as int + 1;
    let s3 = s2.skip(l2.len() + n2);
    assert(s3 =~= rest2);
    assert(expect(s3, l3)) by {
        assert(s3.subrange(0, l3.len() as int) =~= l3);
    }
    let rest3 = l4 + list_encoding(p.link_to_meeting) + seq![']'] + seq!['}'];
    assert(s3.skip(l3.len() as int) =~= escaped(p.meeting) + seq!['"'] + rest3);
    lemma_psb_escape(p.meeting, rest3);
    let n3: int = escaped(p.meeting).len() as int + 1;
    let s4 = s3.skip(l3.len() + n3);
    assert(s4 =~= rest3);
    assert(expect(s4, l4)) by {
        assert(s4.subrange(0, l4.len() as int) =~= l4);
    }
    assert(s4.skip(l4.len() as int) =~= list_encoding(p.link_to_meeting) + seq![']'] + seq!['}']);
    lemma_items_escape(p.link_to_meeting, seq!['}']);
    let n4: int = list_encoding(p.link_to_meeting).len() as int + 1;
    let s5 = s4.skip(l4.len() + n4);
    assert(s5 =~= seq!['}']);
    assert(paper_decoding(s) == Some(
        PaperDocView {
            title: p.title,
            link: p.link,
            meeting: p.meeting,
            link_to_meeting: p.link_to_meeting,
        },
    ));
    assert(PaperDocView {
        title: p.title,
        link: p.link,
        meeting: p.meeting,
        link_to_meeting: p.link_to_meeting,
    } =~~= p);
}

} // verus!
