//! Applicants: the row parsed from the application spreadsheet, the
//! business rules that normalize its fields, and the notification texts
//! built from it.

use vstd::prelude::*;
use std::str::FromStr;
use crate::strutil;

verus! {

/// The canonical status for a raw status cell, chosen by substring over
/// the trimmed, lower-cased text.
pub open spec fn status_of(s: Seq<char>) -> Seq<char> {
    let t = strutil::lower_seq(strutil::trim_spec(s));
    if strutil::contains_seq(t, "next steps"@) {
        "Next steps"@
    } else if strutil::contains_seq(t, "deferred"@) {
        "Deferred"@
    } else if strutil::contains_seq(t, "declined"@) {
        "Declined"@
    } else if strutil::contains_seq(t, "hired"@) {
        "Hired"@
    } else if strutil::contains_seq(t, "contractor"@) || strutil::contains_seq(t, "consulting"@) {
        "Consulting"@
    } else if strutil::contains_seq(t, "keeping warm"@) {
        "Keeping warm"@
    } else {
        "Needs to be triaged"@
    }
}

/// Normalize a raw status cell.
pub fn normalize_status(raw: &String) -> (r: String)
    ensures
        r@ == status_of(raw@),
{
    let cs = strutil::chars_of(raw.as_str());
    let t = strutil::trim(&cs);
    let low = strutil::to_lower(&t);
    if strutil::contains_str(&low, "next steps") {
        "Next steps".to_owned()
    } else if strutil::contains_str(&low, "deferred") {
        "Deferred".to_owned()
    } else if strutil::contains_str(&low, "declined") {
        "Declined".to_owned()
    } else if strutil::contains_str(&low, "hired") {
        "Hired".to_owned()
    } else if strutil::contains_str(&low, "contractor") || strutil::contains_str(
        &low,
        "consulting",
    ) {
        "Consulting".to_owned()
    } else if strutil::contains_str(&low, "keeping warm") {
        "Keeping warm".to_owned()
    } else {
        "Needs to be triaged".to_owned()
    }
}

/// The cleaned code-hosting handle behind a raw cell: trimmed,
/// lower-cased, with the site prefixes, a leading `@` and trailing
/// slashes stripped, and a fresh `@` put in front.
pub open spec fn github_handle_of(raw: Seq<char>) -> Seq<char> {
    let t = strutil::lower_seq(strutil::trim_spec(raw));
    let a = strutil::strip_prefix_all_spec(t, "https://github.com/"@);
    let b = strutil::strip_prefix_all_spec(a, "http://github.com/"@);
    let c = strutil::strip_prefix_all_spec(b, "https://www.github.com/"@);
    let d = strutil::strip_prefix_all_spec(c, "@"@);
    let e = strutil::strip_suffix_all_spec(d, "/"@);
    "@"@ + e
}

/// The cleaned handle when the cell held a gitlab address instead.
pub open spec fn gitlab_handle_of(raw: Seq<char>) -> Seq<char> {
    let t = strutil::lower_seq(strutil::trim_spec(raw));
    let a = strutil::strip_prefix_all_spec(t, "https://gitlab.com/"@);
    let b = strutil::strip_prefix_all_spec(a, "@"@);
    let c = strutil::strip_suffix_all_spec(b, "/"@);
    "@"@ + c
}

/// The pair of handles parsed from the code-hosting cell: an empty cell
/// gives none; a gitlab address in the cell fills the gitlab handle
/// instead of the github one.
pub open spec fn handles_of(raw: Seq<char>) -> (Seq<char>, Seq<char>) {
    if strutil::trim_spec(raw).len() == 0 {
        (Seq::<char>::empty(), Seq::<char>::empty())
    } else {
        let g = github_handle_of(raw);
        if strutil::contains_seq(g, "https://gitlab.com"@) {
            (Seq::<char>::empty(), gitlab_handle_of(raw))
        } else {
            (g, Seq::<char>::empty())
        }
    }
}

fn strip_prefix_all_str(s: &Vec<char>, p: &str) -> (r: Vec<char>)
    ensures
        r@ == strutil::strip_prefix_all_spec(s@, p@),
{
    let pv = strutil::chars_of(p);
    strutil::strip_prefix_all(s, &pv)
}

/// Parse the code-hosting cell into `(github, gitlab)` handles.
pub fn parse_handles(raw: &String) -> (r: (String, String))
    ensures
        r.0@ == handles_of(raw@).0,
        r.1@ == handles_of(raw@).1,
{
    let cs = strutil::chars_of(raw.as_str());
    let t = strutil::trim(&cs);
    if t.len() == 0 {
        return (String::new(), String::new());
    }
    let low = strutil::to_lower(&t);
    let a = strip_prefix_all_str(&low, "https://github.com/");
    let b = strip_prefix_all_str(&a, "http://github.com/");
    let c = strip_prefix_all_str(&b, "https://www.github.com/");
    let d = strip_prefix_all_str(&c, "@");
    let slash = strutil::chars_of("/");
    let e = strutil::strip_suffix_all(&d, &slash);
    let mut g: Vec<char> = Vec::new();
    strutil::push_str(&mut g, "@");
    strutil::push_chars(&mut g, &e);
    assert(g@ =~= github_handle_of(raw@));
    if strutil::contains_str(&g, "https://gitlab.com") {
        let a2 = strip_prefix_all_str(&low, "https://gitlab.com/");
        let b2 = strip_prefix_all_str(&a2, "@");
        let c2 = strutil::strip_suffix_all(&b2, &slash);
        let mut gl: Vec<char> = Vec::new();
        strutil::push_str(&mut gl, "@");
        strutil::push_chars(&mut gl, &c2);
        assert(gl@ =~= gitlab_handle_of(raw@));
        (String::new(), strutil::string_of(&gl))
    } else {
        (strutil::string_of(&g), String::new())
    }
}

/// The digits kept of a raw phone cell: trimmed, with spaces, dashes,
/// plus signs and parentheses struck out.
pub open spec fn phone_digits_of(raw: Seq<char>) -> Seq<char> {
    let t = strutil::trim_spec(raw);
    let a = strutil::replace_spec(t, " "@, Seq::<char>::empty());
    let b = strutil::replace_spec(a, "-"@, Seq::<char>::empty());
    let c = strutil::replace_spec(b, "+"@, Seq::<char>::empty());
    let d = strutil::replace_spec(c, "("@, Seq::<char>::empty());
    strutil::replace_spec(d, ")"@, Seq::<char>::empty())
}

fn replace_with_empty(s: &Vec<char>, p: &str) -> (r: Vec<char>)
    ensures
        r@ == strutil::replace_spec(s@, p@, Seq::<char>::empty()),
{
    let pv = strutil::chars_of(p);
    let empty: Vec<char> = Vec::new();
    assert(empty@ =~= Seq::<char>::empty());
    strutil::replace(s, &pv, &empty)
}

/// Strip a raw phone cell down to its digits.
pub fn clean_phone_digits(raw: &String) -> (r: Vec<char>)
    ensures
        r@ == phone_digits_of(raw@),
{
    let cs = strutil::chars_of(raw.as_str());
    let t = strutil::trim(&cs);
    let a = replace_with_empty(&t, " ");
    let b = replace_with_empty(&a, "-");
    let c = replace_with_empty(&b, "+");
    let d = replace_with_empty(&c, "(");
    replace_with_empty(&d, ")")
}

/// The country guessed for an applicant: substring matches on the
/// lower-cased location, some backed by a check of the phone's leading
/// digits; the home country is the fallback.
pub open spec fn country_of(loc: Seq<char>, phone: Seq<char>) -> Seq<char> {
    let l = strutil::lower_seq(loc);
    let starts = |p: Seq<char>| p.len() <= phone.len() && phone.subrange(0, p.len() as int) == p;
    if (strutil::contains_seq(l, "uk"@) || strutil::contains_seq(l, "london"@)
        || strutil::contains_seq(l, "ipswich"@) || strutil::contains_seq(l, "united kingdom"@)
        || strutil::contains_seq(l, "england"@)) && starts("44"@) {
        "GB"@
    } else if (strutil::contains_seq(l, "czech republic"@) || strutil::contains_seq(l, "prague"@))
        && starts("420"@) {
        "CZ"@
    } else if strutil::contains_seq(l, "turkey"@) && starts("90"@) {
        "TR"@
    } else if strutil::contains_seq(l, "sweden"@) && starts("46"@) {
        "SE"@
    } else if (strutil::contains_seq(l, "mumbai"@) || strutil::contains_seq(l, "india"@)
        || strutil::contains_seq(l, "bangalore"@)) && starts("91"@) {
        "IN"@
    } else if strutil::contains_seq(l, "brazil"@) {
        "BR"@
    } else if strutil::contains_seq(l, "belgium"@) {
        "BE"@
    } else if strutil::contains_seq(l, "romania"@) && starts("40"@) {
        "RO"@
    } else if strutil::contains_seq(l, "nigeria"@) {
        "NG"@
    } else if strutil::contains_seq(l, "austria"@) {
        "AT"@
    } else if strutil::contains_seq(l, "australia"@) && starts("61"@) {
        "AU"@
    } else if strutil::contains_seq(l, "sri lanka"@) && starts("94"@) {
        "LK"@
    } else if strutil::contains_seq(l, "slovenia"@) && starts("386"@) {
        "SI"@
    } else if strutil::contains_seq(l, "france"@) && starts("33"@) {
        "FR"@
    } else if strutil::contains_seq(l, "netherlands"@) && starts("31"@) {
        "NL"@
    } else if strutil::contains_seq(l, "taiwan"@) {
        "TW"@
    } else if strutil::contains_seq(l, "new zealand"@) {
        "NZ"@
    } else if strutil::contains_seq(l, "maragno"@) || strutil::contains_seq(l, "italy"@) {
        "IT"@
    } else if strutil::contains_seq(l, "nairobi"@) || strutil::contains_seq(l, "kenya"@) {
        "KE"@
    } else if strutil::contains_seq(l, "dubai"@) {
        "AE"@
    } else if strutil::contains_seq(l, "poland"@) {
        "PL"@
    } else if strutil::contains_seq(l, "portugal"@) {
        "PT"@
    } else if strutil::contains_seq(l, "berlin"@) || strutil::contains_seq(l, "germany"@) {
        "DE"@
    } else if strutil::contains_seq(l, "benin"@) && starts("229"@) {
        "BJ"@
    } else if strutil::contains_seq(l, "israel"@) {
        "IL"@
    } else if strutil::contains_seq(l, "spain"@) {
        "ES"@
    } else {
        "US"@
    }
}

fn phone_starts(phone: &Vec<char>, p: &str) -> (r: bool)
    ensures
        r == (p@.len() <= phone@.len() && phone@.subrange(0, p@.len() as int) == p@),
{
    let pv = strutil::chars_of(p);
    strutil::starts_with(phone, &pv)
}

/// Guess the country for a location and a cleaned phone number.
pub fn guess_country(location: &String, phone: &Vec<char>) -> (r: String)
    ensures
        r@ == country_of(location@, phone@),
{
    let cs = strutil::chars_of(location.as_str());
    let l = strutil::to_lower(&cs);
    if (strutil::contains_str(&l, "uk") || strutil::contains_str(&l, "london")
        || strutil::contains_str(&l, "ipswich") || strutil::contains_str(&l, "united kingdom")
        || strutil::contains_str(&l, "england")) && phone_starts(phone, "44") {
        "GB".to_owned()
    } else if (strutil::contains_str(&l, "czech republic") || strutil::contains_str(&l, "prague"))
        && phone_starts(phone, "420") {
        "CZ".to_owned()
    } else if strutil::contains_str(&l, "turkey") && phone_starts(phone, "90") {
        "TR".to_owned()
    } else if strutil::contains_str(&l, "sweden") && phone_starts(phone, "46") {
        "SE".to_owned()
    } else if (strutil::contains_str(&l, "mumbai") || strutil::contains_str(&l, "india")
        || strutil::contains_str(&l, "bangalore")) && phone_starts(phone, "91") {
        "IN".to_owned()
    } else if strutil::contains_str(&l, "brazil") {
        "BR".to_owned()
    } else if strutil::contains_str(&l, "belgium") {
        "BE".to_owned()
    } else if strutil::contains_str(&l, "romania") && phone_starts(phone, "40") {
        "RO".to_owned()
    } else if strutil::contains_str(&l, "nigeria") {
        "NG".to_owned()
    } else if strutil::contains_str(&l, "austria") {
        "AT".to_owned()
    } else if strutil::contains_str(&l, "australia") && phone_starts(phone, "61") {
        "AU".to_owned()
    } else if strutil::contains_str(&l, "sri lanka") && phone_starts(phone, "94") {
        "LK".to_owned()
    } else if strutil::contains_str(&l, "slovenia") && phone_starts(phone, "386") {
        "SI".to_owned()
    } else if strutil::contains_str(&l, "france") && phone_starts(phone, "33") {
        "FR".to_owned()
    } else if strutil::contains_str(&l, "netherlands") && phone_starts(phone, "31") {
        "NL".to_owned()
    } else if strutil::contains_str(&l, "taiwan") {
        "TW".to_owned()
    } else if strutil::contains_str(&l, "new zealand") {
        "NZ".to_owned()
    } else if strutil::contains_str(&l, "maragno") || strutil::contains_str(&l, "italy") {
        "IT".to_owned()
    } else if strutil::contains_str(&l, "nairobi") || strutil::contains_str(&l, "kenya") {
        "KE".to_owned()
    } else if strutil::contains_str(&l, "dubai") {
        "AE".to_owned()
    } else if strutil::contains_str(&l, "poland") {
        "PL".to_owned()
    } else if strutil::contains_str(&l, "portugal") {
        "PT".to_owned()
    } else if strutil::contains_str(&l, "berlin") || strutil::contains_str(&l, "germany") {
        "DE".to_owned()
    } else if strutil::contains_str(&l, "benin") && phone_starts(phone, "229") {
        "BJ".to_owned()
    } else if strutil::contains_str(&l, "israel") {
        "IL".to_owned()
    } else if strutil::contains_str(&l, "spain") {
        "ES".to_owned()
    } else {
        "US".to_owned()
    }
}

/// What the phone library formats a number to, internationally: a
/// function of the country and the digits alone, or nothing when the
/// digits do not parse as a number of that country.
pub uninterp spec fn phone_intl_of(country: Seq<char>, digits: Seq<char>) -> Option<Seq<char>>;

/// Relies on the phonenumber crate: country::Id::from_str on the
/// upper-case country code, parse with that country as the hint, and the
/// international rendering of the parsed number. The result depends on
/// the two arguments alone.
#[verifier::external_body]
fn format_phone(country: &str, digits: &str) -> (r: Option<String>)
    ensures
        match r {
            Some(f) => phone_intl_of(country@, digits@) == Some(f@),
            None => phone_intl_of(country@, digits@) is None,
        },
{
    let id = phonenumber::country::Id::from_str(country).ok()?;
    let number = phonenumber::parse(Some(id), digits).ok()?;
    Some(format!("{}", number.format().mode(phonenumber::Mode::International)))
}

/// The phone text stored for an applicant: the international rendering
/// when the digits parse for the guessed country, the bare digits
/// otherwise (an unparsable number passes through, it does not block the
/// row).
pub open spec fn phone_text_of(location: Seq<char>, raw: Seq<char>) -> Seq<char> {
    let digits = phone_digits_of(raw);
    match phone_intl_of(country_of(location, digits), digits) {
        Some(f) => f,
        None => digits,
    }
}

/// The stored country code: the guessed country, lower-cased.
pub open spec fn country_code_of(location: Seq<char>, raw: Seq<char>) -> Seq<char> {
    strutil::lower_seq(country_of(location, phone_digits_of(raw)))
}

/// Normalize a raw phone cell against the location: the cleaned, possibly
/// internationally formatted number, and the stored country code.
pub fn normalize_phone(location: &String, raw: &String) -> (r: (String, String))
    ensures
        r.0@ == phone_text_of(location@, raw@),
        r.1@ == country_code_of(location@, raw@),
{
    let digits = clean_phone_digits(raw);
    let country = guess_country(location, &digits);
    let ccs = strutil::chars_of(country.as_str());
    let low = strutil::to_lower(&ccs);
    let code = strutil::string_of(&low);
    let digits_s = strutil::string_of(&digits);
    let phone = match format_phone(country.as_str(), digits_s.as_str()) {
        Some(f) => f,
        None => digits_s,
    };
    (phone, code)
}

/// The letters of the spreadsheet columns.
pub open spec fn column_letters() -> Seq<char> {
    "ABCDEFGHIJKLMNOPQRSTUVWXYZ"@
}

/// The cell reference for a column index and a zero-based row index:
/// the column letter followed by the one-based row number.
pub open spec fn cell_ref_of(col: int, row_index: int) -> Seq<char> {
    seq![column_letters()[col]] + strutil::dec_spec((row_index + 1) as nat)
}

/// Build a cell reference such as the one naming the acknowledgement
/// column of a row.
pub fn sheet_cell_ref(col: usize, row_index: usize) -> (r: String)
    requires
        col < 26,
        row_index < usize::MAX,
    ensures
        r@ == cell_ref_of(col as int, row_index as int),
{
    proof {
        reveal_strlit("ABCDEFGHIJKLMNOPQRSTUVWXYZ");
    }
    let letters = strutil::chars_of("ABCDEFGHIJKLMNOPQRSTUVWXYZ");
    let mut v: Vec<char> = Vec::new();
    v.push(letters[col]);
    let num = strutil::u64_chars((row_index + 1) as u64);
    strutil::push_chars(&mut v, &num);
    assert(v@ =~= cell_ref_of(col as int, row_index as int));
    strutil::string_of(&v)
}

/// What the text-matching library captures between the two question
/// patterns in the materials: a function of the three texts alone, or
/// nothing when the first pattern does not build or does not match.
pub uninterp spec fn captured_between(q1: Seq<char>, q2: Seq<char>, text: Seq<char>) -> Option<
    Seq<char>,
>;

/// Relies on the regex crate: the pattern `q1(?s)(.*)q2` is built with
/// Regex::new and run with Regex::captures; the text of the first capture
/// group comes back. The result depends on the arguments alone.
#[verifier::external_body]
fn capture_between(q1: &str, q2: &str, text: &str) -> (r: Option<String>)
    ensures
        match r {
            Some(c) => captured_between(q1@, q2@, text@) == Some(c@),
            None => captured_between(q1@, q2@, text@) is None,
        },
{
    let re = regex::Regex::new(&format!("{}(?s)(.*){}", q1, q2)).ok()?;
    let caps = re.captures(text)?;
    Some(caps.get(1)?.as_str().to_string())
}

/// The cleanup applied to a captured answer: the ruler lines and the
/// materials headings struck out, a leading colon and whitespace trimmed.
pub open spec fn cleaned_answer_of(s: Seq<char>) -> Seq<char> {
    let a = strutil::replace_spec(s, "________________"@, Seq::<char>::empty());
    let b = strutil::replace_spec(
        a,
        "Oxide Candidate Materials: Technical Program Manager"@,
        Seq::<char>::empty(),
    );
    let c = strutil::replace_spec(b, "Oxide Candidate Materials"@, Seq::<char>::empty());
    let d = strutil::replace_spec(c, "Work sample(s)"@, Seq::<char>::empty());
    let e = strutil::strip_prefix_all_spec(d, ":"@);
    strutil::trim_spec(e)
}

/// The stored answer for a question: what stands between the question and
/// the next one in the materials, cleaned up; empty when the question is
/// not found.
pub open spec fn question_answer_of(q1: Seq<char>, q2: Seq<char>, materials: Seq<char>) -> Seq<
    char,
> {
    match captured_between(q1, q2, materials) {
        Some(c) => cleaned_answer_of(c),
        None => Seq::<char>::empty(),
    }
}

/// Pull the answer standing between two question patterns out of the
/// materials text.
pub fn parse_question(q1: &str, q2: &str, materials_contents: &str) -> (r: String)
    ensures
        r@ == question_answer_of(q1@, q2@, materials_contents@),
{
    match capture_between(q1, q2, materials_contents) {
        Some(c) => {
            let cs = strutil::chars_of(c.as_str());
            let a = replace_with_empty(&cs, "________________");
            let b = replace_with_empty(&a, "Oxide Candidate Materials: Technical Program Manager");
            let c2 = replace_with_empty(&b, "Oxide Candidate Materials");
            let d = replace_with_empty(&c2, "Work sample(s)");
            let e = strip_prefix_all_str(&d, ":");
            let t = strutil::trim(&e);
            strutil::string_of(&t)
        },
        None => String::new(),
    }
}

/// The question the survey asks about technically challenging work, as a
/// pattern tolerant of odd line breaks.
pub const QUESTION_TECHNICALLY_CHALLENGING: &'static str = r"W(?s:.*)at work(?s:.*)ave you found mos(?s:.*)challenging(?s:.*)caree(?s:.*)wh(?s:.*)\?";

/// The question about work one is proud of.
pub const QUESTION_WORK_PROUD_OF: &'static str = r"W(?s:.*)at work(?s:.*)ave you done that you(?s:.*)particularl(?s:.*)proud o(?s:.*)and why\?";

/// The question about the happiest time in one's career.
pub const QUESTION_HAPPIEST_CAREER: &'static str = r"W(?s:.*)en have you been happiest in your professiona(?s:.*)caree(?s:.*)and why\?";

/// The question about the unhappiest time in one's career.
pub const QUESTION_UNHAPPIEST_CAREER: &'static str = r"W(?s:.*)en have you been unhappiest in your professiona(?s:.*)caree(?s:.*)and why\?";

/// The question about a value reflected in one's work.
pub const QUESTION_VALUE_REFLECTED: &'static str = r"F(?s:.*)r one of Oxide(?s:.*)s values(?s:.*)describe an example of ho(?s:.*)it wa(?s:.*)reflected(?s:.*)particula(?s:.*)body(?s:.*)you(?s:.*)work\.";

/// The question about a value violated.
pub const QUESTION_VALUE_VIOLATED: &'static str = r"F(?s:.*)r one of Oxide(?s:.*)s values(?s:.*)describe an example of ho(?s:.*)it wa(?s:.*)violated(?s:.*)you(?s:.*)organization o(?s:.*)work\.";

/// The question about values in tension.
pub const QUESTION_VALUES_IN_TENSION: &'static str = r"F(?s:.*)r a pair of Oxide(?s:.*)s values(?s:.*)describe a time in whic(?s:.*)the tw(?s:.*)values(?s:.*)tensio(?s:.*)for(?s:.*)your(?s:.*)and how yo(?s:.*)resolved it\.";

/// The question why one wants to work here.
pub const QUESTION_WHY_OXIDE: &'static str = r"W(?s:.*)y do you want to work for Oxide\?";

/// Which column of the application spreadsheet holds which field.
#[derive(Clone, Copy, Debug, PartialEq, Eq, Structural)]
pub struct ApplicantSheetColumns {
    pub timestamp: usize,
    pub name: usize,
    pub email: usize,
    pub location: usize,
    pub phone: usize,
    pub github: usize,
    pub resume: usize,
    pub materials: usize,
    pub status: usize,
    pub sent_email_received: usize,
    pub linkedin: usize,
    pub portfolio: usize,
    pub website: usize,
    pub value_reflected: usize,
    pub value_violated: usize,
    pub value_in_tension_1: usize,
    pub value_in_tension_2: usize,
}

/// An applicant row as the import writes it into the local store. The
/// submission time is held as seconds since the epoch.
#[derive(Clone, Debug, PartialEq, Eq)]
pub struct NewApplicant {
    pub name: String,
    pub role: String,
    pub sheet_id: String,
    pub status: String,
    pub submitted_time: i64,
    pub email: String,
    pub phone: String,
    pub country_code: String,
    pub location: String,
    pub github: String,
    pub gitlab: String,
    pub linkedin: String,
    pub portfolio: String,
    pub website: String,
    pub resume: String,
    pub materials: String,
    pub sent_email_received: bool,
    pub value_reflected: String,
    pub value_violated: String,
    pub values_in_tension: Vec<String>,
    pub resume_contents: String,
    pub materials_contents: String,
    pub work_samples: String,
    pub writing_samples: String,
    pub analysis_samples: String,
    pub presentation_samples: String,
    pub exploratory_samples: String,
    pub question_technically_challenging: String,
    pub question_proud_of: String,
    pub question_happiest: String,
    pub question_unhappiest: String,
    pub question_value_reflected: String,
    pub question_value_violated: String,
    pub question_values_in_tension: String,
    pub question_why_oxide: String,
}

/// An applicant row read back from the local store: the same fields under
/// a row id.
#[derive(Clone, Debug, PartialEq, Eq)]
pub struct Applicant {
    pub id: i32,
    pub fields: NewApplicant,
}

/// A guarded optional cell: present only when the row is long enough and
/// the column is configured (non-zero); trimmed and lower-cased.
pub open spec fn optional_cell(row: Seq<Seq<char>>, col: int) -> Seq<char> {
    if row.len() > col && col != 0 {
        strutil::lower_seq(strutil::trim_spec(row[col]))
    } else {
        Seq::<char>::empty()
    }
}

fn read_optional_cell(row: &Vec<String>, col: usize) -> (r: String)
    ensures
        r@ == optional_cell(row.deep_view(), col as int),
{
    if row.len() > col && col != 0 {
        let cs = strutil::chars_of(row[col].as_str());
        let t = strutil::trim(&cs);
        let low = strutil::to_lower(&t);
        strutil::string_of(&low)
    } else {
        String::new()
    }
}

/// The answer for the work samples, tried against the phrasings the
/// survey has used over time, most specific first.
pub open spec fn work_samples_of(m: Seq<char>) -> Seq<char> {
    let a = question_answer_of("Work sample\\(s\\)"@, "Writing samples"@, m);
    if a.len() > 0 {
        a
    } else {
        let b = question_answer_of(
            "If(?s:.*)his work is entirely proprietary(?s:.*)please describe it as fully as y(?s:.*)can, providing necessary context\\."@,
            "Writing samples"@,
            m,
        );
        if b.len() > 0 {
            b
        } else {
            let c = question_answer_of(
                "What would you have done differently\\?"@,
                "Exploratory samples"@,
                m,
            );
            if c.len() > 0 {
                c
            } else {
                let d = question_answer_of(
                    "Some questions(?s:.*)o have in mind as you describe them:"@,
                    "Exploratory samples"@,
                    m,
                );
                if d.len() > 0 {
                    d
                } else {
                    question_answer_of("Work samples"@, "Exploratory samples"@, m)
                }
            }
        }
    }
}

/// The answer for the writing samples.
pub open spec fn writing_samples_of(m: Seq<char>) -> Seq<char> {
    let a = question_answer_of("Writing sample\\(s\\)"@, "Analysis samples"@, m);
    if a.len() > 0 {
        a
    } else {
        let b = question_answer_of(
            "Please submit at least one writing sample \\(and no more tha(?s:.*)three\\) that you feel represent(?s:.*)you(?s:.*)providin(?s:.*)links if(?s:.*)necessary\\."@,
            "Analysis samples"@,
            m,
        );
        if b.len() > 0 {
            b
        } else {
            question_answer_of("Writing samples"@, "Analysis samples"@, m)
        }
    }
}

/// The answer for the analysis samples.
pub open spec fn analysis_samples_of(m: Seq<char>) -> Seq<char> {
    let a = question_answer_of("Analysis sample\\(s\\)$"@, "Presentation samples"@, m);
    if a.len() > 0 {
        a
    } else {
        let b = question_answer_of(
            "please recount a(?s:.*)incident(?s:.*)which you analyzed syste(?s:.*)misbehavior(?s:.*)including as much technical detail as you can recall\\."@,
            "Presentation samples"@,
            m,
        );
        if b.len() > 0 {
            b
        } else {
            question_answer_of("Analysis samples"@, "Presentation samples"@, m)
        }
    }
}

/// The answer for the presentation samples.
pub open spec fn presentation_samples_of(m: Seq<char>) -> Seq<char> {
    let a = question_answer_of("Presentation sample\\(s\\)"@, "Questionnaire"@, m);
    if a.len() > 0 {
        a
    } else {
        let b = question_answer_of(
            "I(?s:.*)you don’t have a publicl(?s:.*)available presentation(?s:.*)pleas(?s:.*)describe a topic on which you have presented in th(?s:.*)past\\."@,
            "Questionnaire"@,
            m,
        );
        if b.len() > 0 {
            b
        } else {
            question_answer_of("Presentation samples"@, "Questionnaire"@, m)
        }
    }
}

/// The answer for the exploratory samples.
pub open spec fn exploratory_samples_of(m: Seq<char>) -> Seq<char> {
    let a = question_answer_of("Exploratory sample\\(s\\)"@, "Questionnaire"@, m);
    if a.len() > 0 {
        a
    } else {
        let b = question_answer_of(
            "What’s an example o(?s:.*)something that you needed to explore, reverse engineer, decipher or otherwise figure out a(?s:.*)part of a program or project and how did you do it\\? Please provide as much detail as you ca(?s:.*)recall\\."@,
            "Questionnaire"@,
            m,
        );
        if b.len() > 0 {
            b
        } else {
            question_answer_of("Exploratory samples"@, "Questionnaire"@, m)
        }
    }
}


/// Pull the work samples out of the materials.
pub fn work_samples(m: &str) -> (r: String)
    ensures
        r@ == work_samples_of(m@),
{
    let a = parse_question(r"Work sample\(s\)", "Writing samples", m);
    if !a.as_str().is_empty() {
        return a;
    }
    let b = parse_question(
        r"If(?s:.*)his work is entirely proprietary(?s:.*)please describe it as fully as y(?s:.*)can, providing necessary context\.",
        "Writing samples",
        m,
    );
    if !b.as_str().is_empty() {
        return b;
    }
    let c = parse_question(r"What would you have done differently\?", "Exploratory samples", m);
    if !c.as_str().is_empty() {
        return c;
    }
    let d = parse_question(
        r"Some questions(?s:.*)o have in mind as you describe them:",
        "Exploratory samples",
        m,
    );
    if !d.as_str().is_empty() {
        return d;
    }
    parse_question(r"Work samples", "Exploratory samples", m)
}

/// Pull the writing samples out of the materials.
pub fn writing_samples(m: &str) -> (r: String)
    ensures
        r@ == writing_samples_of(m@),
{
    let a = parse_question(r"Writing sample\(s\)", "Analysis samples", m);
    if !a.as_str().is_empty() {
        return a;
    }
    let b = parse_question(
        r"Please submit at least one writing sample \(and no more tha(?s:.*)three\) that you feel represent(?s:.*)you(?s:.*)providin(?s:.*)links if(?s:.*)necessary\.",
        "Analysis samples",
        m,
    );
    if !b.as_str().is_empty() {
        return b;
    }
    parse_question(r"Writing samples", "Analysis samples", m)
}

/// Pull the analysis samples out of the materials.
pub fn analysis_samples(m: &str) -> (r: String)
    ensures
        r@ == analysis_samples_of(m@),
{
    let a = parse_question(r"Analysis sample\(s\)$", "Presentation samples", m);
    if !a.as_str().is_empty() {
        return a;
    }
    let b = parse_question(
        r"please recount a(?s:.*)incident(?s:.*)which you analyzed syste(?s:.*)misbehavior(?s:.*)including as much technical detail as you can recall\.",
        "Presentation samples",
        m,
    );
    if !b.as_str().is_empty() {
        return b;
    }
    parse_question(r"Analysis samples", "Presentation samples", m)
}

/// Pull the presentation samples out of the materials.
pub fn presentation_samples(m: &str) -> (r: String)
    ensures
        r@ == presentation_samples_of(m@),
{
    let a = parse_question(r"Presentation sample\(s\)", "Questionnaire", m);
    if !a.as_str().is_empty() {
        return a;
    }
    let b = parse_question(
        r"I(?s:.*)you don’t have a publicl(?s:.*)available presentation(?s:.*)pleas(?s:.*)describe a topic on which you have presented in th(?s:.*)past\.",
        "Questionnaire",
        m,
    );
    if !b.as_str().is_empty() {
        return b;
    }
    parse_question(r"Presentation samples", "Questionnaire", m)
}

/// Pull the exploratory samples out of the materials.
pub fn exploratory_samples(m: &str) -> (r: String)
    ensures
        r@ == exploratory_samples_of(m@),
{
    let a = parse_question(r"Exploratory sample\(s\)", "Questionnaire", m);
    if !a.as_str().is_empty() {
        return a;
    }
    let b = parse_question(
        r"What’s an example o(?s:.*)something that you needed to explore, reverse engineer, decipher or otherwise figure out a(?s:.*)part of a program or project and how did you do it\? Please provide as much detail as you ca(?s:.*)recall\.",
        "Questionnaire",
        m,
    );
    if !b.as_str().is_empty() {
        return b;
    }
    parse_question(r"Exploratory samples", "Questionnaire", m)
}

/// What the sheet's timestamp cell parses to, as seconds since the epoch:
/// a function of the cell text alone, or nothing when the text is not in
/// the sheet's date format.
pub uninterp spec fn sheet_timestamp_of(s: Seq<char>) -> Option<int>;

/// Relies on chrono's DateTime::parse_from_str: the cell text with the
/// sheet's fixed offset appended, read with the sheet's format, gives the
/// timestamp in epoch seconds.
#[verifier::external_body]
fn parse_sheet_timestamp(s: &str) -> (r: Option<i64>)
    ensures
        match r {
            Some(t) => sheet_timestamp_of(s@) == Some(t as int),
            None => sheet_timestamp_of(s@) is None,
        },
{
    let with_tz = format!("{} -08:00", s);
    match chrono::DateTime::parse_from_str(&with_tz, "%m/%d/%Y %H:%M:%S  %:z") {
        Ok(d) => Some(d.timestamp()),
        Err(_) => None,
    }
}

/// What the humanizing library renders a signed duration in seconds to
/// (such as `15 minutes ago`): a function of the duration alone.
pub uninterp spec fn human_time_of(secs: int) -> Seq<char>;

/// Relies on chrono_humanize's HumanTime over a chrono Duration of whole
/// seconds: its rendering depends on the duration alone. The duration
/// constructor aborts outside one thousandth of the i64 range, so such
/// values are asked away.
#[verifier::external_body]
pub(crate) fn humanize_secs(secs: i64) -> (r: String)
    requires
        -(i64::MAX as int) / 1000 <= secs <= (i64::MAX as int) / 1000,
    ensures
        r@ == human_time_of(secs as int),
{
    format!("{}", chrono_humanize::HumanTime::from(chrono::Duration::seconds(secs)))
}

/// The duration handed to the humanizer: the signed distance from now
/// back to the submission, never positive.
pub open spec fn applied_duration(submitted: int, now: int) -> int {
    if submitted - now > 0 {
        now - submitted
    } else {
        submitted - now
    }
}

/// The values-in-tension cells of a row, in order, trimmed and
/// lower-cased; a missing or unconfigured column contributes nothing.
pub open spec fn tensions_of(row: Seq<Seq<char>>, c1: int, c2: int) -> Seq<Seq<char>> {
    (if row.len() > c1 && c1 != 0 {
        seq![strutil::lower_seq(strutil::trim_spec(row[c1]))]
    } else {
        Seq::<Seq<char>>::empty()
    }) + (if row.len() > c2 && c2 != 0 {
        seq![strutil::lower_seq(strutil::trim_spec(row[c2]))]
    } else {
        Seq::<Seq<char>>::empty()
    })
}

/// Every field of a parsed applicant row, pinned to the raw cells: the
/// normalized status, handles, phone and country, the guarded optional
/// cells, and the answers pulled out of the materials.
pub open spec fn applicant_matches_row(
    r: NewApplicant,
    row: Seq<Seq<char>>,
    columns: ApplicantSheetColumns,
    sheet_name: Seq<char>,
    sheet_id: Seq<char>,
    submitted_time: int,
    resume_contents: Seq<char>,
    materials_contents: Seq<char>,
) -> bool {
    &&& r.name@ == row[columns.name as int]
    &&& r.role@ == sheet_name
    &&& r.sheet_id@ == sheet_id
    &&& r.status@ == (if row.len() > columns.status {
        status_of(row[columns.status as int])
    } else {
        "Needs to be triaged"@
    })
    &&& r.submitted_time == submitted_time
    &&& r.email@ == row[columns.email as int]
    &&& r.phone@ == phone_text_of(
        strutil::trim_spec(row[columns.location as int]),
        row[columns.phone as int],
    )
    &&& r.country_code@ == country_code_of(
        strutil::trim_spec(row[columns.location as int]),
        row[columns.phone as int],
    )
    &&& r.location@ == strutil::trim_spec(row[columns.location as int])
    &&& r.github@ == handles_of(row[columns.github as int]).0
    &&& r.gitlab@ == handles_of(row[columns.github as int]).1
    &&& r.linkedin@ == optional_cell(row, columns.linkedin as int)
    &&& r.portfolio@ == optional_cell(row, columns.portfolio as int)
    &&& r.website@ == optional_cell(row, columns.website as int)
    &&& r.resume@ == row[columns.resume as int]
    &&& r.materials@ == row[columns.materials as int]
    &&& r.sent_email_received == !strutil::contains_seq(
        strutil::lower_seq(row[columns.sent_email_received as int]),
        "false"@,
    )
    &&& r.value_reflected@ == optional_cell(row, columns.value_reflected as int)
    &&& r.value_violated@ == optional_cell(row, columns.value_violated as int)
    &&& r.values_in_tension.deep_view() == tensions_of(
        row,
        columns.value_in_tension_1 as int,
        columns.value_in_tension_2 as int,
    )
    &&& r.resume_contents@ == resume_contents
    &&& r.materials_contents@ == materials_contents
    &&& r.work_samples@ == work_samples_of(materials_contents)
    &&& r.writing_samples@ == writing_samples_of(materials_contents)
    &&& r.analysis_samples@ == analysis_samples_of(materials_contents)
    &&& r.presentation_samples@ == presentation_samples_of(materials_contents)
    &&& r.exploratory_samples@ == exploratory_samples_of(materials_contents)
    &&& r.question_technically_challenging@ == question_answer_of(
        QUESTION_TECHNICALLY_CHALLENGING@,
        QUESTION_WORK_PROUD_OF@,
        materials_contents,
    )
    &&& r.question_proud_of@ == question_answer_of(
        QUESTION_WORK_PROUD_OF@,
        QUESTION_HAPPIEST_CAREER@,
        materials_contents,
    )
    &&& r.question_happiest@ == question_answer_of(
        QUESTION_HAPPIEST_CAREER@,
        QUESTION_UNHAPPIEST_CAREER@,
        materials_contents,
    )
    &&& r.question_unhappiest@ == question_answer_of(
        QUESTION_UNHAPPIEST_CAREER@,
        QUESTION_VALUE_REFLECTED@,
        materials_contents,
    )
    &&& r.question_value_reflected@ == question_answer_of(
        QUESTION_VALUE_REFLECTED@,
        QUESTION_VALUE_VIOLATED@,
        materials_contents,
    )
    &&& r.question_value_violated@ == question_answer_of(
        QUESTION_VALUE_VIOLATED@,
        QUESTION_VALUES_IN_TENSION@,
        materials_contents,
    )
    &&& r.question_values_in_tension@ == question_answer_of(
        QUESTION_VALUES_IN_TENSION@,
        QUESTION_WHY_OXIDE@,
        materials_contents,
    )
    &&& r.question_why_oxide@ == question_answer_of(QUESTION_WHY_OXIDE@, ""@, materials_contents)
}

/// Assemble an applicant row from its raw spreadsheet cells, the already
/// parsed submission time, and the already fetched file contents.
pub fn applicant_from_row(
    row: &Vec<String>,
    columns: &ApplicantSheetColumns,
    sheet_name: &str,
    sheet_id: &str,
    submitted_time: i64,
    resume_contents: String,
    materials_contents: String,
) -> (r: NewApplicant)
    requires
        columns.sent_email_received < row@.len(),
        columns.email < row@.len(),
        columns.github < row@.len(),
        columns.location < row@.len(),
        columns.phone < row@.len(),
        columns.name < row@.len(),
        columns.resume < row@.len(),
        columns.materials < row@.len(),
    ensures
        applicant_matches_row(
            r,
            row.deep_view(),
            *columns,
            sheet_name@,
            sheet_id@,
            submitted_time as int,
            resume_contents@,
            materials_contents@,
        ),
{
    let status = if row.len() > columns.status {
        normalize_status(&row[columns.status])
    } else {
        "Needs to be triaged".to_owned()
    };
    let linkedin = read_optional_cell(row, columns.linkedin);
    let portfolio = read_optional_cell(row, columns.portfolio);
    let website = read_optional_cell(row, columns.website);
    let value_reflected = read_optional_cell(row, columns.value_reflected);
    let value_violated = read_optional_cell(row, columns.value_violated);
    let mut values_in_tension: Vec<String> = Vec::new();
    if row.len() > columns.value_in_tension_1 && columns.value_in_tension_1 != 0 {
        values_in_tension.push(read_optional_cell(row, columns.value_in_tension_1));
    }
    if row.len() > columns.value_in_tension_2 && columns.value_in_tension_2 != 0 {
        values_in_tension.push(read_optional_cell(row, columns.value_in_tension_2));
    }
    assert(values_in_tension.deep_view() =~= tensions_of(
        row.deep_view(),
        columns.value_in_tension_1 as int,
        columns.value_in_tension_2 as int,
    ));
    let sent_cs = strutil::chars_of(row[columns.sent_email_received].as_str());
    let sent_low = strutil::to_lower(&sent_cs);
    let sent_email_received = !strutil::contains_str(&sent_low, "false");
    let (github, gitlab) = parse_handles(&row[columns.github]);
    let loc_cs = strutil::chars_of(row[columns.location].as_str());
    let loc_t = strutil::trim(&loc_cs);
    let location = strutil::string_of(&loc_t);
    let (phone, country_code) = normalize_phone(&location, &row[columns.phone]);
    let m = materials_contents.as_str();
    let work_samples_v = work_samples(m);
    let writing_samples_v = writing_samples(m);
    let analysis_samples_v = analysis_samples(m);
    let presentation_samples_v = presentation_samples(m);
    let exploratory_samples_v = exploratory_samples(m);
    let question_technically_challenging = parse_question(
        QUESTION_TECHNICALLY_CHALLENGING,
        QUESTION_WORK_PROUD_OF,
        m,
    );
    let question_proud_of = parse_question(QUESTION_WORK_PROUD_OF, QUESTION_HAPPIEST_CAREER, m);
    let question_happiest = parse_question(QUESTION_HAPPIEST_CAREER, QUESTION_UNHAPPIEST_CAREER, m);
    let question_unhappiest = parse_question(
        QUESTION_UNHAPPIEST_CAREER,
        QUESTION_VALUE_REFLECTED,
        m,
    );
    let question_value_reflected = parse_question(
        QUESTION_VALUE_REFLECTED,
        QUESTION_VALUE_VIOLATED,
        m,
    );
    let question_value_violated = parse_question(
        QUESTION_VALUE_VIOLATED,
        QUESTION_VALUES_IN_TENSION,
        m,
    );
    let question_values_in_tension = parse_question(
        QUESTION_VALUES_IN_TENSION,
        QUESTION_WHY_OXIDE,
        m,
    );
    let question_why_oxide = parse_question(QUESTION_WHY_OXIDE, "", m);
    NewApplicant {
        name: crate::records::clone_string(&row[columns.name]),
        role: sheet_name.to_owned(),
        sheet_id: sheet_id.to_owned(),
        status,
        submitted_time,
        email: crate::records::clone_string(&row[columns.email]),
        phone,
        country_code,
        location,
        github,
        gitlab,
        linkedin,
        portfolio,
        website,
        resume: crate::records::clone_string(&row[columns.resume]),
        materials: crate::records::clone_string(&row[columns.materials]),
        sent_email_received,
        value_reflected,
        value_violated,
        values_in_tension,
        resume_contents,
        materials_contents,
        work_samples: work_samples_v,
        writing_samples: writing_samples_v,
        analysis_samples: analysis_samples_v,
        presentation_samples: presentation_samples_v,
        exploratory_samples: exploratory_samples_v,
        question_technically_challenging,
        question_proud_of,
        question_happiest,
        question_unhappiest,
        question_value_reflected,
        question_value_violated,
        question_values_in_tension,
        question_why_oxide,
    }
}

/// Parse an applicant from a raw spreadsheet row: the timestamp cell is
/// read first, and a row whose timestamp does not parse is refused whole.
/// The second part of the result says whether the applicant is new, that
/// is, whether no acknowledgement mail has been sent yet.
pub fn parse_applicant(
    row: &Vec<String>,
    columns: &ApplicantSheetColumns,
    sheet_name: &str,
    sheet_id: &str,
    resume_contents: String,
    materials_contents: String,
) -> (r: Option<(NewApplicant, bool)>)
    requires
        columns.timestamp < row@.len(),
        columns.sent_email_received < row@.len(),
        columns.email < row@.len(),
        columns.github < row@.len(),
        columns.location < row@.len(),
        columns.phone < row@.len(),
        columns.name < row@.len(),
        columns.resume < row@.len(),
        columns.materials < row@.len(),
    ensures
        match r {
            Some(p) => {
                &&& sheet_timestamp_of(row.deep_view()[columns.timestamp as int]) is Some
                &&& applicant_matches_row(
                    p.0,
                    row.deep_view(),
                    *columns,
                    sheet_name@,
                    sheet_id@,
                    sheet_timestamp_of(row.deep_view()[columns.timestamp as int]).unwrap(),
                    resume_contents@,
                    materials_contents@,
                )
                &&& p.1 == !p.0.sent_email_received
            },
            None => sheet_timestamp_of(row.deep_view()[columns.timestamp as int]) is None,
        },
{
    let t = match parse_sheet_timestamp(row[columns.timestamp].as_str()) {
        Some(t) => t,
        None => {
            return None;
        },
    };
    let a = applicant_from_row(
        row,
        columns,
        sheet_name,
        sheet_id,
        t,
        resume_contents,
        materials_contents,
    );
    let is_new = !a.sent_email_received;
    Some((a, is_new))
}

/// The intro line of the applicant notification: name, mail link, and the
/// location where one is set.
pub open spec fn applicant_intro_text(a: NewApplicant) -> Seq<char> {
    let base = "*"@ + a.name@ + "*  <mailto:"@ + a.email@ + "|"@ + a.email@ + ">"@;
    if a.location@.len() > 0 {
        base + "  "@ + a.location@
    } else {
        base
    }
}

/// The info line: the material links and whatever contact links are set.
pub open spec fn applicant_info_text(a: NewApplicant) -> Seq<char> {
    "<"@ + a.resume@ + "|resume> | <"@ + a.materials@ + "|materials>"@ + (if a.phone@.len() > 0 {
        " | <tel:"@ + a.phone@ + "|"@ + a.phone@ + ">"@
    } else {
        ""@
    }) + (if a.github@.len() > 0 {
        " | <https://github.com/"@ + strutil::strip_prefix_all_spec(a.github@, "@"@) + "|github:"@
            + a.github@ + ">"@
    } else {
        ""@
    }) + (if a.gitlab@.len() > 0 {
        " | <https://gitlab.com/"@ + strutil::strip_prefix_all_spec(a.gitlab@, "@"@) + "|gitlab:"@
            + a.gitlab@ + ">"@
    } else {
        ""@
    }) + (if a.linkedin@.len() > 0 {
        " | <"@ + a.linkedin@ + "|linkedin>"@
    } else {
        ""@
    }) + (if a.portfolio@.len() > 0 {
        " | <"@ + a.portfolio@ + "|portfolio>"@
    } else {
        ""@
    }) + (if a.website@.len() > 0 {
        " | <"@ + a.website@ + "|website>"@
    } else {
        ""@
    })
}

/// The rendering of the values in tension from position `k` on: the first
/// gets its own heading, the rest are chained on.
pub open spec fn tensions_text_from(vs: Seq<Seq<char>>, k: int) -> Seq<char>
    decreases vs.len() - k,
{
    if k < 0 || k >= vs.len() {
        ""@
    } else {
        (if k == 0 {
            " | in tension: *"@ + vs[k] + "*"@
        } else {
            " *& "@ + vs[k] + "*"@
        }) + tensions_text_from(vs, k + 1)
    }
}

/// The values line: reflected, violated and in-tension values where set,
/// or the placeholder when nothing is.
pub open spec fn applicant_values_text(a: NewApplicant) -> Seq<char> {
    let v = (if a.value_reflected@.len() > 0 {
        "values reflected: *"@ + a.value_reflected@ + "*"@
    } else {
        ""@
    }) + (if a.value_violated@.len() > 0 {
        " | violated: *"@ + a.value_violated@ + "*"@
    } else {
        ""@
    }) + tensions_text_from(a.values_in_tension.deep_view(), 0);
    if v.len() == 0 {
        "values not yet populated"@
    } else {
        v
    }
}

/// The status line: where the application came from, how long ago, and
/// the status where one is set.
pub open spec fn applicant_status_text(a: NewApplicant, time_text: Seq<char>) -> Seq<char> {
    "<https://docs.google.com/spreadsheets/d/"@ + a.sheet_id@ + "|"@ + a.role@
        + "> Applicant | applied "@ + time_text + (if a.status@.len() > 0 {
        " | status: *"@ + a.status@ + "*"@
    } else {
        ""@
    })
}

/// Build the intro line.
fn build_intro(a: &NewApplicant) -> (r: String)
    ensures
        r@ == applicant_intro_text(*a),
{
    let mut intro: Vec<char> = Vec::new();
    strutil::push_str(&mut intro, "*");
    strutil::push_str(&mut intro, a.name.as_str());
    strutil::push_str(&mut intro, "*  <mailto:");
    strutil::push_str(&mut intro, a.email.as_str());
    strutil::push_str(&mut intro, "|");
    strutil::push_str(&mut intro, a.email.as_str());
    strutil::push_str(&mut intro, ">");
    if !a.location.as_str().is_empty() {
        strutil::push_str(&mut intro, "  ");
        strutil::push_str(&mut intro, a.location.as_str());
    }
    assert(intro@ =~= applicant_intro_text(*a));
    strutil::string_of(&intro)
}

/// Append `open` + value + `close` when the value is set.
fn push_opt_part(msg: &mut Vec<char>, open_text: &str, value: &String, close_text: &str)
    ensures
        final(msg)@ == old(msg)@ + (if value@.len() > 0 {
            open_text@ + value@ + close_text@
        } else {
            Seq::<char>::empty()
        }),
{
    if !value.as_str().is_empty() {
        strutil::push_str(msg, open_text);
        strutil::push_str(msg, value.as_str());
        strutil::push_str(msg, close_text);
        assert(final(msg)@ =~= old(msg)@ + (open_text@ + value@ + close_text@));
    } else {
        assert(final(msg)@ =~= old(msg)@ + Seq::<char>::empty());
    }
}

/// Append the phone link part when a phone is set.
fn push_tel_part(msg: &mut Vec<char>, phone: &String)
    ensures
        final(msg)@ == old(msg)@ + (if phone@.len() > 0 {
            " | <tel:"@ + phone@ + "|"@ + phone@ + ">"@
        } else {
            Seq::<char>::empty()
        }),
{
    if !phone.as_str().is_empty() {
        strutil::push_str(msg, " | <tel:");
        strutil::push_str(msg, phone.as_str());
        strutil::push_str(msg, "|");
        strutil::push_str(msg, phone.as_str());
        strutil::push_str(msg, ">");
        assert(final(msg)@ =~= old(msg)@ + (" | <tel:"@ + phone@ + "|"@ + phone@ + ">"@));
    } else {
        assert(final(msg)@ =~= old(msg)@ + Seq::<char>::empty());
    }
}

/// Append a code-hosting link part (site, bare handle, label, handle) when
/// the handle is set.
fn push_handle_link_part(msg: &mut Vec<char>, site: &str, label: &str, handle: &String)
    ensures
        final(msg)@ == old(msg)@ + (if handle@.len() > 0 {
            site@ + strutil::strip_prefix_all_spec(handle@, "@"@) + label@ + handle@ + ">"@
        } else {
            Seq::<char>::empty()
        }),
{
    if !handle.as_str().is_empty() {
        strutil::push_str(msg, site);
        let g = strutil::chars_of(handle.as_str());
        let stripped = strip_prefix_all_str(&g, "@");
        strutil::push_chars(msg, &stripped);
        strutil::push_str(msg, label);
        strutil::push_str(msg, handle.as_str());
        strutil::push_str(msg, ">");
        assert(final(msg)@ =~= old(msg)@ + (site@ + strutil::strip_prefix_all_spec(handle@, "@"@)
            + label@ + handle@ + ">"@));
    } else {
        assert(final(msg)@ =~= old(msg)@ + Seq::<char>::empty());
    }
}

/// Append a code-hosting line of the mail body (heading, handle, and the
/// address in parentheses) when the handle is set.
fn push_handle_mail_part(msg: &mut Vec<char>, head: &str, site: &str, handle: &String)
    ensures
        final(msg)@ == old(msg)@ + (if handle@.len() > 0 {
            head@ + handle@ + site@ + strutil::strip_prefix_all_spec(handle@, "@"@) + ")"@
        } else {
            Seq::<char>::empty()
        }),
{
    if !handle.as_str().is_empty() {
        strutil::push_str(msg, head);
        strutil::push_str(msg, handle.as_str());
        strutil::push_str(msg, site);
        let g = strutil::chars_of(handle.as_str());
        let stripped = strip_prefix_all_str(&g, "@");
        strutil::push_chars(msg, &stripped);
        strutil::push_str(msg, ")");
        assert(final(msg)@ =~= old(msg)@ + (head@ + handle@ + site@
            + strutil::strip_prefix_all_spec(handle@, "@"@) + ")"@));
    } else {
        assert(final(msg)@ =~= old(msg)@ + Seq::<char>::empty());
    }
}

/// Build the info line.
fn build_info(a: &NewApplicant) -> (r: String)
    ensures
        r@ == applicant_info_text(*a),
{
    let mut info: Vec<char> = Vec::new();
    strutil::push_str(&mut info, "<");
    strutil::push_str(&mut info, a.resume.as_str());
    strutil::push_str(&mut info, "|resume> | <");
    strutil::push_str(&mut info, a.materials.as_str());
    strutil::push_str(&mut info, "|materials>");
    let ghost p0 = "<"@ + a.resume@ + "|resume> | <"@ + a.materials@ + "|materials>"@;
    assert(info@ =~= p0);
    push_tel_part(&mut info, &a.phone);
    push_handle_link_part(&mut info, " | <https://github.com/", "|github:", &a.github);
    push_handle_link_part(&mut info, " | <https://gitlab.com/", "|gitlab:", &a.gitlab);
    push_opt_part(&mut info, " | <", &a.linkedin, "|linkedin>");
    push_opt_part(&mut info, " | <", &a.portfolio, "|portfolio>");
    push_opt_part(&mut info, " | <", &a.website, "|website>");
    proof {
        reveal_strlit("");
        assert(info@ =~= applicant_info_text(*a));
    }
    strutil::string_of(&info)
}

/// Build the values line.
fn build_values(a: &NewApplicant) -> (r: String)
    ensures
        r@ == applicant_values_text(*a),
{
    proof {
        reveal_strlit("");
    }
    let mut values: Vec<char> = Vec::new();
    if !a.value_reflected.as_str().is_empty() {
        strutil::push_str(&mut values, "values reflected: *");
        strutil::push_str(&mut values, a.value_reflected.as_str());
        strutil::push_str(&mut values, "*");
    }
    if !a.value_violated.as_str().is_empty() {
        strutil::push_str(&mut values, " | violated: *");
        strutil::push_str(&mut values, a.value_violated.as_str());
        strutil::push_str(&mut values, "*");
    }
    let ghost head = values@;
    let ghost vs = a.values_in_tension.deep_view();
    let mut k: usize = 0;
    while k < a.values_in_tension.len()
        invariant
            k <= vs.len(),
            vs == a.values_in_tension.deep_view(),
            head + tensions_text_from(vs, 0) == values@ + tensions_text_from(vs, k as int),
        decreases vs.len() - k,
    {
        let ghost pre = values@;
        if k == 0 {
            strutil::push_str(&mut values, " | in tension: *");
            strutil::push_str(&mut values, a.values_in_tension[k].as_str());
            strutil::push_str(&mut values, "*");
        } else {
            strutil::push_str(&mut values, " *& ");
            strutil::push_str(&mut values, a.values_in_tension[k].as_str());
            strutil::push_str(&mut values, "*");
        }
        proof {
            let piece = if k == 0 {
                " | in tension: *"@ + vs[k as int] + "*"@
            } else {
                " *& "@ + vs[k as int] + "*"@
            };
            assert(values@ =~= pre + piece);
            assert(pre + (piece + tensions_text_from(vs, k + 1)) =~= values@
                + tensions_text_from(vs, k + 1));
        }
        k = k + 1;
    }
    proof {
        assert(tensions_text_from(vs, k as int) == ""@);
        assert(values@ + ""@ =~= values@);
        assert(values@ =~= head + tensions_text_from(vs, 0));
    }
    if values.len() == 0 {
        strutil::push_str(&mut values, "values not yet populated");
    }
    assert(values@ =~= applicant_values_text(*a));
    strutil::string_of(&values)
}

/// Build the status line.
fn build_status(a: &NewApplicant, time: &str) -> (r: String)
    ensures
        r@ == applicant_status_text(*a, time@),
{
    proof {
        reveal_strlit("");
    }
    let mut status: Vec<char> = Vec::new();
    strutil::push_str(&mut status, "<https://docs.google.com/spreadsheets/d/");
    strutil::push_str(&mut status, a.sheet_id.as_str());
    strutil::push_str(&mut status, "|");
    strutil::push_str(&mut status, a.role.as_str());
    strutil::push_str(&mut status, "> Applicant | applied ");
    strutil::push_str(&mut status, time);
    if !a.status.as_str().is_empty() {
        strutil::push_str(&mut status, " | status: *");
        strutil::push_str(&mut status, a.status.as_str());
        strutil::push_str(&mut status, "*");
    }
    assert(status@ =~= applicant_status_text(*a, time@));
    strutil::string_of(&status)
}

/// The whole observable shape of the applicant notification built from
/// the given fields at the given time: four blocks, every field of every
/// block pinned. Both the row type's builder and the stored row's builder
/// promise exactly this, so the two always render the same message when
/// the fields agree.
pub open spec fn applicant_message_shape(
    r: crate::slack::FormattedMessage,
    a: NewApplicant,
    time_text: Seq<char>,
) -> bool {
    &&& r.channel is None
    &&& r.blocks@.len() == 4
    &&& crate::slack::is_section_block(r.blocks@[0], applicant_intro_text(a))
    &&& crate::slack::is_context_block(r.blocks@[1], applicant_info_text(a))
    &&& crate::slack::is_context_block(r.blocks@[2], applicant_values_text(a))
    &&& crate::slack::is_context_block(r.blocks@[3], applicant_status_text(a, time_text))
}

impl NewApplicant {
    /// How long ago the application was submitted, in words.
    pub fn human_duration(&self, now_secs: i64) -> (r: String)
        requires
            -(i64::MAX as int) / 1000 <= self.submitted_time - now_secs <= (i64::MAX as int) / 1000,
        ensures
            r@ == human_time_of(applied_duration(self.submitted_time as int, now_secs as int)),
    {
        let d = self.submitted_time - now_secs;
        if d > 0 {
            humanize_secs(-d)
        } else {
            humanize_secs(d)
        }
    }

    /// Build the notification message for this applicant: an intro
    /// section, then context lines for the material links, the values,
    /// and the status with how long ago the application came in.
    pub fn as_slack_msg(&self, now_secs: i64) -> (r: crate::slack::FormattedMessage)
        requires
            -(i64::MAX as int) / 1000 <= self.submitted_time - now_secs <= (i64::MAX as int) / 1000,
        ensures
            applicant_message_shape(
                r,
                *self,
                human_time_of(applied_duration(self.submitted_time as int, now_secs as int)),
            ),
    {
        let time = self.human_duration(now_secs);
        let intro = build_intro(self);
        let info = build_info(self);
        let values = build_values(self);
        let status = build_status(self, time.as_str());
        let mut blocks: Vec<crate::slack::MessageBlock> = Vec::new();
        blocks.push(crate::slack::section_block(intro));
        blocks.push(crate::slack::context_block(info));
        blocks.push(crate::slack::context_block(values));
        blocks.push(crate::slack::context_block(status));
        crate::slack::FormattedMessage { channel: None, blocks }
    }
}

/// The body of the company-wide notification mail for an applicant.
pub open spec fn company_email_text(a: NewApplicant, time_text: Seq<char>) -> Seq<char> {
    "## Applicant Information for "@ + a.role@ + "\n\nSubmitted "@ + time_text + "\nName: "@
        + a.name@ + "\nEmail: "@ + a.email@ + (if a.location@.len() > 0 {
        "\nLocation: "@ + a.location@
    } else {
        ""@
    }) + (if a.phone@.len() > 0 {
        "\nPhone: "@ + a.phone@
    } else {
        ""@
    }) + (if a.github@.len() > 0 {
        "\nGitHub: "@ + a.github@ + " (https://github.com/"@ + strutil::strip_prefix_all_spec(
            a.github@,
            "@"@,
        ) + ")"@
    } else {
        ""@
    }) + (if a.gitlab@.len() > 0 {
        "\nGitLab: "@ + a.gitlab@ + " (https://gitlab.com/"@ + strutil::strip_prefix_all_spec(
            a.gitlab@,
            "@"@,
        ) + ")"@
    } else {
        ""@
    }) + (if a.linkedin@.len() > 0 {
        "\nLinkedIn: "@ + a.linkedin@
    } else {
        ""@
    }) + (if a.portfolio@.len() > 0 {
        "\nPortfolio: "@ + a.portfolio@
    } else {
        ""@
    }) + (if a.website@.len() > 0 {
        "\nWebsite: "@ + a.website@
    } else {
        ""@
    }) + "\nResume: "@ + a.resume@
        + "\nOxide Candidate Materials: "@ + a.materials@
        + "\n\n## Reminder\n\nTo view the all the candidates refer to the following Google spreadsheets:\n\n- Engineering Applications: https://applications-engineering.corp.oxide.computer\n- Product Engineering and Design Applications: https://applications-product.corp.oxide.computer\n- Technical Program Manager Applications: https://applications-tpm.corp.oxide.computer\n"@
}

impl NewApplicant {
    /// Build the body of the company-wide notification mail.
    pub fn as_company_notification_email(&self, now_secs: i64) -> (r: String)
        requires
            -(i64::MAX as int) / 1000 <= self.submitted_time - now_secs <= (i64::MAX as int) / 1000,
        ensures
            r@ == company_email_text(
                *self,
                human_time_of(applied_duration(self.submitted_time as int, now_secs as int)),
            ),
    {
        let time = self.human_duration(now_secs);
        let ghost t = human_time_of(applied_duration(self.submitted_time as int, now_secs as int));
        let mut msg: Vec<char> = Vec::new();
        strutil::push_str(&mut msg, "## Applicant Information for ");
        strutil::push_str(&mut msg, self.role.as_str());
        strutil::push_str(&mut msg, "\n\nSubmitted ");
        strutil::push_str(&mut msg, time.as_str());
        strutil::push_str(&mut msg, "\nName: ");
        strutil::push_str(&mut msg, self.name.as_str());
        strutil::push_str(&mut msg, "\nEmail: ");
        strutil::push_str(&mut msg, self.email.as_str());
        let ghost p0 = "## Applicant Information for "@ + self.role@ + "\n\nSubmitted "@ + t
            + "\nName: "@ + self.name@ + "\nEmail: "@ + self.email@;
        assert(msg@ =~= p0);
        push_opt_part(&mut msg, "\nLocation: ", &self.location, "");
        push_opt_part(&mut msg, "\nPhone: ", &self.phone, "");
        push_handle_mail_part(&mut msg, "\nGitHub: ", " (https://github.com/", &self.github);
        push_handle_mail_part(&mut msg, "\nGitLab: ", " (https://gitlab.com/", &self.gitlab);
        push_opt_part(&mut msg, "\nLinkedIn: ", &self.linkedin, "");
        push_opt_part(&mut msg, "\nPortfolio: ", &self.portfolio, "");
        push_opt_part(&mut msg, "\nWebsite: ", &self.website, "");
        strutil::push_str(&mut msg, "\nResume: ");
        strutil::push_str(&mut msg, self.resume.as_str());
        strutil::push_str(&mut msg, "\nOxide Candidate Materials: ");
        strutil::push_str(&mut msg, self.materials.as_str());
        strutil::push_str(
            &mut msg,
            "\n\n## Reminder\n\nTo view the all the candidates refer to the following Google spreadsheets:\n\n- Engineering Applications: https://applications-engineering.corp.oxide.computer\n- Product Engineering and Design Applications: https://applications-product.corp.oxide.computer\n- Technical Program Manager Applications: https://applications-tpm.corp.oxide.computer\n",
        );
        proof {
            reveal_strlit("");
            assert(msg@ =~= company_email_text(*self, t));
        }
        strutil::string_of(&msg)
    }
}

/// A request to open a tracking issue.
#[derive(Clone, Debug, PartialEq, Eq)]
pub struct IssueRequest {
    pub title: String,
    pub body: String,
    pub labels: Vec<String>,
    pub assignee: String,
}

/// The body of the follow-up issue for an applicant in the next steps.
/// The submission time is written as its civil UTC timestamp.
pub open spec fn next_steps_body_text(a: NewApplicant) -> Seq<char> {
    "- [ ] Schedule follow up meetings\n- [ ] Schedule sync to discuss\n\n## Candidate Information\n\nSubmitted Date: "@
        + crate::date::utc_text(crate::date::civil_of(a.submitted_time as int)) + "\nEmail: "@
        + a.email@ + "\nPhone: "@
        + a.phone@ + "\nLocation: "@ + a.location@ + "\nGitHub: "@ + a.github@ + "\nResume: "@
        + a.resume@ + "\nOxide Candidate Materials: "@ + a.materials@
        + "\n\n## Reminder\n\nTo view the all the candidates refer to the Airtable workspace: https://airtable-applicants.corp.oxide.computer\n\ncc @jessfraz @sdtuck @bcantrill"@
}

/// The body of the onboarding issue for a hired applicant.
pub open spec fn onboarding_body_text(a: NewApplicant) -> Seq<char> {
    "- [ ] Add to users.toml\n- [ ] Add to matrix chat\nStart Date: [START DATE (ex. Monday, January 20th, 2020)]\nPersonal Email: "@
        + a.email@ + "\nTwitter: [TWITTER HANDLE]\nGitHub: "@ + a.github@ + "\nPhone: "@ + a.phone@
        + "\ncc @jessfraz @sdtuck @bcantrill"@
}

impl NewApplicant {
    /// The follow-up issue for this applicant: raised only when the
    /// status holds `Next steps` and no issue exists yet, so that an
    /// issue already edited by hand is never overwritten.
    pub fn next_steps_issue(&self, issue_exists: bool) -> (r: Option<IssueRequest>)
        requires
            -(i64::MAX as int) / 1000 <= self.submitted_time <= (i64::MAX as int) / 1000,
        ensures
            r is Some <==> strutil::contains_seq(self.status@, "Next steps"@) && !issue_exists,
            r is Some ==> {
                let req = r.unwrap();
                &&& req.title@ == "Hiring: "@ + self.name@
                &&& req.body@ == next_steps_body_text(*self)
                &&& req.labels.deep_view() == seq!["hiring"@]
                &&& req.assignee@ == "jessfraz"@
            },
    {
        let status_cs = strutil::chars_of(self.status.as_str());
        if !strutil::contains_str(&status_cs, "Next steps") {
            return None;
        }
        if issue_exists {
            return None;
        }
        let mut title: Vec<char> = Vec::new();
        strutil::push_str(&mut title, "Hiring: ");
        strutil::push_str(&mut title, self.name.as_str());
        let mut body: Vec<char> = Vec::new();
        strutil::push_str(
            &mut body,
            "- [ ] Schedule follow up meetings\n- [ ] Schedule sync to discuss\n\n## Candidate Information\n\nSubmitted Date: ",
        );
        let ts = crate::date::utc_timestamp_text(self.submitted_time);
        strutil::push_str(&mut body, ts.as_str());
        strutil::push_str(&mut body, "\nEmail: ");
        strutil::push_str(&mut body, self.email.as_str());
        strutil::push_str(&mut body, "\nPhone: ");
        strutil::push_str(&mut body, self.phone.as_str());
        strutil::push_str(&mut body, "\nLocation: ");
        strutil::push_str(&mut body, self.location.as_str());
        strutil::push_str(&mut body, "\nGitHub: ");
        strutil::push_str(&mut body, self.github.as_str());
        strutil::push_str(&mut body, "\nResume: ");
        strutil::push_str(&mut body, self.resume.as_str());
        strutil::push_str(&mut body, "\nOxide Candidate Materials: ");
        strutil::push_str(&mut body, self.materials.as_str());
        strutil::push_str(
            &mut body,
            "\n\n## Reminder\n\nTo view the all the candidates refer to the Airtable workspace: https://airtable-applicants.corp.oxide.computer\n\ncc @jessfraz @sdtuck @bcantrill",
        );
        assert(body@ =~= next_steps_body_text(*self));
        let mut labels: Vec<String> = Vec::new();
        labels.push("hiring".to_owned());
        assert(labels.deep_view() =~= seq!["hiring"@]);
        Some(
            IssueRequest {
                title: strutil::string_of(&title),
                body: strutil::string_of(&body),
                labels,
                assignee: "jessfraz".to_owned(),
            },
        )
    }

    /// The onboarding issue for a hired applicant: raised only when the
    /// status holds `Hired` and no issue exists yet.
    pub fn onboarding_issue(&self, issue_exists: bool) -> (r: Option<IssueRequest>)
        ensures
            r is Some <==> strutil::contains_seq(self.status@, "Hired"@) && !issue_exists,
            r is Some ==> {
                let req = r.unwrap();
                &&& req.title@ == "Onboarding: "@ + self.name@
                &&& req.body@ == onboarding_body_text(*self)
                &&& req.labels.deep_view() == seq!["hiring"@]
                &&& req.assignee@ == "jessfraz"@
            },
    {
        let status_cs = strutil::chars_of(self.status.as_str());
        if !strutil::contains_str(&status_cs, "Hired") {
            return None;
        }
        if issue_exists {
            return None;
        }
        let mut title: Vec<char> = Vec::new();
        strutil::push_str(&mut title, "Onboarding: ");
        strutil::push_str(&mut title, self.name.as_str());
        let mut body: Vec<char> = Vec::new();
        strutil::push_str(
            &mut body,
            "- [ ] Add to users.toml\n- [ ] Add to matrix chat\nStart Date: [START DATE (ex. Monday, January 20th, 2020)]\nPersonal Email: ",
        );
        strutil::push_str(&mut body, self.email.as_str());
        strutil::push_str(&mut body, "\nTwitter: [TWITTER HANDLE]\nGitHub: ");
        strutil::push_str(&mut body, self.github.as_str());
        strutil::push_str(&mut body, "\nPhone: ");
        strutil::push_str(&mut body, self.phone.as_str());
        strutil::push_str(&mut body, "\ncc @jessfraz @sdtuck @bcantrill");
        assert(body@ =~= onboarding_body_text(*self));
        let mut labels: Vec<String> = Vec::new();
        labels.push("hiring".to_owned());
        assert(labels.deep_view() =~= seq!["hiring"@]);
        Some(
            IssueRequest {
                title: strutil::string_of(&title),
                body: strutil::string_of(&body),
                labels,
                assignee: "jessfraz".to_owned(),
            },
        )
    }
}

impl Applicant {
    /// How long ago the application was submitted, in words.
    pub fn human_duration(&self, now_secs: i64) -> (r: String)
        requires
            -(i64::MAX as int) / 1000 <= self.fields.submitted_time - now_secs <= (i64::MAX as int) / 1000,
        ensures
            r@ == human_time_of(
                applied_duration(self.fields.submitted_time as int, now_secs as int),
            ),
    {
        self.fields.human_duration(now_secs)
    }

    /// Build the notification message for this stored applicant row: the
    /// very message the row type's builder yields for the same fields at
    /// the same instant, block for block.
    pub fn as_slack_msg(&self, now_secs: i64) -> (r: crate::slack::FormattedMessage)
        requires
            -(i64::MAX as int) / 1000 <= self.fields.submitted_time - now_secs <= (i64::MAX as int) / 1000,
        ensures
            applicant_message_shape(
                r,
                self.fields,
                human_time_of(
                    applied_duration(self.fields.submitted_time as int, now_secs as int),
                ),
            ),
    {
        self.fields.as_slack_msg(now_secs)
    }
}

} // verus!
