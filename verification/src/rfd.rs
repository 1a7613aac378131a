//! Request-for-discussion documents: the generated fields derived from
//! the number and title, and the notification line built from a stored
//! document.

use vstd::prelude::*;
use crate::strutil;

verus! {

/// A document as the import writes it: the commit time is held as seconds
/// since the epoch.
#[derive(Clone, Debug, PartialEq, Eq)]
pub struct NewRFD {
    pub number: i32,
    pub number_string: String,
    pub title: String,
    pub name: String,
    pub state: String,
    pub link: String,
    pub short_link: String,
    pub rendered_link: String,
    pub discussion: String,
    pub authors: String,
    pub html: String,
    pub content: String,
    pub sha: String,
    pub commit_date: i64,
    pub milestones: Vec<String>,
    pub relevant_components: Vec<String>,
}

/// A stored document row: the same fields under a row id.
#[derive(Clone, Debug, PartialEq, Eq)]
pub struct RFD {
    pub id: i32,
    pub fields: NewRFD,
}

/// The document number padded with zeros to at least four digits.
pub open spec fn number_string_of(number: int) -> Seq<char> {
    strutil::zero_pad_spec(strutil::dec_i64_spec(number), 4)
}

/// The full name: the number and the title.
pub open spec fn rfd_name_of(number: int, title: Seq<char>) -> Seq<char> {
    "RFD "@ + strutil::dec_i64_spec(number) + " "@ + title
}

/// The short link: a host named by the bare number.
pub open spec fn short_link_of(number: int) -> Seq<char> {
    "https://"@ + strutil::dec_i64_spec(number) + ".rfd.oxide.computer"@
}

/// The rendered link: the rendered site, by the padded number.
pub open spec fn rendered_link_of(number: int) -> Seq<char> {
    "https://rfd.shared.oxide.computer/rfd/"@ + number_string_of(number)
}

/// The branch the document's source lives on: the default branch when the
/// canonical link names it, the padded number otherwise.
pub open spec fn rfd_branch_of(number: int, link: Seq<char>) -> Seq<char> {
    if strutil::contains_seq(link, "/master/"@) {
        "master"@
    } else {
        number_string_of(number)
    }
}

/// The repository directory the document's source lives in.
pub open spec fn rfd_dir_of(number: int) -> Seq<char> {
    "/rfd/"@ + number_string_of(number)
}

impl NewRFD {
    /// Fill in every generated field: the padded number, the full name,
    /// the short link and the rendered link. The content, markup, commit
    /// and author fields are fetched and parsed elsewhere and are left
    /// alone here.
    pub fn expand_generated(&mut self)
        ensures
            final(self).number_string@ == number_string_of(old(self).number as int),
            final(self).name@ == rfd_name_of(old(self).number as int, old(self).title@),
            final(self).short_link@ == short_link_of(old(self).number as int),
            final(self).rendered_link@ == rendered_link_of(old(self).number as int),
            final(self).number == old(self).number,
            final(self).title == old(self).title,
            final(self).state == old(self).state,
            final(self).link == old(self).link,
            final(self).discussion == old(self).discussion,
            final(self).authors == old(self).authors,
            final(self).html == old(self).html,
            final(self).content == old(self).content,
            final(self).sha == old(self).sha,
            final(self).commit_date == old(self).commit_date,
            final(self).milestones == old(self).milestones,
            final(self).relevant_components == old(self).relevant_components,
    {
        let digits = strutil::i64_chars(self.number as i64);
        let padded = strutil::zero_pad(&digits, 4);
        self.number_string = strutil::string_of(&padded);

        let mut name: Vec<char> = Vec::new();
        strutil::push_str(&mut name, "RFD ");
        strutil::push_chars(&mut name, &digits);
        strutil::push_str(&mut name, " ");
        strutil::push_str(&mut name, self.title.as_str());
        assert(name@ =~= rfd_name_of(old(self).number as int, old(self).title@));
        self.name = strutil::string_of(&name);

        let mut short: Vec<char> = Vec::new();
        strutil::push_str(&mut short, "https://");
        strutil::push_chars(&mut short, &digits);
        strutil::push_str(&mut short, ".rfd.oxide.computer");
        assert(short@ =~= short_link_of(old(self).number as int));
        self.short_link = strutil::string_of(&short);

        let mut rendered: Vec<char> = Vec::new();
        strutil::push_str(&mut rendered, "https://rfd.shared.oxide.computer/rfd/");
        strutil::push_chars(&mut rendered, &padded);
        assert(rendered@ =~= rendered_link_of(old(self).number as int));
        self.rendered_link = strutil::string_of(&rendered);
    }

    /// The branch to fetch this document's source from.
    pub fn source_branch(&self) -> (r: String)
        ensures
            r@ == rfd_branch_of(self.number as int, self.link@),
    {
        let link_cs = strutil::chars_of(self.link.as_str());
        if strutil::contains_str(&link_cs, "/master/") {
            "master".to_owned()
        } else {
            let digits = strutil::i64_chars(self.number as i64);
            let padded = strutil::zero_pad(&digits, 4);
            strutil::string_of(&padded)
        }
    }

    /// The repository directory to fetch this document's source from.
    pub fn source_dir(&self) -> (r: String)
        ensures
            r@ == rfd_dir_of(self.number as int),
    {
        let digits = strutil::i64_chars(self.number as i64);
        let padded = strutil::zero_pad(&digits, 4);
        let mut v: Vec<char> = Vec::new();
        strutil::push_str(&mut v, "/rfd/");
        strutil::push_chars(&mut v, &padded);
        assert(v@ =~= rfd_dir_of(self.number as int));
        strutil::string_of(&v)
    }
}

/// The notification line for a stored document: name, state, the two
/// links, and the discussion link where one is set.
pub open spec fn rfd_slack_text(f: NewRFD) -> Seq<char> {
    let base = f.name@ + " (_*"@ + f.state@ + "*_) <"@ + f.short_link@ + "|github> <"@
        + f.rendered_link@ + "|rendered>"@;
    if f.discussion@.len() > 0 {
        base + " <"@ + f.discussion@ + "|discussion>"@
    } else {
        base
    }
}

impl RFD {
    /// Build the notification line for this document.
    pub fn as_slack_msg(&self) -> (r: String)
        ensures
            r@ == rfd_slack_text(self.fields),
    {
        let mut msg: Vec<char> = Vec::new();
        strutil::push_str(&mut msg, self.fields.name.as_str());
        strutil::push_str(&mut msg, " (_*");
        strutil::push_str(&mut msg, self.fields.state.as_str());
        strutil::push_str(&mut msg, "*_) <");
        strutil::push_str(&mut msg, self.fields.short_link.as_str());
        strutil::push_str(&mut msg, "|github> <");
        strutil::push_str(&mut msg, self.fields.rendered_link.as_str());
        strutil::push_str(&mut msg, "|rendered>");
        if !self.fields.discussion.as_str().is_empty() {
            strutil::push_str(&mut msg, " <");
            strutil::push_str(&mut msg, self.fields.discussion.as_str());
            strutil::push_str(&mut msg, "|discussion>");
        }
        assert(msg@ =~= rfd_slack_text(self.fields));
        strutil::string_of(&msg)
    }
}

} // verus!
