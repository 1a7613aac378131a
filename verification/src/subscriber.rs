//! Mailing-list subscribers and the notification message built from a
//! signup.

use vstd::prelude::*;
use crate::applicant::{applied_duration, human_time_of};
use crate::slack::{
    context_block, is_context_block, is_section_block, section_block, FormattedMessage,
    MessageBlock,
};
use crate::strutil;

verus! {

/// A signup as the import writes it: the times are held as seconds since
/// the epoch.
#[derive(Clone, Debug, PartialEq, Eq)]
pub struct NewMailingListSubscriber {
    pub email: String,
    pub first_name: String,
    pub last_name: String,
    pub name: String,
    pub company: String,
    pub interest: String,
    pub wants_podcast_updates: bool,
    pub wants_newsletter: bool,
    pub wants_product_updates: bool,
    pub date_added: i64,
    pub date_optin: i64,
    pub date_last_changed: i64,
    pub notes: String,
    pub tags: Vec<String>,
    pub link_to_people: Vec<String>,
}

impl NewMailingListSubscriber {
    /// An empty signup stamped with the given time, as a fresh row starts
    /// out.
    pub fn empty_at(now_secs: i64) -> (r: Self)
        ensures
            r.email@ == Seq::<char>::empty(),
            r.first_name@ == Seq::<char>::empty(),
            r.last_name@ == Seq::<char>::empty(),
            r.name@ == Seq::<char>::empty(),
            r.company@ == Seq::<char>::empty(),
            r.interest@ == Seq::<char>::empty(),
            !r.wants_podcast_updates,
            !r.wants_newsletter,
            !r.wants_product_updates,
            r.date_added == now_secs,
            r.date_optin == now_secs,
            r.date_last_changed == now_secs,
            r.notes@ == Seq::<char>::empty(),
            r.tags@.len() == 0,
            r.link_to_people@.len() == 0,
    {
        NewMailingListSubscriber {
            email: String::new(),
            first_name: String::new(),
            last_name: String::new(),
            name: String::new(),
            company: String::new(),
            interest: String::new(),
            wants_podcast_updates: false,
            wants_newsletter: false,
            wants_product_updates: false,
            date_added: now_secs,
            date_optin: now_secs,
            date_last_changed: now_secs,
            notes: String::new(),
            tags: Vec::new(),
            link_to_people: Vec::new(),
        }
    }

    /// How long ago the signup was fired, in words.
    pub fn human_duration(&self, now_secs: i64) -> (r: String)
        requires
            -(i64::MAX as int) / 1000 <= self.date_added - now_secs <= (i64::MAX as int) / 1000,
        ensures
            r@ == human_time_of(applied_duration(self.date_added as int, now_secs as int)),
    {
        let d = self.date_added - now_secs;
        if d > 0 {
            crate::applicant::humanize_secs(-d)
        } else {
            crate::applicant::humanize_secs(d)
        }
    }
}

/// The headline of a signup notification: name and mail link.
pub open spec fn subscriber_intro_text(s: NewMailingListSubscriber) -> Seq<char> {
    "*"@ + s.name@ + "* <mailto:"@ + s.email@ + "|"@ + s.email@ + ">"@
}

/// The quoted interest line, when an interest was given.
pub open spec fn subscriber_interest_text(s: NewMailingListSubscriber) -> Seq<char> {
    "\n>"@ + s.interest@
}

/// The text of a subscription choice.
pub open spec fn bool_text(b: bool) -> Seq<char> {
    if b {
        "true"@
    } else {
        "false"@
    }
}

/// The updates line: which of the three subscriptions were chosen.
pub open spec fn subscriber_updates_text(s: NewMailingListSubscriber) -> Seq<char> {
    "podcast updates: _"@ + bool_text(s.wants_podcast_updates) + "_ | newsletter: _"@ + bool_text(
        s.wants_newsletter,
    ) + "_ | product updates: _"@ + bool_text(s.wants_product_updates) + "_"@
}

/// The context line: the company where one was given, and how long ago
/// the signup came in.
pub open spec fn subscriber_context_text(
    s: NewMailingListSubscriber,
    time_text: Seq<char>,
) -> Seq<char> {
    (if s.company@.len() > 0 {
        "works at "@ + s.company@ + " | "@
    } else {
        ""@
    }) + "subscribed to mailing list "@ + time_text
}

fn push_bool(v: &mut Vec<char>, b: bool)
    ensures
        final(v)@ == old(v)@ + bool_text(b),
{
    if b {
        strutil::push_str(v, "true");
    } else {
        strutil::push_str(v, "false");
    }
}

impl NewMailingListSubscriber {
    /// Build the notification message for this signup: the headline, the
    /// quoted interest where one was given, the chosen updates, and how
    /// long ago the signup came in.
    pub fn as_slack_msg(&self, now_secs: i64) -> (r: FormattedMessage)
        requires
            -(i64::MAX as int) / 1000 <= self.date_added - now_secs <= (i64::MAX as int) / 1000,
        ensures
            r.channel is None,
            r.blocks@.len() == (if self.interest@.len() > 0 {
                4int
            } else {
                3int
            }),
            is_section_block(r.blocks@[0], subscriber_intro_text(*self)),
            self.interest@.len() > 0 ==> is_section_block(
                r.blocks@[1],
                subscriber_interest_text(*self),
            ),
            ({
                let k = if self.interest@.len() > 0 {
                    2int
                } else {
                    1int
                };
                &&& is_context_block(r.blocks@[k], subscriber_updates_text(*self))
                &&& is_context_block(
                    r.blocks@[k + 1],
                    subscriber_context_text(
                        *self,
                        human_time_of(applied_duration(self.date_added as int, now_secs as int)),
                    ),
                )
            }),
    {
        proof {
            reveal_strlit("");
        }
        let time = self.human_duration(now_secs);

        let mut intro: Vec<char> = Vec::new();
        strutil::push_str(&mut intro, "*");
        strutil::push_str(&mut intro, self.name.as_str());
        strutil::push_str(&mut intro, "* <mailto:");
        strutil::push_str(&mut intro, self.email.as_str());
        strutil::push_str(&mut intro, "|");
        strutil::push_str(&mut intro, self.email.as_str());
        strutil::push_str(&mut intro, ">");
        assert(intro@ =~= subscriber_intro_text(*self));

        let mut updates: Vec<char> = Vec::new();
        strutil::push_str(&mut updates, "podcast updates: _");
        push_bool(&mut updates, self.wants_podcast_updates);
        strutil::push_str(&mut updates, "_ | newsletter: _");
        push_bool(&mut updates, self.wants_newsletter);
        strutil::push_str(&mut updates, "_ | product updates: _");
        push_bool(&mut updates, self.wants_product_updates);
        strutil::push_str(&mut updates, "_");
        assert(updates@ =~= subscriber_updates_text(*self));

        let mut context: Vec<char> = Vec::new();
        if !self.company.as_str().is_empty() {
            strutil::push_str(&mut context, "works at ");
            strutil::push_str(&mut context, self.company.as_str());
            strutil::push_str(&mut context, " | ");
        }
        strutil::push_str(&mut context, "subscribed to mailing list ");
        strutil::push_str(&mut context, time.as_str());
        assert(context@ =~= subscriber_context_text(
            *self,
            human_time_of(applied_duration(self.date_added as int, now_secs as int)),
        ));

        let mut blocks: Vec<MessageBlock> = Vec::new();
        blocks.push(section_block(strutil::string_of(&intro)));
        if !self.interest.as_str().is_empty() {
            let mut interest: Vec<char> = Vec::new();
            strutil::push_str(&mut interest, "\n>");
            strutil::push_str(&mut interest, self.interest.as_str());
            assert(interest@ =~= subscriber_interest_text(*self));
            blocks.push(section_block(strutil::string_of(&interest)));
        }
        blocks.push(context_block(strutil::string_of(&updates)));
        blocks.push(context_block(strutil::string_of(&context)));
        FormattedMessage { channel: None, blocks }
    }
}

} // verus!
