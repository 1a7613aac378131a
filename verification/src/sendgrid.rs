//! The mail message model: the pieces a send call is built from, and the
//! construction of the notification mails the library sends. The HTTP
//! client that carries a finished `Message` to the mail service lives
//! outside the library.

use vstd::prelude::*;
use crate::strutil;

verus! {

/// What base64-encoding a byte string yields.
/// Relies on data_encoding's standard base64 with padding being a
/// function of the input bytes alone.
pub uninterp spec fn base64_of(b: Seq<u8>) -> Seq<char>;

/// Relies on data_encoding's BASE64.encode: standard base64 with `=`
/// padding; the output is four characters for every three input bytes,
/// rounded up.
#[verifier::external_body]
fn base64_encode(c: &[u8]) -> (r: String)
    ensures
        r@ == base64_of(c@),
        r@.len() == 4 * ((c@.len() + 2) / 3),
{
    data_encoding::BASE64.encode(c)
}

/// An address with an optional display name.
#[derive(Clone, Debug, PartialEq, Eq)]
pub struct Email {
    pub email: String,
    pub name: Option<String>,
}

/// One body part of a message: its media type and the text.
#[derive(Clone, Debug, PartialEq, Eq)]
pub struct Content {
    pub content_type: String,
    pub value: String,
}

/// A file carried along with a message. The content is held
/// base64-encoded, as the mail service expects it.
#[derive(Clone, Debug, PartialEq, Eq)]
pub struct Attachment {
    pub content: String,
    pub filename: String,
    pub mime_type: Option<String>,
    pub disposition: Option<String>,
    pub content_id: Option<String>,
}

/// One delivery of a message: its recipients and per-delivery settings.
/// The keyed settings are held as key/value pairs in insertion order; a
/// later pair with the same key supersedes an earlier one.
#[derive(Clone, Debug, PartialEq, Eq)]
pub struct Personalization {
    pub to: Vec<Email>,
    pub cc: Option<Vec<Email>>,
    pub bcc: Option<Vec<Email>>,
    pub subject: Option<String>,
    pub headers: Option<Vec<(String, String)>>,
    pub substitutions: Option<Vec<(String, String)>>,
    pub custom_args: Option<Vec<(String, String)>>,
    pub dynamic_template_data: Option<Vec<(String, String)>>,
    pub send_at: Option<u64>,
}

/// A whole mail-send call.
#[derive(Clone, Debug, PartialEq, Eq)]
pub struct Message {
    pub from: Email,
    pub subject: String,
    pub personalizations: Vec<Personalization>,
    pub content: Option<Vec<Content>>,
    pub attachments: Option<Vec<Attachment>>,
    pub template_id: Option<String>,
}

impl Email {
    /// An address with empty fields.
    pub fn new() -> (r: Email)
        ensures
            r.email@ == Seq::<char>::empty(),
            r.name is None,
    {
        Email { email: String::new(), name: None }
    }

    /// Set the address.
    pub fn set_email(self, email: &str) -> (r: Email)
        ensures
            r.email@ == email@,
            r.name == self.name,
    {
        Email { email: email.to_owned(), name: self.name }
    }

    /// Set the display name.
    pub fn set_name(self, name: &str) -> (r: Email)
        ensures
            r.email == self.email,
            r.name is Some && r.name.unwrap()@ == name@,
    {
        Email { email: self.email, name: Some(name.to_owned()) }
    }
}

impl Content {
    /// A body part with empty fields.
    pub fn new() -> (r: Content)
        ensures
            r.content_type@ == Seq::<char>::empty(),
            r.value@ == Seq::<char>::empty(),
    {
        Content { content_type: String::new(), value: String::new() }
    }

    /// Set the media type.
    pub fn set_content_type(self, content_type: &str) -> (r: Content)
        ensures
            r.content_type@ == content_type@,
            r.value == self.value,
    {
        Content { content_type: content_type.to_owned(), value: self.value }
    }

    /// Set the text.
    pub fn set_value(self, value: &str) -> (r: Content)
        ensures
            r.content_type == self.content_type,
            r.value@ == value@,
    {
        Content { content_type: self.content_type, value: value.to_owned() }
    }
}

impl Attachment {
    /// An attachment with empty fields.
    pub fn new() -> (r: Attachment)
        ensures
            r.content@ == Seq::<char>::empty(),
            r.filename@ == Seq::<char>::empty(),
            r.mime_type is None,
            r.disposition is None,
            r.content_id is None,
    {
        Attachment {
            content: String::new(),
            filename: String::new(),
            mime_type: None,
            disposition: None,
            content_id: None,
        }
    }

    /// Set the raw body: it is stored base64-encoded.
    pub fn set_content(self, c: &[u8]) -> (r: Attachment)
        ensures
            r.content@ == base64_of(c@),
            r.filename == self.filename,
            r.mime_type == self.mime_type,
            r.disposition == self.disposition,
            r.content_id == self.content_id,
    {
        Attachment {
            content: base64_encode(c),
            filename: self.filename,
            mime_type: self.mime_type,
            disposition: self.disposition,
            content_id: self.content_id,
        }
    }

    /// Set the body from text that is already base64.
    pub fn set_base64_content(self, c: &str) -> (r: Attachment)
        ensures
            r.content@ == c@,
            r.filename == self.filename,
            r.mime_type == self.mime_type,
            r.disposition == self.disposition,
            r.content_id == self.content_id,
    {
        Attachment {
            content: c.to_owned(),
            filename: self.filename,
            mime_type: self.mime_type,
            disposition: self.disposition,
            content_id: self.content_id,
        }
    }

    /// Set the file name.
    pub fn set_filename(self, filename: &str) -> (r: Attachment)
        ensures
            r.content == self.content,
            r.filename@ == filename@,
            r.mime_type == self.mime_type,
            r.disposition == self.disposition,
            r.content_id == self.content_id,
    {
        Attachment {
            content: self.content,
            filename: filename.to_owned(),
            mime_type: self.mime_type,
            disposition: self.disposition,
            content_id: self.content_id,
        }
    }

    /// Set the media type; the mail service falls back to a generic one
    /// when none is set.
    pub fn set_mime_type(self, mime: &str) -> (r: Attachment)
        ensures
            r.content == self.content,
            r.filename == self.filename,
            r.mime_type is Some && r.mime_type.unwrap()@ == mime@,
            r.disposition == self.disposition,
            r.content_id == self.content_id,
    {
        Attachment {
            content: self.content,
            filename: self.filename,
            mime_type: Some(mime.to_owned()),
            disposition: self.disposition,
            content_id: self.content_id,
        }
    }
}

impl Personalization {
    /// A delivery with no recipients and no settings.
    pub fn new() -> (r: Personalization)
        ensures
            r.to@.len() == 0,
            r.cc is None,
            r.bcc is None,
            r.subject is None,
            r.headers is None,
            r.substitutions is None,
            r.custom_args is None,
            r.dynamic_template_data is None,
            r.send_at is None,
    {
        Personalization {
            to: Vec::new(),
            cc: None,
            bcc: None,
            subject: None,
            headers: None,
            substitutions: None,
            custom_args: None,
            dynamic_template_data: None,
            send_at: None,
        }
    }

    /// Add a primary recipient.
    pub fn add_to(self, to: Email) -> (r: Personalization)
        ensures
            r.to@ == self.to@.push(to),
            r.cc == self.cc,
            r.bcc == self.bcc,
            r.subject == self.subject,
            r.headers == self.headers,
            r.substitutions == self.substitutions,
            r.custom_args == self.custom_args,
            r.dynamic_template_data == self.dynamic_template_data,
            r.send_at == self.send_at,
    {
        let mut s = self;
        s.to.push(to);
        s
    }

    /// Add a carbon-copy recipient.
    pub fn add_cc(self, cc: Email) -> (r: Personalization)
        ensures
            r.cc is Some,
            r.cc.unwrap()@ == (if self.cc is Some {
                self.cc.unwrap()@
            } else {
                Seq::<Email>::empty()
            }).push(cc),
            r.to == self.to,
            r.bcc == self.bcc,
            r.subject == self.subject,
            r.headers == self.headers,
            r.substitutions == self.substitutions,
            r.custom_args == self.custom_args,
            r.dynamic_template_data == self.dynamic_template_data,
            r.send_at == self.send_at,
    {
        let mut s = self;
        let ccs = match s.cc {
            None => {
                let mut v: Vec<Email> = Vec::new();
                v.push(cc);
                assert(v@ =~= Seq::<Email>::empty().push(cc));
                v
            },
            Some(mut v) => {
                v.push(cc);
                v
            },
        };
        s.cc = Some(ccs);
        s
    }

    /// Add a blind-copy recipient.
    pub fn add_bcc(self, bcc: Email) -> (r: Personalization)
        ensures
            r.bcc is Some,
            r.bcc.unwrap()@ == (if self.bcc is Some {
                self.bcc.unwrap()@
            } else {
                Seq::<Email>::empty()
            }).push(bcc),
            r.to == self.to,
            r.cc == self.cc,
            r.subject == self.subject,
            r.headers == self.headers,
            r.substitutions == self.substitutions,
            r.custom_args == self.custom_args,
            r.dynamic_template_data == self.dynamic_template_data,
            r.send_at == self.send_at,
    {
        let mut s = self;
        let bccs = match s.bcc {
            None => {
                let mut v: Vec<Email> = Vec::new();
                v.push(bcc);
                assert(v@ =~= Seq::<Email>::empty().push(bcc));
                v
            },
            Some(mut v) => {
                v.push(bcc);
                v
            },
        };
        s.bcc = Some(bccs);
        s
    }

    /// Add header pairs; a pair added later supersedes an earlier pair
    /// with the same key.
    pub fn add_headers(self, headers: Vec<(String, String)>) -> (r: Personalization)
        ensures
            r.headers is Some,
            r.headers.unwrap()@ == (if self.headers is Some {
                self.headers.unwrap()@
            } else {
                Seq::<(String, String)>::empty()
            }) + headers@,
            r.to == self.to,
            r.cc == self.cc,
            r.bcc == self.bcc,
            r.subject == self.subject,
            r.substitutions == self.substitutions,
            r.custom_args == self.custom_args,
            r.dynamic_template_data == self.dynamic_template_data,
            r.send_at == self.send_at,
    {
        let mut s = self;
        let hs = match s.headers {
            None => {
                let mut incoming = headers;
                let mut v: Vec<(String, String)> = Vec::new();
                v.append(&mut incoming);
                assert(v@ =~= Seq::<(String, String)>::empty() + v@);
                v
            },
            Some(mut v) => {
                let mut incoming = headers;
                v.append(&mut incoming);
                v
            },
        };
        s.headers = Some(hs);
        s
    }

    /// Add template data pairs; a pair added later supersedes an earlier
    /// pair with the same key.
    pub fn add_dynamic_template_data(self, dynamic_template_data: Vec<(String, String)>) -> (r:
        Personalization)
        ensures
            r.dynamic_template_data is Some,
            r.dynamic_template_data.unwrap()@ == (if self.dynamic_template_data is Some {
                self.dynamic_template_data.unwrap()@
            } else {
                Seq::<(String, String)>::empty()
            }) + dynamic_template_data@,
            r.to == self.to,
            r.cc == self.cc,
            r.bcc == self.bcc,
            r.subject == self.subject,
            r.headers == self.headers,
            r.substitutions == self.substitutions,
            r.custom_args == self.custom_args,
            r.send_at == self.send_at,
    {
        let mut s = self;
        let ds = match s.dynamic_template_data {
            None => {
                let mut incoming = dynamic_template_data;
                let mut v: Vec<(String, String)> = Vec::new();
                v.append(&mut incoming);
                assert(v@ =~= Seq::<(String, String)>::empty() + v@);
                v
            },
            Some(mut v) => {
                let mut incoming = dynamic_template_data;
                v.append(&mut incoming);
                v
            },
        };
        s.dynamic_template_data = Some(ds);
        s
    }
}

impl Message {
    /// A message with empty fields.
    pub fn new() -> (r: Message)
        ensures
            r.from.email@ == Seq::<char>::empty(),
            r.from.name is None,
            r.subject@ == Seq::<char>::empty(),
            r.personalizations@.len() == 0,
            r.content is None,
            r.attachments is None,
            r.template_id is None,
    {
        Message {
            from: Email::new(),
            subject: String::new(),
            personalizations: Vec::new(),
            content: None,
            attachments: None,
            template_id: None,
        }
    }

    /// Set the sender.
    pub fn set_from(self, from: Email) -> (r: Message)
        ensures
            r.from == from,
            r.subject == self.subject,
            r.personalizations == self.personalizations,
            r.content == self.content,
            r.attachments == self.attachments,
            r.template_id == self.template_id,
    {
        let mut s = self;
        s.from = from;
        s
    }

    /// Set the subject.
    pub fn set_subject(self, subject: &str) -> (r: Message)
        ensures
            r.subject@ == subject@,
            r.from == self.from,
            r.personalizations == self.personalizations,
            r.content == self.content,
            r.attachments == self.attachments,
            r.template_id == self.template_id,
    {
        let mut s = self;
        s.subject = subject.to_owned();
        s
    }

    /// Set the template to render the message with.
    pub fn set_template_id(self, template_id: &str) -> (r: Message)
        ensures
            r.template_id is Some && r.template_id.unwrap()@ == template_id@,
            r.from == self.from,
            r.subject == self.subject,
            r.personalizations == self.personalizations,
            r.content == self.content,
            r.attachments == self.attachments,
    {
        let mut s = self;
        s.template_id = Some(template_id.to_owned());
        s
    }

    /// Add a body part.
    pub fn add_content(self, c: Content) -> (r: Message)
        ensures
            r.content is Some,
            r.content.unwrap()@ == (if self.content is Some {
                self.content.unwrap()@
            } else {
                Seq::<Content>::empty()
            }).push(c),
            r.from == self.from,
            r.subject == self.subject,
            r.personalizations == self.personalizations,
            r.attachments == self.attachments,
            r.template_id == self.template_id,
    {
        let mut s = self;
        let cs = match s.content {
            None => {
                let mut v: Vec<Content> = Vec::new();
                v.push(c);
                assert(v@ =~= Seq::<Content>::empty().push(c));
                v
            },
            Some(mut v) => {
                v.push(c);
                v
            },
        };
        s.content = Some(cs);
        s
    }

    /// Add a delivery.
    pub fn add_personalization(self, p: Personalization) -> (r: Message)
        ensures
            r.personalizations@ == self.personalizations@.push(p),
            r.from == self.from,
            r.subject == self.subject,
            r.content == self.content,
            r.attachments == self.attachments,
            r.template_id == self.template_id,
    {
        let mut s = self;
        s.personalizations.push(p);
        s
    }

    /// Add an attachment.
    pub fn add_attachment(self, a: Attachment) -> (r: Message)
        ensures
            r.attachments is Some,
            r.attachments.unwrap()@ == (if self.attachments is Some {
                self.attachments.unwrap()@
            } else {
                Seq::<Attachment>::empty()
            }).push(a),
            r.from == self.from,
            r.subject == self.subject,
            r.personalizations == self.personalizations,
            r.content == self.content,
            r.template_id == self.template_id,
    {
        let mut s = self;
        let av = match s.attachments {
            None => {
                let mut v: Vec<Attachment> = Vec::new();
                v.push(a);
                assert(v@ =~= Seq::<Attachment>::empty().push(a));
                v
            },
            Some(mut v) => {
                v.push(a);
                v
            },
        };
        s.attachments = Some(av);
        s
    }
}

/// An address at the given mail domain: `user@domain`.
pub open spec fn at_domain(user: Seq<char>, domain: Seq<char>) -> Seq<char> {
    user + "@"@ + domain
}

/// Build `user@domain`.
pub fn domain_address(user: &str, domain: &str) -> (r: String)
    ensures
        r@ == at_domain(user@, domain@),
{
    let mut v: Vec<char> = Vec::new();
    strutil::push_str(&mut v, user);
    strutil::push_str(&mut v, "@");
    strutil::push_str(&mut v, domain);
    assert(v@ =~= at_domain(user@, domain@));
    strutil::string_of(&v)
}

/// A plain-text message from one named address to one named recipient.
pub fn plain_message(body: &str, subject: &str, from: &str, to: &str) -> (r: Message)
    ensures
        r.from.email@ == from@,
        r.from.name is Some && r.from.name.unwrap()@ == from@,
        r.subject@ == subject@,
        r.content is Some && r.content.unwrap()@.len() == 1,
        r.content.unwrap()@[0].content_type@ == "text/plain"@,
        r.content.unwrap()@[0].value@ == body@,
        r.personalizations@.len() == 1,
        r.personalizations@[0].to@.len() == 1,
        r.personalizations@[0].to@[0].email@ == to@,
        r.personalizations@[0].to@[0].name is Some && r.personalizations@[0].to@[0].name.unwrap()@
            == to@,
        r.personalizations@[0].cc is None,
        r.personalizations@[0].bcc is None,
        r.personalizations@[0].subject is None,
        r.personalizations@[0].headers is None,
        r.personalizations@[0].substitutions is None,
        r.personalizations@[0].custom_args is None,
        r.personalizations@[0].dynamic_template_data is None,
        r.personalizations@[0].send_at is None,
        r.attachments is None,
        r.template_id is None,
{
    Message::new().set_from(Email::new().set_email(from).set_name(from)).set_subject(
        subject,
    ).add_content(Content::new().set_content_type("text/plain").set_value(body)).add_personalization(
        Personalization::new().add_to(Email::new().set_email(to).set_name(to)),
    )
}

/// The mail announcing a new user's account: sent from the admin address
/// of the domain to the recovery address, with a copy to the operator.
pub fn new_user_message(domain: &str, primary_email: &str, recovery_email: &str, body: &str) -> (r:
    Message)
    ensures
        r.from.email@ == at_domain("admin"@, domain@),
        r.from.name is Some && r.from.name.unwrap()@ == at_domain("admin"@, domain@),
        r.subject@ == "Your New Email Account: "@ + primary_email@,
        r.content is Some && r.content.unwrap()@.len() == 1,
        r.content.unwrap()@[0].content_type@ == "text/plain"@,
        r.content.unwrap()@[0].value@ == body@,
        r.personalizations@.len() == 1,
        r.personalizations@[0].to@.len() == 1,
        r.personalizations@[0].to@[0].email@ == recovery_email@,
        r.personalizations@[0].to@[0].name is Some && r.personalizations@[0].to@[0].name.unwrap()@
            == recovery_email@,
        r.personalizations@[0].cc is Some && r.personalizations@[0].cc.unwrap()@.len() == 1,
        r.personalizations@[0].cc.unwrap()@[0].email@ == at_domain("jess"@, domain@),
        r.personalizations@[0].cc.unwrap()@[0].name is None,
        r.personalizations@[0].bcc is None,
        r.personalizations@[0].subject is None,
        r.personalizations@[0].headers is None,
        r.personalizations@[0].substitutions is None,
        r.personalizations@[0].custom_args is None,
        r.personalizations@[0].dynamic_template_data is None,
        r.personalizations@[0].send_at is None,
        r.attachments is None,
        r.template_id is None,
{
    let admin_email = domain_address("admin", domain);
    let jess_email = domain_address("jess", domain);
    let mut subject: Vec<char> = Vec::new();
    strutil::push_str(&mut subject, "Your New Email Account: ");
    strutil::push_str(&mut subject, primary_email);
    let subject_s = strutil::string_of(&subject);
    Message::new().set_from(
        Email::new().set_email(admin_email.as_str()).set_name(admin_email.as_str()),
    ).set_subject(subject_s.as_str()).add_content(
        Content::new().set_content_type("text/plain").set_value(body),
    ).add_personalization(
        Personalization::new().add_to(
            Email::new().set_email(recovery_email).set_name(recovery_email),
        ).add_cc(Email::new().set_email(jess_email.as_str())),
    )
}

/// The acknowledgement mail for a received application: sent from the
/// careers address of the domain to the applicant, copy to careers.
pub fn received_application_message(domain: &str, email: &str, name: &str, body: &str) -> (r:
    Message)
    ensures
        r.from.email@ == at_domain("careers"@, domain@),
        r.from.name is Some && r.from.name.unwrap()@ == at_domain("careers"@, domain@),
        r.subject@ == "Oxide Computer Company Application Received!"@,
        r.content is Some && r.content.unwrap()@.len() == 1,
        r.content.unwrap()@[0].content_type@ == "text/plain"@,
        r.content.unwrap()@[0].value@ == body@,
        r.personalizations@.len() == 1,
        r.personalizations@[0].to@.len() == 1,
        r.personalizations@[0].to@[0].email@ == email@,
        r.personalizations@[0].to@[0].name is Some && r.personalizations@[0].to@[0].name.unwrap()@
            == name@,
        r.personalizations@[0].cc is Some && r.personalizations@[0].cc.unwrap()@.len() == 1,
        r.personalizations@[0].cc.unwrap()@[0].email@ == at_domain("careers"@, domain@),
        r.personalizations@[0].cc.unwrap()@[0].name is None,
        r.personalizations@[0].bcc is None,
        r.personalizations@[0].subject is None,
        r.personalizations@[0].headers is None,
        r.personalizations@[0].substitutions is None,
        r.personalizations@[0].custom_args is None,
        r.personalizations@[0].dynamic_template_data is None,
        r.personalizations@[0].send_at is None,
        r.attachments is None,
        r.template_id is None,
{
    let careers_email = domain_address("careers", domain);
    Message::new().set_from(
        Email::new().set_email(careers_email.as_str()).set_name(careers_email.as_str()),
    ).set_subject("Oxide Computer Company Application Received!").add_content(
        Content::new().set_content_type("text/plain").set_value(body),
    ).add_personalization(
        Personalization::new().add_to(Email::new().set_email(email).set_name(name)).add_cc(
            Email::new().set_email(careers_email.as_str()),
        ),
    )
}

/// The body of the mail announcing an upload of meeting videos.
pub open spec fn zoom_dump_body(drive_url: Seq<char>) -> Seq<char> {
    "Zoom videos have been uploaded to: "@ + drive_url + ". You might want to sort them!"@
}

/// The mail announcing that meeting videos were uploaded: sent from the
/// drive address of the domain to the operator, copy to drive.
pub fn uploaded_zoom_dump_message(domain: &str, drive_url: &str) -> (r: Message)
    ensures
        r.from.email@ == at_domain("drive"@, domain@),
        r.from.name is Some && r.from.name.unwrap()@ == at_domain("drive"@, domain@),
        r.subject@ == "New Zoom meeting video upload!"@,
        r.content is Some && r.content.unwrap()@.len() == 1,
        r.content.unwrap()@[0].content_type@ == "text/plain"@,
        r.content.unwrap()@[0].value@ == zoom_dump_body(drive_url@),
        r.personalizations@.len() == 1,
        r.personalizations@[0].to@.len() == 1,
        r.personalizations@[0].to@[0].email@ == at_domain("jess"@, domain@),
        r.personalizations@[0].to@[0].name is Some && r.personalizations@[0].to@[0].name.unwrap()@
            == at_domain("jess"@, domain@),
        r.personalizations@[0].cc is Some && r.personalizations@[0].cc.unwrap()@.len() == 1,
        r.personalizations@[0].cc.unwrap()@[0].email@ == at_domain("drive"@, domain@),
        r.personalizations@[0].cc.unwrap()@[0].name is None,
        r.personalizations@[0].bcc is None,
        r.personalizations@[0].subject is None,
        r.personalizations@[0].headers is None,
        r.personalizations@[0].substitutions is None,
        r.personalizations@[0].custom_args is None,
        r.personalizations@[0].dynamic_template_data is None,
        r.personalizations@[0].send_at is None,
        r.attachments is None,
        r.template_id is None,
{
    let drive_email = domain_address("drive", domain);
    let jess_email = domain_address("jess", domain);
    let mut body: Vec<char> = Vec::new();
    strutil::push_str(&mut body, "Zoom videos have been uploaded to: ");
    strutil::push_str(&mut body, drive_url);
    strutil::push_str(&mut body, ". You might want to sort them!");
    assert(body@ =~= zoom_dump_body(drive_url@));
    let body_s = strutil::string_of(&body);
    Message::new().set_from(
        Email::new().set_email(drive_email.as_str()).set_name(drive_email.as_str()),
    ).set_subject("New Zoom meeting video upload!").add_content(
        Content::new().set_content_type("text/plain").set_value(body_s.as_str()),
    ).add_personalization(
        Personalization::new().add_to(
            Email::new().set_email(jess_email.as_str()).set_name(jess_email.as_str()),
        ).add_cc(Email::new().set_email(drive_email.as_str())),
    )
}

/// The company-wide mail announcing a new applicant: sent from the
/// applications address of the domain to the whole company.
pub fn new_applicant_notification_message(domain: &str, name: &str, body: &str) -> (r: Message)
    ensures
        r.from.email@ == at_domain("applications"@, domain@),
        r.from.name is Some && r.from.name.unwrap()@ == at_domain("applications"@, domain@),
        r.subject@ == "New Application: "@ + name@,
        r.content is Some && r.content.unwrap()@.len() == 1,
        r.content.unwrap()@[0].content_type@ == "text/plain"@,
        r.content.unwrap()@[0].value@ == body@,
        r.personalizations@.len() == 1,
        r.personalizations@[0].to@.len() == 1,
        r.personalizations@[0].to@[0].email@ == at_domain("all"@, domain@),
        r.personalizations@[0].to@[0].name is Some && r.personalizations@[0].to@[0].name.unwrap()@
            == at_domain("all"@, domain@),
        r.personalizations@[0].cc is None,
        r.personalizations@[0].bcc is None,
        r.personalizations@[0].subject is None,
        r.personalizations@[0].headers is None,
        r.personalizations@[0].substitutions is None,
        r.personalizations@[0].custom_args is None,
        r.personalizations@[0].dynamic_template_data is None,
        r.personalizations@[0].send_at is None,
        r.attachments is None,
        r.template_id is None,
{
    let applications_email = domain_address("applications", domain);
    let all_email = domain_address("all", domain);
    let mut subject: Vec<char> = Vec::new();
    strutil::push_str(&mut subject, "New Application: ");
    strutil::push_str(&mut subject, name);
    let subject_s = strutil::string_of(&subject);
    Message::new().set_from(
        Email::new().set_email(applications_email.as_str()).set_name(applications_email.as_str()),
    ).set_subject(subject_s.as_str()).add_content(
        Content::new().set_content_type("text/plain").set_value(body),
    ).add_personalization(
        Personalization::new().add_to(
            Email::new().set_email(all_email.as_str()).set_name(all_email.as_str()),
        ),
    )
}

} // verus!
