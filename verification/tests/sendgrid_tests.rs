//! The mail message builders and the built notification mails.

use cio::sendgrid::{
    new_user_message, plain_message, received_application_message, Attachment, Content, Email,
    Message, Personalization,
};

#[test]
fn builders_fill_the_fields() {
    let m = Message::new()
        .set_from(Email::new().set_email("a@b.c").set_name("A"))
        .set_subject("Subject")
        .set_template_id("tpl-1")
        .add_content(Content::new().set_content_type("text/plain").set_value("hi"))
        .add_personalization(
            Personalization::new()
                .add_to(Email::new().set_email("to@b.c"))
                .add_cc(Email::new().set_email("cc@b.c"))
                .add_bcc(Email::new().set_email("bcc@b.c")),
        );
    assert_eq!(m.from.email, "a@b.c");
    assert_eq!(m.from.name.as_deref(), Some("A"));
    assert_eq!(m.subject, "Subject");
    assert_eq!(m.template_id.as_deref(), Some("tpl-1"));
    let content = m.content.as_ref().unwrap();
    assert_eq!(content.len(), 1);
    assert_eq!(content[0].content_type, "text/plain");
    assert_eq!(content[0].value, "hi");
    assert_eq!(m.personalizations.len(), 1);
    let p = &m.personalizations[0];
    assert_eq!(p.to[0].email, "to@b.c");
    assert_eq!(p.cc.as_ref().unwrap()[0].email, "cc@b.c");
    assert_eq!(p.bcc.as_ref().unwrap()[0].email, "bcc@b.c");
}

#[test]
fn add_content_appends() {
    let m = Message::new()
        .add_content(Content::new().set_value("one"))
        .add_content(Content::new().set_value("two"));
    let content = m.content.as_ref().unwrap();
    assert_eq!(content.len(), 2);
    assert_eq!(content[0].value, "one");
    assert_eq!(content[1].value, "two");
}

#[test]
fn headers_and_template_data_keep_insertion_order() {
    let p = Personalization::new()
        .add_headers(vec![("X-One".to_string(), "1".to_string())])
        .add_headers(vec![("X-Two".to_string(), "2".to_string())])
        .add_dynamic_template_data(vec![("k".to_string(), "v".to_string())]);
    let hs = p.headers.as_ref().unwrap();
    assert_eq!(hs.len(), 2);
    assert_eq!(hs[0], ("X-One".to_string(), "1".to_string()));
    assert_eq!(hs[1], ("X-Two".to_string(), "2".to_string()));
    assert_eq!(
        p.dynamic_template_data.as_ref().unwrap()[0],
        ("k".to_string(), "v".to_string())
    );
}

#[test]
fn attachment_content_is_base64() {
    // the raw body goes through the base64 encoder; the already-encoded
    // setter stores the text as it is
    let a = Attachment::new().set_content(b"Hello world").set_filename("hello.txt");
    assert_eq!(a.content, "SGVsbG8gd29ybGQ=");
    assert_eq!(a.filename, "hello.txt");
    let b = Attachment::new().set_base64_content("SGVsbG8gd29ybGQ=");
    assert_eq!(b.content, "SGVsbG8gd29ybGQ=");
    let c = Attachment::new().set_content(b"");
    assert_eq!(c.content, "");
    let d = Attachment::new().set_content(&[0xbe, 0xef]).set_mime_type("application/octet-stream");
    assert_eq!(d.content, "vu8=");
    assert_eq!(d.mime_type.as_deref(), Some("application/octet-stream"));
}

#[test]
fn plain_message_wires_the_addresses() {
    let m = plain_message("body", "subj", "from@x.y", "to@x.y");
    assert_eq!(m.from.email, "from@x.y");
    assert_eq!(m.from.name.as_deref(), Some("from@x.y"));
    assert_eq!(m.subject, "subj");
    assert_eq!(m.content.as_ref().unwrap()[0].value, "body");
    assert_eq!(m.personalizations[0].to[0].email, "to@x.y");
    assert!(m.personalizations[0].cc.is_none());
    // nothing beyond the one recipient is set
    assert!(m.personalizations[0].bcc.is_none());
    assert!(m.personalizations[0].headers.is_none());
    assert!(m.personalizations[0].substitutions.is_none());
    assert!(m.personalizations[0].custom_args.is_none());
    assert!(m.personalizations[0].subject.is_none());
    assert!(m.personalizations[0].send_at.is_none());
}

#[test]
fn new_user_mail_comes_from_the_admin_address() {
    let m = new_user_message("example.com", "new@example.com", "rec@other.com", "welcome");
    assert_eq!(m.from.email, "admin@example.com");
    assert_eq!(m.subject, "Your New Email Account: new@example.com");
    assert_eq!(m.personalizations[0].to[0].email, "rec@other.com");
    assert_eq!(m.personalizations[0].cc.as_ref().unwrap()[0].email, "jess@example.com");
    assert_eq!(m.content.as_ref().unwrap()[0].value, "welcome");
}

#[test]
fn application_receipt_mail_copies_careers() {
    let m = received_application_message("example.com", "who@where.com", "Who", "thanks");
    assert_eq!(m.from.email, "careers@example.com");
    assert_eq!(m.subject, "Oxide Computer Company Application Received!");
    assert_eq!(m.personalizations[0].to[0].email, "who@where.com");
    assert_eq!(m.personalizations[0].to[0].name.as_deref(), Some("Who"));
    assert_eq!(m.personalizations[0].cc.as_ref().unwrap()[0].email, "careers@example.com");
}
