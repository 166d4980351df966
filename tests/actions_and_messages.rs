use mail_client::action::{commands_for, plan_actions, Action, ActionError, MailCommand, Message};
use mail_client::config::{Args, Config, Connection};
use mail_client::email::{Address, Email, EmailError, Envelope, Fetched, RawAddress};

#[test]
fn delete_flags_then_purges() {
    assert_eq!(
        commands_for(7, &Action::Delete, true).unwrap(),
        vec![MailCommand::SetDeleted(7), MailCommand::Expunge(7)]
    );
}

#[test]
fn move_uses_server_move_or_copy_and_delete() {
    let mv = Action::Move("movetest".to_string());
    assert_eq!(commands_for(3, &mv, true).unwrap(), vec![MailCommand::MoveTo(3, "movetest".to_string())]);
    assert_eq!(
        commands_for(3, &mv, false).unwrap(),
        vec![
            MailCommand::CopyTo(3, "movetest".to_string()),
            MailCommand::SetDeleted(3),
            MailCommand::Expunge(3),
        ]
    );
}

#[test]
fn label_fails_loudly() {
    assert_eq!(commands_for(3, &Action::Label, true), Err(ActionError::LabelUnsupported));
    let msg = Message { uid: 3, actions: vec![Action::Delete, Action::Label], stop: None };
    assert_eq!(plan_actions(&msg, true), Err(ActionError::LabelUnsupported));
}

#[test]
fn plan_covers_every_action_in_order() {
    let msg = Message {
        uid: 9,
        actions: vec![Action::Move("SPAM".to_string()), Action::Delete],
        stop: Some(true),
    };
    assert_eq!(
        plan_actions(&msg, true).unwrap(),
        vec![
            MailCommand::MoveTo(9, "SPAM".to_string()),
            MailCommand::SetDeleted(9),
            MailCommand::Expunge(9),
        ]
    );
    let none = Message { uid: 9, actions: vec![], stop: None };
    assert!(plan_actions(&none, false).unwrap().is_empty());
}

#[test]
fn message_equality_ignores_actions() {
    let a = Message { uid: 69, actions: vec![Action::Delete], stop: None };
    let b = Message { uid: 69, actions: vec![], stop: None };
    let c = Message { uid: 69, actions: vec![Action::Delete], stop: Some(false) };
    assert_eq!(a, b);
    assert_ne!(a, c);
    assert!(a.actions != b.actions);
    assert_eq!(Action::Move("x".to_string()), Action::Move("x".to_string()));
    assert_ne!(Action::Move("x".to_string()), Action::Move("y".to_string()));
}

fn raw(mailbox: &str, host: &str) -> RawAddress {
    RawAddress {
        name: Some(b"Bob".to_vec()),
        adl: None,
        mailbox: Some(mailbox.as_bytes().to_vec()),
        host: Some(host.as_bytes().to_vec()),
    }
}

fn envelope() -> Envelope {
    Envelope {
        from: Some(vec![
            raw("sender.bob", "gmail.com"),
            RawAddress { name: None, adl: None, mailbox: Some(b"x".to_vec()), host: None },
        ]),
        subject: Some(b"My first e-mail".to_vec()),
    }
}

fn body() -> Option<String> {
    Some("Hello world from SMTP\r\n\r\n".to_string())
}

const MULTIPART: &str = "Subject: My first e-mail\r\n\
Content-Type: multipart/alternative; boundary=\"XYZ\"\r\n\
\r\n\
--XYZ\r\n\
Content-Type: text/plain; charset=utf-8\r\n\
\r\n\
Hello world from SMTP\r\n\
--XYZ--\r\n";

#[test]
fn email_from_parts() {
    let email: Email = Email::from_parts(Some(16), Some(envelope()), body()).unwrap();
    assert_eq!(email.subject, "My first e-mail");
    assert_eq!(email.sender[0].as_ref().unwrap(), "sender.bob@gmail.com");
    assert_eq!(email.sender[1], None);
    assert_eq!(email.body, "Hello world from SMTP\r\n\r\n");
    assert_eq!(email.uid, 16);
}

#[test]
fn email_errors_in_order() {
    assert_eq!(Email::from_parts(None, None, None).err(), Some(EmailError::NoEnvelope));
    let mut env = envelope();
    env.from = None;
    assert_eq!(Email::from_parts(None, Some(env), None).err(), Some(EmailError::NoSender));
    let mut env = envelope();
    env.from.as_mut().unwrap()[1].name = Some(vec![0xff]);
    assert_eq!(Email::from_parts(Some(16), Some(env), body()).err(), Some(EmailError::BadAddress));
    let mut env = envelope();
    env.subject = None;
    assert_eq!(Email::from_parts(Some(16), Some(env), body()).err(), Some(EmailError::NoSubject));
    let mut env = envelope();
    env.subject = Some(vec![0xc3, 0x28]);
    assert_eq!(Email::from_parts(Some(16), Some(env), body()).err(), Some(EmailError::BadSubject));
    assert_eq!(Email::from_parts(None, Some(envelope()), body()).err(), Some(EmailError::NoUid));
    assert_eq!(Email::from_parts(Some(16), Some(envelope()), None).err(), Some(EmailError::NoBody));
}

#[test]
fn email_from_fetch_decodes_the_first_part() {
    let fetched = Fetched { uid: Some(16), envelope: Some(envelope()), body: Some(MULTIPART.as_bytes().to_vec()) };
    let email = Email::from_fetch(fetched).unwrap();
    assert!(email.body.starts_with("Hello world from SMTP"));
    assert!(!email.body.contains("Content-Type"));
    assert_eq!(email.uid, 16);
    assert_eq!(email.sender[0].as_deref(), Some("sender.bob@gmail.com"));
}

#[test]
fn email_from_fetch_needs_a_multipart_body() {
    let single = b"Subject: hi\r\n\r\nplain body\r\n".to_vec();
    let fetched = Fetched { uid: Some(16), envelope: Some(envelope()), body: Some(single) };
    assert_eq!(Email::from_fetch(fetched).err(), Some(EmailError::NoBody));
    let fetched = Fetched { uid: Some(16), envelope: Some(envelope()), body: None };
    assert_eq!(Email::from_fetch(fetched).err(), Some(EmailError::NoBody));
    let fetched = Fetched { uid: None, envelope: Some(envelope()), body: Some(MULTIPART.as_bytes().to_vec()) };
    assert_eq!(Email::from_fetch(fetched).err(), Some(EmailError::NoUid));
}

#[test]
fn address_forms() {
    let a = Address::from_imap_address(raw("jane", "example.org")).unwrap();
    assert_eq!(a.name.as_deref(), Some("Bob"));
    assert_eq!(a.to_simple().as_deref(), Some("jane@example.org"));
    let no_host = Address { name: None, adl: None, mailbox: Some("jane".to_string()), host: None };
    assert_eq!(no_host.to_simple(), None);
    let bad = RawAddress { name: None, adl: Some(vec![0x80]), mailbox: None, host: None };
    assert_eq!(Address::from_imap_address(bad).err(), Some(EmailError::BadAddress));
    let utf = Address::from_imap_address(raw("jürgen", "bücher.de")).unwrap();
    assert_eq!(utf.to_simple().as_deref(), Some("jürgen@bücher.de"));
}

#[test]
fn command_line_overrides_connection() {
    let config = Config {
        connection: Connection {
            hostname: "127.0.0.1".to_string(),
            port: 3993,
            username: "test@greenmail.com".to_string(),
            password: "test@greenmail.com".to_string(),
        },
        imap_options: None,
        scripts: None,
    };
    let args = Args {
        catch_up: false,
        no_catch_up_write: false,
        config: None,
        no_idle: false,
        hostname: Some("imap.example.org".to_string()),
        port: None,
        username: None,
        password: Some("other".to_string()),
        forever: None,
    };
    let c = args.overwrite_config(config);
    assert_eq!(c.connection.hostname, "imap.example.org");
    assert_eq!(c.connection.port, 3993);
    assert_eq!(c.connection.username, "test@greenmail.com");
    assert_eq!(c.connection.password, "other");
    assert!(c.scripts.is_none());
}
