use mail_client::action::{Action, Message};
use mail_client::config::{EmailField, Script};
use mail_client::email::Email;
use mail_client::pipeline::{
    classify_output, invocation, pipeline_order, script_payload, Failure, InvocationError,
    PipelineRun, ScriptOutcome, ScriptOutput,
};

fn script(location: &str, sortkey: Option<i32>) -> Script {
    Script { interpreter: None, location: location.to_string(), sortkey, email_field: None }
}

fn answer(uid: u32, actions: Vec<Action>, stop: Option<bool>) -> Message {
    Message { uid, actions, stop }
}

fn email() -> Email {
    Email {
        sender: vec![Some("sender.bob@gmail.com".to_string())],
        subject: "My first e-mail".to_string(),
        body: "Hello world from SMTP\r\n\r\n".to_string(),
        uid: 16,
    }
}

#[test]
fn stop_answer_skips_later_scripts() {
    let mut run = PipelineRun::new(2);
    assert_eq!(run.next_script(), Some(0));
    run.record(ScriptOutcome::Decided(answer(1, vec![Action::Delete], Some(true))));
    assert_eq!(run.next_script(), None);
    assert!(run.succeeded());
    assert_eq!(run.answers.len(), 1);
    assert_eq!(run.answers[0].actions, vec![Action::Delete]);
}

#[test]
fn answer_without_stop_continues() {
    let mut run = PipelineRun::new(2);
    run.record(ScriptOutcome::Decided(answer(1, vec![Action::Move("SPAM".to_string())], Some(false))));
    assert_eq!(run.next_script(), Some(1));
    run.record(ScriptOutcome::Decided(answer(1, vec![], None)));
    assert_eq!(run.next_script(), None);
    assert_eq!(run.answers.len(), 2);
}

#[test]
fn empty_output_passes_through() {
    let mut run = PipelineRun::new(3);
    run.record(ScriptOutcome::NoDecision);
    assert_eq!(run.next_script(), Some(1));
    assert!(run.answers.is_empty());
    assert!(run.succeeded());
}

#[test]
fn failure_aborts_only_this_message() {
    let mut run = PipelineRun::new(3);
    run.record(ScriptOutcome::NoDecision);
    assert_eq!(run.next_script(), Some(1));
    run.record(ScriptOutcome::Failed(Some("boom".to_string())));
    assert_eq!(run.next_script(), None);
    assert!(!run.succeeded());
    match &run.failure {
        Some(Failure::Exit { script, stderr }) => {
            assert_eq!(*script, 1);
            assert_eq!(stderr.as_deref(), Some("boom"));
        }
        other => panic!("unexpected failure: {:?}", other),
    }
    let next = PipelineRun::new(3);
    assert_eq!(next.next_script(), Some(0));
}

#[test]
fn undecodable_answer_is_a_failure() {
    let mut run = PipelineRun::new(2);
    run.record(ScriptOutcome::Undecodable("expected value".to_string()));
    assert_eq!(run.next_script(), None);
    assert!(matches!(run.failure, Some(Failure::Undecodable { script: 0, .. })));
}

#[test]
fn empty_pipeline_runs_nothing() {
    assert_eq!(PipelineRun::new(0).next_script(), None);
}

#[test]
fn order_by_key_then_unkeyed_in_file_order() {
    let scripts = vec![
        script("a", None),
        script("b", Some(5)),
        script("c", Some(-1)),
        script("d", None),
        script("e", Some(5)),
    ];
    assert_eq!(pipeline_order(&scripts), vec![2, 1, 4, 0, 3]);
    assert_eq!(pipeline_order(&vec![]), Vec::<usize>::new());
}

#[test]
fn payload_follows_the_field() {
    let e = email();
    let json = "{\"uid\":16}";
    assert_eq!(script_payload(&e, json, None), json);
    assert_eq!(script_payload(&e, json, Some(EmailField::SUBJECT)), "My first e-mail");
    assert_eq!(script_payload(&e, json, Some(EmailField::BODY)), "Hello world from SMTP\r\n\r\n");
    assert_eq!(script_payload(&e, json, Some(EmailField::UID)), "16");
}

#[test]
fn invocation_with_and_without_interpreter() {
    let direct = invocation(&script("./filter.sh", None), None, "x".to_string()).unwrap();
    assert_eq!(direct.program, "./filter.sh");
    assert_eq!(direct.args, vec!["x".to_string()]);

    let mut py = script("filter.py", None);
    py.interpreter = Some("python3".to_string());
    let inv = invocation(&py, Some("/usr/bin/python3".to_string()), "x".to_string()).unwrap();
    assert_eq!(inv.program, "/usr/bin/python3");
    assert_eq!(inv.args, vec!["filter.py".to_string(), "x".to_string()]);
    assert_eq!(invocation(&py, None, "x".to_string()).err(), Some(InvocationError::InterpreterNotFound));
}

#[test]
fn output_classification() {
    match classify_output(false, b"ignored".to_vec(), b"bad input".to_vec()) {
        ScriptOutput::Failed(Some(t)) => assert_eq!(t, "bad input"),
        other => panic!("unexpected: {:?}", other),
    }
    assert!(matches!(classify_output(false, vec![], vec![0xff]), ScriptOutput::Failed(None)));
    assert!(matches!(classify_output(true, vec![], b"noise".to_vec()), ScriptOutput::NoDecision));
    match classify_output(true, b"{\"uid\":1}".to_vec(), vec![]) {
        ScriptOutput::Answer(t) => assert_eq!(t, "{\"uid\":1}"),
        other => panic!("unexpected: {:?}", other),
    }
    assert!(matches!(classify_output(true, vec![0xc3, 0x28], vec![]), ScriptOutput::NotText));
}
