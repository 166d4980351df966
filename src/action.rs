//! Dispositions that filter scripts ask for, and the mailbox commands that
//! carry them out.
use vstd::prelude::*;

verus! {

/// A disposition of one message.
#[derive(Debug)]
pub enum Action {
    /// Move to the named mailbox.
    Move(String),
    Delete,
    /// Not supported: servers offer no portable way to label a message.
    Label,
}

impl PartialEq for Action {
    fn eq(&self, other: &Action) -> (r: bool) {
        match self {
            Action::Move(a) => match other {
                Action::Move(b) => a.eq(b),
                _ => false,
            },
            Action::Delete => match other {
                Action::Delete => true,
                _ => false,
            },
            Action::Label => match other {
                Action::Label => true,
                _ => false,
            },
        }
    }
}

impl vstd::std_specs::cmp::PartialEqSpecImpl for Action {
    open spec fn obeys_eq_spec() -> bool {
        true
    }

    open spec fn eq_spec(&self, other: &Action) -> bool {
        match (*self, *other) {
            (Action::Move(a), Action::Move(b)) => a@ == b@,
            (Action::Delete, Action::Delete) => true,
            (Action::Label, Action::Label) => true,
            _ => false,
        }
    }
}

impl Eq for Action {

}

/// What a filter script answers about one message.
#[derive(Debug)]
pub struct Message {
    pub uid: u32,
    pub actions: Vec<Action>,
    /// `Some(true)`: run no later script of the pipeline on this message.
    pub stop: Option<bool>,
}

/// Two answers are equal when they agree on the UID and on `stop`; the
/// action lists are not compared.
impl PartialEq for Message {
    fn eq(&self, other: &Message) -> (r: bool) {
        self.uid == other.uid && self.stop == other.stop
    }
}

impl vstd::std_specs::cmp::PartialEqSpecImpl for Message {
    open spec fn obeys_eq_spec() -> bool {
        true
    }

    open spec fn eq_spec(&self, other: &Message) -> bool {
        self.uid == other.uid && self.stop == other.stop
    }
}

impl Eq for Message {

}

impl Message {
    /// Whether the answer ends the pipeline for this message.
    pub open spec fn stops(self) -> bool {
        self.stop == Some(true)
    }

    pub fn is_stop(&self) -> (r: bool)
        ensures
            r == self.stops(),
    {
        match self.stop {
            Some(b) => b,
            None => false,
        }
    }
}

/// A primitive of the mailbox client.
#[derive(Debug, PartialEq, Eq)]
pub enum MailCommand {
    /// Set the deletion flag on the UID.
    SetDeleted(u32),
    /// Purge the UID if it is flagged deleted.
    Expunge(u32),
    /// Server-side move to the named mailbox.
    MoveTo(u32, String),
    /// Copy to the named mailbox.
    CopyTo(u32, String),
}

#[derive(Debug, Clone, Copy, PartialEq, Eq, Structural)]
pub enum ActionError {
    /// A `Label` action was asked for; it is not supported.
    LabelUnsupported,
}

impl ActionError {
    pub fn message(&self) -> (r: &'static str) {
        "labels are not supported"
    }
}

/// The commands that carry out `action` on `uid`. A delete flags the
/// message and purges it; a move is a server-side move where the server
/// offers one, else a copy followed by a delete. Neither learns whether
/// the UID existed.
pub open spec fn commands_of(uid: u32, action: Action, server_move: bool) -> Seq<MailCommand> {
    match action {
        Action::Delete => seq![MailCommand::SetDeleted(uid), MailCommand::Expunge(uid)],
        Action::Move(dest) => if server_move {
            seq![MailCommand::MoveTo(uid, dest)]
        } else {
            seq![
                MailCommand::CopyTo(uid, dest),
                MailCommand::SetDeleted(uid),
                MailCommand::Expunge(uid),
            ]
        },
        Action::Label => Seq::empty(),
    }
}

/// The commands for each action in turn.
pub open spec fn commands_of_all(uid: u32, actions: Seq<Action>, server_move: bool) -> Seq<
    MailCommand,
>
    decreases actions.len(),
{
    if actions.len() == 0 {
        Seq::empty()
    } else {
        commands_of_all(uid, actions.drop_last(), server_move) + commands_of(
            uid,
            actions.last(),
            server_move,
        )
    }
}

pub open spec fn has_label(actions: Seq<Action>) -> bool {
    exists|i: int| 0 <= i < actions.len() && #[trigger] actions[i] is Label
}

/// The commands for one action; a `Label` fails.
pub fn commands_for(uid: u32, action: &Action, server_move: bool) -> (r: Result<
    Vec<MailCommand>,
    ActionError,
>)
    ensures
        r is Err <==> *action is Label,
        r is Err ==> r == Err::<Vec<MailCommand>, ActionError>(ActionError::LabelUnsupported),
        r matches Ok(cmds) ==> cmds@ == commands_of(uid, *action, server_move),
{
    match action {
        Action::Delete => Ok(vec![MailCommand::SetDeleted(uid), MailCommand::Expunge(uid)]),
        Action::Move(dest) => {
            if server_move {
                let v = vec![MailCommand::MoveTo(uid, dest.clone())];
                assert(v@ =~= commands_of(uid, *action, server_move));
                Ok(v)
            } else {
                let v = vec![
                    MailCommand::CopyTo(uid, dest.clone()),
                    MailCommand::SetDeleted(uid),
                    MailCommand::Expunge(uid),
                ];
                assert(v@ =~= commands_of(uid, *action, server_move));
                Ok(v)
            }
        },
        Action::Label => Err(ActionError::LabelUnsupported),
    }
}

/// The commands that carry out every action of an answer, in order. An
/// answer that holds a `Label` is refused whole, before any command runs.
pub fn plan_actions(msg: &Message, server_move: bool) -> (r: Result<Vec<MailCommand>, ActionError>)
    ensures
        r is Err <==> has_label(msg.actions@),
        r is Err ==> r == Err::<Vec<MailCommand>, ActionError>(ActionError::LabelUnsupported),
        r matches Ok(cmds) ==> cmds@ == commands_of_all(msg.uid, msg.actions@, server_move),
{
    let n = msg.actions.len();
    let mut out: Vec<MailCommand> = Vec::new();
    let mut i: usize = 0;
    while i < n
        invariant
            n == msg.actions@.len(),
            0 <= i <= n,
            forall|j: int| 0 <= j < i ==> !(#[trigger] msg.actions@[j] is Label),
            out@ == commands_of_all(msg.uid, msg.actions@.subrange(0, i as int), server_move),
        decreases n - i,
    {
        match commands_for(msg.uid, &msg.actions[i], server_move) {
            Ok(mut cmds) => {
                out.append(&mut cmds);
                let ghost pre = msg.actions@.subrange(0, i + 1);
                assert(pre.drop_last() =~= msg.actions@.subrange(0, i as int));
                i = i + 1;
            },
            Err(e) => {
                return Err(e);
            },
        }
    }
    assert(msg.actions@.subrange(0, n as int) =~= msg.actions@);
    Ok(out)
}

} // verus!
