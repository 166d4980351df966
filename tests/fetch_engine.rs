use mail_client::config::Args;
use mail_client::fetch::{
    catch_up, next_range_start, plan_batch, single_uid_set, uid_range_text, Cursor, Emission,
    FetchError, Watch, WatchEvent, WatchStep, WatcherEnd,
};

fn args(no_write: bool) -> Args {
    Args {
        catch_up: true,
        no_catch_up_write: no_write,
        config: None,
        no_idle: true,
        hostname: None,
        port: None,
        username: None,
        password: None,
        forever: None,
    }
}

fn uids(es: &[Emission]) -> Vec<u32> {
    es.iter().map(|e| e.uid).collect()
}

/// A mailbox as a list of UIDs, answering the open range `start:*` the way
/// a server does: everything from `start` on, or else the newest message.
fn fetch_range(mailbox: &[u32], start: u32) -> Vec<Option<u32>> {
    let hits: Vec<Option<u32>> = mailbox.iter().filter(|u| **u >= start).map(|u| Some(*u)).collect();
    if hits.is_empty() {
        mailbox.iter().max().map(|u| vec![Some(*u)]).unwrap_or_default()
    } else {
        hits
    }
}

#[test]
fn catch_up_emits_exactly_the_new_uids() {
    let mailbox = [1, 2, 3, 4, 5];
    let start = next_range_start(2).unwrap();
    assert_eq!(start, 3);
    let (es, checkpoint) = catch_up(Some(2), Some(fetch_range(&mailbox, start)), &args(false)).unwrap();
    assert_eq!(uids(&es), vec![3, 4, 5]);
    assert_eq!(checkpoint, Some(5));
    let writes: Vec<Option<u32>> = es.iter().map(|e| e.checkpoint).collect();
    assert_eq!(writes, vec![Some(3), Some(4), Some(5)]);
}

#[test]
fn catch_up_without_checkpoint_is_a_no_op() {
    let (es, checkpoint) = catch_up(None, Some(vec![Some(1), Some(2)]), &args(false)).unwrap();
    assert!(es.is_empty());
    assert_eq!(checkpoint, None);
}

#[test]
fn catch_up_transport_failure_counts_as_empty() {
    let (es, checkpoint) = catch_up(Some(7), None, &args(false)).unwrap();
    assert!(es.is_empty());
    assert_eq!(checkpoint, Some(7));
}

#[test]
fn catch_up_without_writes_keeps_the_checkpoint() {
    let (es, checkpoint) = catch_up(Some(2), Some(vec![Some(3), Some(4)]), &args(true)).unwrap();
    assert_eq!(uids(&es), vec![3, 4]);
    assert!(es.iter().all(|e| e.checkpoint.is_none()));
    assert_eq!(checkpoint, Some(2));
}

#[test]
fn catch_up_refuses_an_entry_without_uid() {
    let r = catch_up(Some(2), Some(vec![Some(3), None]), &args(false));
    assert_eq!(r.err(), Some(FetchError::MissingUid));
}

#[test]
fn test_fetcher_test_catchup() {
    // The server is simulated: each round fetches `checkpoint+1:*`.
    let mut mailbox: Vec<u32> = Vec::new();
    let mut next_uid = 1;
    let mut checkpoint = Some(0);
    let round = |mailbox: &Vec<u32>, checkpoint: &mut Option<u32>| -> usize {
        let start = next_range_start(checkpoint.unwrap()).unwrap();
        let (es, c) = catch_up(*checkpoint, Some(fetch_range(mailbox, start)), &args(false)).unwrap();
        *checkpoint = c;
        es.len()
    };
    assert_eq!(0, round(&mailbox, &mut checkpoint));
    mailbox.push(next_uid);
    next_uid += 1;
    assert_eq!(1, round(&mailbox, &mut checkpoint));
    for _ in 0..3 {
        mailbox.push(next_uid);
        next_uid += 1;
    }
    assert_eq!(3, round(&mailbox, &mut checkpoint));
    for _ in 0..2 {
        mailbox.push(next_uid);
        next_uid += 1;
    }
    assert_eq!(2, round(&mailbox, &mut checkpoint));
    assert_eq!(0, round(&mailbox, &mut checkpoint));
}

#[test]
fn live_batch_skips_the_repeat() {
    let mut cursor = Cursor::new(Some(5), None, true);
    let es = cursor.absorb(&vec![Some(5)]).unwrap();
    assert!(es.is_empty());
    assert_eq!(cursor.last_seen, 5);
    let es = cursor.absorb(&vec![Some(5), Some(6)]).unwrap();
    assert_eq!(uids(&es), vec![6]);
    assert_eq!(cursor.last_seen, 6);
    assert_eq!(cursor.checkpoint, Some(6));
}

#[test]
fn plan_sorts_dedups_and_drops_old_uids() {
    let batch = vec![Some(9), Some(4), Some(7), Some(9), Some(3), Some(8)];
    let order = plan_batch(&batch, 4).unwrap();
    assert_eq!(order, vec![2, 5, 0]);
    assert_eq!(plan_batch(&vec![], 4).unwrap(), Vec::<usize>::new());
    assert_eq!(plan_batch(&vec![Some(1), None], 0), Err(FetchError::MissingUid));
}

#[test]
fn checkpoint_never_moves_back() {
    let mut cursor = Cursor::new(Some(10), None, true);
    let es = cursor.absorb(&vec![Some(4), Some(10), Some(12), Some(11)]).unwrap();
    assert_eq!(uids(&es), vec![11, 12]);
    assert_eq!(cursor.checkpoint, Some(12));
    let es = cursor.absorb(&vec![Some(3)]).unwrap();
    assert!(es.is_empty());
    assert_eq!(cursor.checkpoint, Some(12));
}

#[test]
fn cursor_starts_from_checkpoint_newest_or_zero() {
    assert_eq!(Cursor::new(Some(3), Some(9), true).last_seen, 3);
    assert_eq!(Cursor::new(None, Some(9), true).last_seen, 9);
    let empty = Cursor::new(None, None, true);
    assert_eq!(empty.last_seen, 0);
    assert_eq!(empty.checkpoint, None);
}

#[test]
fn record_emitted_reports_the_write() {
    let mut c = Cursor::new(Some(1), None, true);
    assert_eq!(c.record_emitted(4), Some(4));
    let mut d = Cursor::new(Some(1), None, false);
    assert_eq!(d.record_emitted(4), None);
    assert_eq!(d.last_seen, 4);
    assert_eq!(d.checkpoint, Some(1));
}

#[test]
fn ranges_and_uid_sets() {
    assert_eq!(next_range_start(u32::MAX), None);
    assert_eq!(next_range_start(0), Some(1));
    assert_eq!(uid_range_text(3), "3:*");
    assert_eq!(uid_range_text(1234567), "1234567:*");
    assert_eq!(single_uid_set(0), "*");
    assert_eq!(single_uid_set(16), "16");
}

#[test]
fn watch_loop_decisions() {
    let mut w = Watch::start(Some(41), Some(99), true);
    assert_eq!(w.cursor.last_seen, 41);
    assert_eq!(w.on_event(WatchEvent::TimedOut), WatchStep::Wait);
    assert_eq!(w.on_event(WatchEvent::NewMail), WatchStep::Fetch(42));
    assert_eq!(w.watcher_ended(true), WatcherEnd::Failed);
    assert_eq!(w.on_event(WatchEvent::Interrupted), WatchStep::LogOut);
    assert!(w.cancelled);
    assert_eq!(w.on_event(WatchEvent::NewMail), WatchStep::LogOut);
    assert_eq!(w.watcher_ended(true), WatcherEnd::Expected);
    assert_eq!(w.watcher_ended(false), WatcherEnd::Finished);
}

#[test]
fn watch_bootstraps_from_newest_without_checkpoint() {
    let mut w = Watch::start(None, Some(17), true);
    assert_eq!(w.on_event(WatchEvent::NewMail), WatchStep::Fetch(18));
    let mut empty = Watch::start(None, None, true);
    assert_eq!(empty.on_event(WatchEvent::NewMail), WatchStep::Fetch(1));
    let mut top = Watch::start(Some(u32::MAX), None, true);
    assert_eq!(top.on_event(WatchEvent::NewMail), WatchStep::Wait);
}

#[test]
fn writes_off_emit_the_same() {
    let batch = vec![Some(9), Some(3), Some(7), Some(9), Some(8)];
    let (on, c_on) = catch_up(Some(3), Some(batch.clone()), &args(false)).unwrap();
    let (off, c_off) = catch_up(Some(3), Some(batch), &args(true)).unwrap();
    let idx = |es: &[Emission]| es.iter().map(|e| e.index).collect::<Vec<_>>();
    assert_eq!(idx(&on), idx(&off));
    assert_eq!(uids(&on), uids(&off));
    assert_eq!(uids(&on), vec![7, 8, 9]);
    assert_eq!(c_on, Some(9));
    assert_eq!(c_off, Some(3));
}
