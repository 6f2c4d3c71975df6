use matrix_commander_ng::batch::{parse_rooms, parse_users, Batch, BatchStep, RoomAction};
use matrix_commander_ng::delivery::{Cargo, Delivery, DeliveryStep};
use matrix_commander_ng::worklist::{Job, Worklist};
use matrix_commander_ng::Error;

fn list(parts: &[&str]) -> Vec<String> {
    parts.iter().map(|p| p.to_string()).collect()
}

fn shown(step: &BatchStep) -> String {
    match step {
        BatchStep::OpenRoom(r) => format!("open {r}"),
        BatchStep::Act(r) => format!("act {r}"),
        BatchStep::ActOnUser(r, u) => format!("act {r} {u}"),
        BatchStep::Finished => "finished".to_string(),
    }
}

fn run(batch: &mut Batch, outcomes: &[bool]) -> Vec<String> {
    let mut steps = vec![shown(&batch.next_step())];
    for ok in outcomes {
        batch.report(*ok);
        steps.push(shown(&batch.next_step()));
    }
    steps
}

#[test]
fn leaving_rooms() {
    let mut b = Batch::start(RoomAction::Leave, &list(&["!a:s", "!b:s"]), &vec![]).unwrap();
    assert_eq!(
        run(&mut b, &[true, true, true, true]),
        list(&["open !a:s", "act !a:s", "open !b:s", "act !b:s", "finished"])
    );
    assert!(b.finish().is_ok());
    // A report after the end changes nothing.
    b.report(false);
    assert!(b.finish().is_ok());
}

#[test]
fn a_room_that_is_not_known_is_left_out() {
    let mut b = Batch::start(RoomAction::Forget, &list(&["!a:s", "!b:s"]), &vec![]).unwrap();
    assert_eq!(
        run(&mut b, &[false, true, true]),
        list(&["open !a:s", "open !b:s", "act !b:s", "finished"])
    );
    assert!(matches!(b.finish(), Err(Error::ForgetRoomFailed)));
}

#[test]
fn rooms_are_joined_without_being_known() {
    let mut b = Batch::start(RoomAction::Join, &list(&["!a:s"]), &vec![]).unwrap();
    assert_eq!(run(&mut b, &[true]), list(&["act !a:s", "finished"]));
    assert!(b.finish().is_ok());
}

#[test]
fn users_are_invited_to_each_room() {
    let rooms = list(&["!a:s", "\\!b:s"]);
    let users = list(&["@u:s", "\\@v:s"]);
    let mut b = Batch::start(RoomAction::Invite, &rooms, &users).unwrap();
    assert_eq!(
        run(&mut b, &[true, true, false, true, true, true]),
        list(&[
            "open !a:s",
            "act !a:s @u:s",
            "act !a:s @v:s",
            "open !b:s",
            "act !b:s @u:s",
            "act !b:s @v:s",
            "finished",
        ])
    );
    assert!(matches!(b.finish(), Err(Error::InviteRoomFailed)));
}

#[test]
fn bans_do_not_unescape_user_ids() {
    let rooms = list(&["!a:s"]);
    assert!(matches!(
        Batch::start(RoomAction::Ban, &rooms, &list(&["\\@u:s"])),
        Err(Error::BanRoomFailed)
    ));
    assert!(Batch::start(RoomAction::Kick, &rooms, &list(&["\\@u:s"])).is_ok());
}

#[test]
fn an_invalid_id_fails_the_batch_in_the_end() {
    let mut b = Batch::start(RoomAction::GetState, &list(&["bad", "!a:s"]), &vec![]).unwrap();
    assert_eq!(run(&mut b, &[true, true]), list(&["open !a:s", "act !a:s", "finished"]));
    assert!(matches!(b.finish(), Err(Error::RoomGetStateFailed)));
}

#[test]
fn nothing_to_do() {
    let b = Batch::start(RoomAction::Leave, &vec![], &vec![]).unwrap();
    assert_eq!(shown(&b.next_step()), "finished");
    assert!(b.finish().is_ok());
    let b = Batch::start(RoomAction::Leave, &list(&["bad"]), &vec![]).unwrap();
    assert!(matches!(b.finish(), Err(Error::LeaveRoomFailed)));
    let bad = list(&["bad"]);
    let none = vec![];
    let error = |a: RoomAction| Batch::start(a, &bad, &none).unwrap_err();
    assert!(matches!(error(RoomAction::Join), Error::JoinRoomFailed));
    assert!(matches!(error(RoomAction::Invite), Error::InviteRoomFailed));
    assert!(matches!(error(RoomAction::Ban), Error::BanRoomFailed));
    assert!(matches!(error(RoomAction::Unban), Error::UnbanRoomFailed));
    assert!(matches!(error(RoomAction::Kick), Error::KickRoomFailed));
    assert!(matches!(error(RoomAction::GetVisibility), Error::RoomGetVisibilityFailed));
    assert!(matches!(error(RoomAction::GetState), Error::RoomGetStateFailed));
    assert!(matches!(error(RoomAction::JoinedMembers), Error::JoinedMembersFailed));
    assert!(matches!(error(RoomAction::EnableEncryption), Error::EnableEncryptionFailed));
}

#[test]
fn ids_on_the_command_line() {
    let (rooms, bad) = parse_rooms(&list(&["!a:s", "#b:s", "\\!c:s"]));
    assert_eq!(rooms, list(&["!a:s", "!c:s"]));
    assert!(bad);
    let (users, bad) = parse_users(&list(&["@a:s", "\\@b:s"]), "@");
    assert_eq!(users, list(&["@a:s", "@b:s"]));
    assert!(!bad);
    let (users, bad) = parse_users(&list(&["a"]), "@");
    assert!(users.is_empty() && bad);
}

fn delivered(d: &mut Delivery, outcomes: &[bool]) -> Vec<String> {
    let show = |d: &Delivery| match d.next_step() {
        DeliveryStep::OpenRoom(r) => format!("open {r}"),
        DeliveryStep::Send(r, i) => format!("send {r} {i}"),
        DeliveryStep::Finished => "finished".to_string(),
    };
    assert!(d.has_valid_room());
    let mut steps = vec![show(d)];
    for ok in outcomes {
        d.report(*ok);
        assert!(d.has_valid_room());
        steps.push(show(d));
    }
    steps
}

#[test]
fn every_message_goes_to_every_room() {
    let mut d = Delivery::start(Cargo::Messages, &list(&["!a:s", "!b:s"]), 2).unwrap();
    assert_eq!(
        delivered(&mut d, &[true, true, true, true, true, true]),
        list(&[
            "open !a:s",
            "send !a:s 0",
            "send !a:s 1",
            "open !b:s",
            "send !b:s 0",
            "send !b:s 1",
            "finished",
        ])
    );
    assert!(d.finish().is_ok());
}

#[test]
fn a_message_that_is_not_sent_is_an_error() {
    let mut d = Delivery::start(Cargo::Messages, &list(&["!a:s"]), 2).unwrap();
    delivered(&mut d, &[true, false, true]);
    assert!(matches!(d.finish(), Err(Error::SendFailed)));
    let mut d = Delivery::start(Cargo::Events, &list(&["!a:s"]), 1).unwrap();
    delivered(&mut d, &[true, false]);
    assert!(matches!(d.finish(), Err(Error::EventSendFailed)));
}

#[test]
fn a_room_that_is_not_known_ends_the_delivery() {
    let mut d = Delivery::start(Cargo::Files, &list(&["!a:s", "!b:s"]), 1).unwrap();
    assert_eq!(delivered(&mut d, &[false]), list(&["open !a:s", "finished"]));
    assert!(matches!(d.finish(), Err(Error::InvalidRoom)));
}

#[test]
fn a_file_without_a_name_ends_the_delivery() {
    let mut d = Delivery::start(Cargo::Files, &list(&["!a:s"]), 1).unwrap();
    delivered(&mut d, &[true]);
    d.stop_without_file_name();
    assert!(matches!(d.next_step(), DeliveryStep::Finished));
    assert!(matches!(d.finish(), Err(Error::InvalidFile)));
}

#[test]
fn deliveries_without_rooms_or_with_bad_ones() {
    assert!(matches!(
        Delivery::start(Cargo::Messages, &vec![], 1),
        Err(Error::InvalidRoom)
    ));
    let d = Delivery::start(Cargo::Messages, &list(&["bad"]), 1).unwrap();
    assert!(!d.has_valid_room());
    // Without anything to send no room is looked at, except for events.
    let mut d = Delivery::start(Cargo::Messages, &list(&["bad"]), 0).unwrap();
    assert_eq!(delivered(&mut d, &[]), list(&["finished"]));
    assert!(d.finish().is_ok());
    let mut d = Delivery::start(Cargo::Events, &list(&["!a:s"]), 0).unwrap();
    assert_eq!(delivered(&mut d, &[true]), list(&["open !a:s", "finished"]));
    assert!(d.finish().is_ok());
}

#[test]
fn work_goes_on_after_a_failure() {
    let mut w = Worklist::start(Job::Rest, vec![true, true, true]);
    assert_eq!(w.next_item(), Some(0));
    w.report(false);
    assert_eq!(w.next_item(), Some(1));
    w.report(true);
    assert_eq!(w.next_item(), Some(2));
    w.report(true);
    assert_eq!(w.next_item(), None);
    assert!(matches!(w.finish(), Err(Error::RestFailed)));
}

#[test]
fn work_that_all_succeeds() {
    let mut w = Worklist::start(Job::Rest, vec![true]);
    w.report(true);
    assert!(w.finish().is_ok());
    assert!(Worklist::start(Job::Rest, vec![]).finish().is_ok());
}

#[test]
fn items_that_are_not_ready_are_failures() {
    let mut w = Worklist::start(Job::Upload, vec![false, true, false]);
    assert_eq!(w.next_item(), Some(1));
    w.report(true);
    assert_eq!(w.next_item(), None);
    assert!(matches!(w.finish(), Err(Error::MediaUploadFailed)));
}

#[test]
fn an_item_can_be_tried_again() {
    let mut w = Worklist::start(Job::Download, vec![true, true]);
    w.report_retry();
    assert_eq!(w.next_item(), Some(0));
    w.report(true);
    assert_eq!(w.next_item(), Some(1));
    w.report(true);
    assert!(matches!(w.finish(), Err(Error::MediaDownloadFailed)));
}

#[test]
fn some_work_ends_with_the_first_failure() {
    let mut w = Worklist::start(Job::VerifyDevices, vec![true, true, true]);
    w.report(true);
    assert_eq!(w.next_item(), Some(1));
    w.report(false);
    assert_eq!(w.next_item(), None);
    assert!(matches!(w.finish(), Err(Error::VerifyFailed)));
}

#[test]
fn invalid_rooms_to_show_are_passed_over() {
    let mut w = Worklist::start(Job::ShowRooms, vec![false, true, false, true]);
    assert_eq!(w.next_item(), Some(1));
    w.report(true);
    assert_eq!(w.next_item(), Some(3));
    w.report(true);
    assert!(w.finish().is_ok());
    let mut w = Worklist::start(Job::ShowRooms, vec![true, true]);
    w.report(false);
    assert_eq!(w.next_item(), None);
    assert!(matches!(w.finish(), Err(Error::InvalidRoom)));
}

#[test]
fn each_job_has_its_error() {
    assert!(matches!(Job::VerifyUsers.failure(), Error::VerifyFailed));
    assert!(matches!(Job::VerifyDevices.failure(), Error::VerifyFailed));
    assert!(matches!(Job::ResolveAliases.failure(), Error::ResolveRoomAliasFailed));
    assert!(matches!(Job::CreateRooms.failure(), Error::CreateRoomFailed));
    assert!(matches!(Job::ShowRooms.failure(), Error::InvalidRoom));
    assert!(matches!(Job::SetAliases.failure(), Error::RoomSetAliasFailed));
    assert!(matches!(Job::DeleteAliases.failure(), Error::RoomDeleteAliasFailed));
    assert!(matches!(Job::AnswerInvites.failure(), Error::RoomInvitesFailed));
    assert!(matches!(Job::Redact.failure(), Error::RoomRedactFailed));
    assert!(matches!(Job::Rest.failure(), Error::RestFailed));
    assert!(matches!(Job::Upload.failure(), Error::MediaUploadFailed));
    assert!(matches!(Job::Download.failure(), Error::MediaDownloadFailed));
    assert!(matches!(Job::DeleteMedia.failure(), Error::MediaDeleteFailed));
}

#[test]
fn an_invalid_alias_ends_the_work() {
    let mut w = Worklist::start(Job::SetAliases, vec![true, false, true]);
    assert_eq!(w.next_item(), Some(0));
    w.report(true);
    assert_eq!(w.next_item(), None);
    assert!(matches!(w.finish(), Err(Error::RoomSetAliasFailed)));
    let w = Worklist::start(Job::DeleteAliases, vec![false, true]);
    assert_eq!(w.next_item(), None);
    assert!(matches!(w.finish(), Err(Error::RoomDeleteAliasFailed)));
    let mut w = Worklist::start(Job::DeleteAliases, vec![true, true]);
    w.report(true);
    w.report(true);
    assert!(w.finish().is_ok());
}
