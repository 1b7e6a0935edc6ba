use tokio::sync::broadcast;
use warthog::ipc::ipc_command::IpcCommand;
use warthog::ipc::ipc_service::{command_for, response_for, send_outcome, unwatch_command, watch_command, IpcError, IpcService};
use warthog::ipc::request_processor::{
    plan_command, unwatch_folder_request, watch_folder_request, ProjectAction, RequestError,
};
use warthog::protos::pipe::pipe_message::Message;
use warthog::protos::pipe::{PipeMessage, UnwatchProject, WatchProject};

#[test]
fn responses() {
    let r = response_for(None);
    assert!(!r.success);
    assert_eq!(r.response_message, "Message is missing");
    let r = response_for(Some(true));
    assert!(r.success);
    assert_eq!(r.response_message, "Message received");
    let r = response_for(Some(false));
    assert!(!r.success);
    assert_eq!(r.response_message, "Message can't be processed");
}

#[test]
fn commands_for_requests() {
    match watch_command(WatchProject { project_path: b"/a/b".to_vec() }) {
        IpcCommand::WatchFolder { path } => assert_eq!(path, b"/a/b".to_vec()),
        other => panic!("unexpected {:?}", other),
    }
    match unwatch_command(UnwatchProject { project_path: b"/a/c".to_vec() }) {
        IpcCommand::UnwatchFolder { path } => assert_eq!(path, b"/a/c".to_vec()),
        other => panic!("unexpected {:?}", other),
    }
}

#[test]
fn watch_message_is_handed_on() {
    let (tx, mut rx) = broadcast::channel::<IpcCommand>(16);
    let mut service = IpcService::new(tx);
    let msg = PipeMessage {
        message: Some(Message::ProjectToAdd(WatchProject { project_path: b"/music/album".to_vec() })),
    };
    let r = service.handle_message(msg);
    assert!(r.success);
    assert_eq!(r.response_message, "Message received");
    match rx.try_recv().unwrap() {
        IpcCommand::WatchFolder { path } => assert_eq!(path, b"/music/album".to_vec()),
        other => panic!("unexpected {:?}", other),
    }
}

#[test]
fn unwatch_message_is_handed_on() {
    let (tx, mut rx) = broadcast::channel::<IpcCommand>(16);
    let mut service = IpcService::new(tx);
    let msg = PipeMessage {
        message: Some(Message::ProjectToRemove(UnwatchProject { project_path: b"/music/album".to_vec() })),
    };
    let r = service.handle_message(msg);
    assert!(r.success);
    match rx.try_recv().unwrap() {
        IpcCommand::UnwatchFolder { path } => assert_eq!(path, b"/music/album".to_vec()),
        other => panic!("unexpected {:?}", other),
    }
}

#[test]
fn message_without_listener_fails() {
    let (tx, rx) = broadcast::channel::<IpcCommand>(16);
    drop(rx);
    let mut service = IpcService::new(tx);
    let msg = PipeMessage {
        message: Some(Message::ProjectToAdd(WatchProject { project_path: b"/x".to_vec() })),
    };
    let r = service.handle_message(msg);
    assert!(!r.success);
    assert_eq!(r.response_message, "Message can't be processed");
    assert!(service.handle_unwatch_project(UnwatchProject { project_path: b"/x".to_vec() }).is_err());
}

#[test]
fn empty_message_is_refused() {
    let (tx, mut rx) = broadcast::channel::<IpcCommand>(16);
    let mut service = IpcService::new(tx);
    let r = service.handle_message(PipeMessage { message: None });
    assert!(!r.success);
    assert_eq!(r.response_message, "Message is missing");
    assert!(rx.try_recv().is_err());
}

#[test]
fn watch_request_names_project_by_stem() {
    assert_eq!(
        watch_folder_request(b"/home/user/My Song.project"),
        Ok(("My Song".to_string(), "/home/user/My Song.project".to_string()))
    );
    assert_eq!(
        watch_folder_request(b"/home/user/Album/"),
        Ok(("Album".to_string(), "/home/user/Album/".to_string()))
    );
}

#[test]
fn watch_request_errors() {
    assert_eq!(watch_folder_request(b"/"), Err(RequestError::NoFileStem));
    assert_eq!(watch_folder_request(b""), Err(RequestError::NoFileStem));
    assert_eq!(watch_folder_request(b"/a/.."), Err(RequestError::NoFileStem));
    assert_eq!(watch_folder_request(&[b'/', 0xff, 0xfe]), Err(RequestError::StemNotUnicode));
    assert_eq!(watch_folder_request(&[b'/', 0xff, b'/', b'a']), Err(RequestError::PathNotUnicode));
}

#[test]
fn unwatch_requests() {
    assert_eq!(unwatch_folder_request(b"/a/b"), Ok("/a/b".to_string()));
    assert_eq!(unwatch_folder_request(&[0xc3, 0xa9]), Ok("é".to_string()));
    assert_eq!(unwatch_folder_request(&[0xc3]), Err(RequestError::PathNotUnicode));
}

#[test]
fn planned_actions() {
    match plan_command(&IpcCommand::WatchFolder { path: b"/w/proj".to_vec() }) {
        Ok(ProjectAction::Insert { name, path }) => {
            assert_eq!(name, "proj");
            assert_eq!(path, "/w/proj");
        }
        other => panic!("unexpected {:?}", other),
    }
    match plan_command(&IpcCommand::UnwatchFolder { path: b"/w/proj".to_vec() }) {
        Ok(ProjectAction::Remove { path }) => assert_eq!(path, "/w/proj"),
        other => panic!("unexpected {:?}", other),
    }
    assert_eq!(
        plan_command(&IpcCommand::WatchFolder { path: b"/".to_vec() }).err(),
        Some(RequestError::NoFileStem)
    );
}

#[test]
fn watched_path_is_found_when_unwatched() {
    let path = b"/studio/Session 1";
    let (_, recorded) = watch_folder_request(path).unwrap();
    assert_eq!(unwatch_folder_request(path), Ok(recorded));
}

#[test]
fn send_outcomes() {
    assert_eq!(send_outcome(Ok(2)), Ok(()));
    assert_eq!(
        send_outcome(Err(IpcCommand::WatchFolder { path: b"/x".to_vec() })),
        Err(IpcError::ChannelClosed)
    );
}

#[test]
fn commands_of_messages() {
    let add = PipeMessage {
        message: Some(Message::ProjectToAdd(WatchProject { project_path: vec![0xff, b'a'] })),
    };
    match command_for(add) {
        Some(IpcCommand::WatchFolder { path }) => assert_eq!(path, vec![0xff, b'a']),
        other => panic!("unexpected {:?}", other),
    }
    let remove = PipeMessage {
        message: Some(Message::ProjectToRemove(UnwatchProject { project_path: b"/tmp/proj".to_vec() })),
    };
    match command_for(remove) {
        Some(IpcCommand::UnwatchFolder { path }) => assert_eq!(path, b"/tmp/proj".to_vec()),
        other => panic!("unexpected {:?}", other),
    }
    assert!(command_for(PipeMessage { message: None }).is_none());
}

#[test]
fn unwatch_project_hands_on_one_command() {
    let (tx, mut rx) = broadcast::channel::<IpcCommand>(16);
    let mut service = IpcService::new(tx);
    assert_eq!(
        service.handle_unwatch_project(UnwatchProject { project_path: b"/tmp/proj".to_vec() }),
        Ok(())
    );
    match rx.try_recv().unwrap() {
        IpcCommand::UnwatchFolder { path } => assert_eq!(path, b"/tmp/proj".to_vec()),
        other => panic!("unexpected {:?}", other),
    }
    assert!(rx.try_recv().is_err());
    assert_eq!(
        service.handle_watch_project(WatchProject { project_path: b"/tmp/w".to_vec() }),
        Ok(())
    );
    match rx.try_recv().unwrap() {
        IpcCommand::WatchFolder { path } => assert_eq!(path, b"/tmp/w".to_vec()),
        other => panic!("unexpected {:?}", other),
    }
}
