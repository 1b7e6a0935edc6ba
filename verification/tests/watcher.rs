use warthog::watcher::folder_watcher::change_detected_command;
use warthog::watcher::watcher_command::WatcherCommand;

#[test]
fn unicode_paths_are_reported() {
    let paths = vec![b"/a/one".to_vec(), vec![0xff, 0xfe], b"/a/two".to_vec()];
    match change_detected_command(&paths) {
        Some(WatcherCommand::ChangeDetected { paths }) => {
            assert_eq!(paths, vec!["/a/one".to_string(), "/a/two".to_string()]);
        }
        None => panic!("expected a command"),
    }
}

#[test]
fn no_unicode_path_no_command() {
    assert!(change_detected_command(&vec![]).is_none());
    assert!(change_detected_command(&vec![vec![0xc3]]).is_none());
}
