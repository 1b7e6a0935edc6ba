use warthog::generated::local::ChangeType;

#[test]
fn change_type_names() {
    assert_eq!(ChangeType::Add.as_str_name(), "ADD");
    assert_eq!(ChangeType::Modify.as_str_name(), "MODIFY");
    assert_eq!(ChangeType::Delete.as_str_name(), "DELETE");
}

#[test]
fn change_type_from_names() {
    assert_eq!(ChangeType::from_str_name("ADD"), Some(ChangeType::Add));
    assert_eq!(ChangeType::from_str_name("MODIFY"), Some(ChangeType::Modify));
    assert_eq!(ChangeType::from_str_name("DELETE"), Some(ChangeType::Delete));
}

#[test]
fn change_type_unknown_names() {
    assert_eq!(ChangeType::from_str_name("add"), None);
    assert_eq!(ChangeType::from_str_name(""), None);
    assert_eq!(ChangeType::from_str_name("ADDED"), None);
    assert_eq!(ChangeType::from_str_name("DELET"), None);
}

#[test]
fn change_type_name_round_trip() {
    for t in [ChangeType::Add, ChangeType::Modify, ChangeType::Delete] {
        assert_eq!(ChangeType::from_str_name(t.as_str_name()), Some(t));
    }
}

#[test]
fn change_type_numbers() {
    assert_eq!(ChangeType::Add.number(), 0);
    assert_eq!(ChangeType::Modify.number(), 1);
    assert_eq!(ChangeType::Delete.number(), 2);
    assert_eq!(ChangeType::from_number(0), Some(ChangeType::Add));
    assert_eq!(ChangeType::from_number(1), Some(ChangeType::Modify));
    assert_eq!(ChangeType::from_number(2), Some(ChangeType::Delete));
    assert_eq!(ChangeType::from_number(3), None);
    assert_eq!(ChangeType::from_number(-1), None);
    for t in [ChangeType::Add, ChangeType::Modify, ChangeType::Delete] {
        assert_eq!(ChangeType::from_number(t.number()), Some(t));
    }
}
