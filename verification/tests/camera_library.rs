use std::collections::HashSet;

use strata::camera_library::{
    batch_size, finish_event, is_within, ChildInfo, ChildKind, DirectoryEvent, DirectoryRequest,
    DiscoveryOutcome, Library, Visit, MAX_DEPTH,
};

fn request(max_entries: usize) -> DirectoryRequest {
    DirectoryRequest {
        location: "gphoto2://camera/".to_owned(),
        max_entries,
        batch_size: 64,
    }
}

fn child(location: &str, kind: ChildKind) -> ChildInfo {
    ChildInfo {
        location: location.to_owned(),
        in_camera_library: false,
        is_symlink: false,
        kind,
        is_hidden: false,
        can_trash: Some(true),
        can_delete: Some(false),
    }
}

#[test]
fn operations_in_camera_subfolders_refresh_the_library_but_not_other_devices() {
    for cancelled in [false, true] {
        let root = "gphoto2://camera/";
        let mut requests = 0;
        for (parent, expected) in [
            ("gphoto2://other/202401_a", 0),
            ("gphoto2://camera/202401_a", 1),
        ] {
            let refresh = if cancelled {
                let parents = HashSet::from([parent.to_owned()]);
                parents.iter().any(|parent| is_within(parent, root))
            } else {
                is_within(parent, root)
            };
            if refresh {
                requests += 1;
            }
            assert_eq!(requests, expected);
        }
    }
}

#[test]
fn a_new_walk_starts_at_the_root() {
    let mut library = Library::new(&request(10));
    assert_eq!(library.pending_len(), 1);
    assert_eq!(library.files(), 0);
    assert!(!library.truncated());
    assert_eq!(library.can_trash(), None);
    assert_eq!(library.next_directory(), Some("gphoto2://camera/".to_owned()));
    assert_eq!(library.depth(), 0);
    assert!(!library.hidden_parent());
    assert_eq!(library.next_directory(), None);
}

#[test]
fn recent_date_folders_are_visited_first() {
    let mut library = Library::new(&request(10));
    library.next_directory().unwrap();
    let before = library.pending_len();
    for name in ["202401_a", "202406_b", "202403_c"] {
        let location = format!("gphoto2://camera/{name}");
        assert_eq!(library.visit(&child(&location, ChildKind::Directory)), Visit::Queued);
    }
    library.finish_directory(before);
    let mut order = Vec::new();
    while let Some(location) = library.next_directory() {
        assert_eq!(library.depth(), 1);
        order.push(location);
    }
    assert_eq!(
        order,
        vec![
            "gphoto2://camera/202406_b".to_owned(),
            "gphoto2://camera/202403_c".to_owned(),
            "gphoto2://camera/202401_a".to_owned(),
        ]
    );
}

#[test]
fn folders_are_queued_once_and_symlinks_and_strangers_skipped() {
    let mut library = Library::new(&request(10));
    library.next_directory().unwrap();
    let folder = child("gphoto2://camera/a", ChildKind::Directory);
    assert_eq!(library.visit(&folder), Visit::Queued);
    assert_eq!(library.visit(&folder), Visit::AlreadySeen);
    let root_again = child("gphoto2://camera/", ChildKind::Directory);
    assert_eq!(library.visit(&root_again), Visit::AlreadySeen);
    let mut link = child("gphoto2://camera/link", ChildKind::Directory);
    link.is_symlink = true;
    assert_eq!(library.visit(&link), Visit::Skipped);
    let mut stranger = child("gphoto2://other/x.jpg", ChildKind::Regular);
    assert_eq!(library.visit(&stranger), Visit::Skipped);
    let outside_folder = child("gphoto2://other/202401_a", ChildKind::Directory);
    assert_eq!(library.visit(&outside_folder), Visit::Skipped);
    stranger.in_camera_library = true;
    assert_eq!(library.visit(&stranger), Visit::Entry { hidden: false });
    let other = child("gphoto2://camera/fifo", ChildKind::Other);
    assert_eq!(library.visit(&other), Visit::Skipped);
    assert_eq!(library.pending_len(), 1);
    assert_eq!(library.files(), 1);
}

#[test]
fn duplicate_names_in_different_folders_are_listed_apart() {
    let mut library = Library::new(&request(10));
    library.next_directory().unwrap();
    for location in [
        "gphoto2://camera/202401_a/IMG_0001.JPG",
        "gphoto2://camera/202402_a/IMG_0001.JPG",
    ] {
        assert_eq!(
            library.visit(&child(location, ChildKind::Regular)),
            Visit::Entry { hidden: false }
        );
    }
    assert_eq!(library.files(), 2);
}

#[test]
fn hidden_folders_hide_everything_below_them() {
    let mut library = Library::new(&request(10));
    library.next_directory().unwrap();
    let mut folder = child("gphoto2://camera/.thumbs", ChildKind::Directory);
    folder.is_hidden = true;
    assert_eq!(library.visit(&folder), Visit::Queued);
    assert_eq!(library.next_directory(), Some("gphoto2://camera/.thumbs".to_owned()));
    assert!(library.hidden_parent());
    let photo = child("gphoto2://camera/.thumbs/a.jpg", ChildKind::Regular);
    assert_eq!(library.visit(&photo), Visit::Entry { hidden: true });
}

#[test]
fn the_file_limit_truncates_and_ends_the_walk() {
    let mut library = Library::new(&request(2));
    library.next_directory().unwrap();
    for i in 0..2 {
        let photo = child(&format!("gphoto2://camera/{i}.jpg"), ChildKind::Regular);
        assert_eq!(library.visit(&photo), Visit::Entry { hidden: false });
        assert!(!library.is_full());
    }
    let extra = child("gphoto2://camera/extra.jpg", ChildKind::Regular);
    assert_eq!(library.visit(&extra), Visit::Full);
    assert!(library.is_full());
    assert_eq!(library.files(), 2);
    assert_eq!(library.can_trash(), Some(true));
    assert_eq!(library.can_delete(), Some(false));
}

#[test]
fn exactly_the_file_limit_is_not_truncated() {
    let mut library = Library::new(&request(2));
    library.next_directory().unwrap();
    for i in 0..2 {
        let photo = child(&format!("gphoto2://camera/{i}.jpg"), ChildKind::Regular);
        library.visit(&photo);
    }
    assert!(!library.truncated());
    assert!(!library.is_full());
}

#[test]
fn first_trash_and_delete_answers_stick() {
    let mut library = Library::new(&request(10));
    library.next_directory().unwrap();
    let mut unknown = child("gphoto2://camera/a.jpg", ChildKind::Regular);
    unknown.can_trash = None;
    unknown.can_delete = None;
    library.visit(&unknown);
    assert_eq!(library.can_trash(), None);
    let mut no = child("gphoto2://camera/b.jpg", ChildKind::Regular);
    no.can_trash = Some(false);
    no.can_delete = Some(true);
    library.visit(&no);
    let yes = child("gphoto2://camera/c.jpg", ChildKind::Regular);
    library.visit(&yes);
    assert_eq!(library.can_trash(), Some(false));
    assert_eq!(library.can_delete(), Some(true));
}

#[test]
fn folders_beyond_the_depth_limit_truncate() {
    let mut library = Library::new(&request(10));
    library.next_directory().unwrap();
    let mut path = "gphoto2://camera".to_owned();
    for level in 0..MAX_DEPTH {
        assert_eq!(library.depth(), level);
        path.push_str("/d");
        assert_eq!(library.visit(&child(&path, ChildKind::Directory)), Visit::Queued);
        assert_eq!(library.next_directory(), Some(path.clone()));
    }
    assert_eq!(library.depth(), MAX_DEPTH);
    path.push_str("/d");
    assert_eq!(library.visit(&child(&path, ChildKind::Directory)), Visit::LimitReached);
    assert!(library.truncated());
    assert!(!library.is_full());
}

#[test]
fn batch_sizes_are_kept_between_1_and_256() {
    let mut request = request(1);
    request.batch_size = 0;
    assert_eq!(batch_size(&request), 1);
    request.batch_size = 100;
    assert_eq!(batch_size(&request), 100);
    request.batch_size = 1000;
    assert_eq!(batch_size(&request), 256);
}

#[test]
fn the_end_of_a_walk_is_reported() {
    let library = Library::new(&request(10));
    match finish_event(7, DiscoveryOutcome::Completed, &library) {
        DirectoryEvent::Finished { request_id, truncated, can_trash, can_delete } => {
            assert_eq!(request_id, 7);
            assert!(!truncated);
            assert_eq!(can_trash, None);
            assert_eq!(can_delete, None);
        }
        DirectoryEvent::Failed { .. } => panic!("a completed walk finishes"),
    }
    match finish_event(8, DiscoveryOutcome::TimedOut, &library) {
        DirectoryEvent::Finished { request_id, truncated, .. } => {
            assert_eq!(request_id, 8);
            assert!(truncated);
        }
        DirectoryEvent::Failed { .. } => panic!("a timed-out walk finishes"),
    }
    match finish_event(9, DiscoveryOutcome::Failed("gone".to_owned()), &library) {
        DirectoryEvent::Failed { request_id, message } => {
            assert_eq!(request_id, 9);
            assert_eq!(message, "gone");
        }
        DirectoryEvent::Finished { .. } => panic!("a failed walk fails"),
    }
}
