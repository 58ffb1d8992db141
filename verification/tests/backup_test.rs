use awsbck::backup::{archive_file_name, temp_archive_name};

#[test]
fn archive_file_name_appends_extension() {
    assert_eq!(archive_file_name("abc"), "abc.tar.gz");
    assert_eq!(archive_file_name(""), ".tar.gz");
}

#[test]
fn temp_archive_names_are_random_uuids() {
    let a = temp_archive_name();
    let b = temp_archive_name();
    assert_ne!(a, b);
    for name in [a, b] {
        assert_eq!(name.len(), 43);
        assert!(name.ends_with(".tar.gz"));
        let id: Vec<char> = name[..36].chars().collect();
        for (i, c) in id.iter().enumerate() {
            if [8, 13, 18, 23].contains(&i) {
                assert_eq!(*c, '-');
            } else {
                assert!(c.is_ascii_digit() || ('a'..='f').contains(c));
            }
        }
        assert_eq!(id[14], '4');
        assert!(['8', '9', 'a', 'b'].contains(&id[19]));
    }
}
