use rcdir::file_info::FILE_ATTRIBUTE_DIRECTORY;
use rcdir::file_info::FileInfo;



#[test]
fn is_directory_flag() {
    let fi = FileInfo {
        file_name:       String::from("test"),
        file_attributes: FILE_ATTRIBUTE_DIRECTORY,
        file_size:       0,
        creation_time:   0,
        last_write_time: 0,
        last_access_time: 0,
        reparse_tag: 0,
        streams:         Vec::new(),
    };
    assert!(fi.is_directory());
}

#[test]
fn is_dot_dir() {
    let fi = FileInfo {
        file_name:       String::from(".."),
        file_attributes: FILE_ATTRIBUTE_DIRECTORY,
        file_size:       0,
        creation_time:   0,
        last_write_time: 0,
        last_access_time: 0,
        reparse_tag: 0,
        streams:         Vec::new(),
    };
    assert!(fi.is_dot_dir());
}
