use rcdir::file_comparator::OrdinalIgnoreCaseCollator;
use rcdir::command_line::CommandLine;
use rcdir::command_line::SortDirection;
use rcdir::command_line::SortOrder;
use rcdir::file_comparator::NameCollator;
use rcdir::file_comparator::Order;
use rcdir::file_comparator::sort_files;
use rcdir::file_info::FILE_ATTRIBUTE_DIRECTORY;
use rcdir::file_info::FileInfo;

struct CaseInsensitive;

impl NameCollator for CaseInsensitive {
    fn compare_names(&self, a: &str, b: &str) -> Order {
        match a.to_lowercase().cmp(&b.to_lowercase()) {
            std::cmp::Ordering::Less => Order::Less,
            std::cmp::Ordering::Equal => Order::Equal,
            std::cmp::Ordering::Greater => Order::Greater,
        }
    }
}

fn make_file(name: &str, attrs: u32, size: u64) -> FileInfo {
    FileInfo {
        file_name: String::from(name),
        file_attributes: attrs,
        file_size: size,
        creation_time: 0,
        last_write_time: 0,
        last_access_time: 0,
        reparse_tag: 0,
        streams: Vec::new(),
    }
}


#[test]
fn directories_before_files() {
    let cmd = CommandLine::default();
    let mut files = vec![
        make_file("b.txt", 0x20, 100),
        make_file("adir",  FILE_ATTRIBUTE_DIRECTORY, 0),
        make_file("a.txt", 0x20, 200),
    ];
    sort_files(&mut files, &cmd, &CaseInsensitive);

    assert!(files[0].is_directory());
    assert!(!files[1].is_directory());
    assert!(!files[2].is_directory());
}

#[test]
fn sort_by_name_default() {
    let cmd = CommandLine::default();
    let mut files = vec![
        make_file("charlie.txt", 0x20, 100),
        make_file("alpha.txt",   0x20, 200),
        make_file("bravo.txt",   0x20, 150),
    ];
    sort_files(&mut files, &cmd, &CaseInsensitive);

    assert_eq!(files[0].file_name, "alpha.txt");
    assert_eq!(files[1].file_name, "bravo.txt");
    assert_eq!(files[2].file_name, "charlie.txt");
}

#[test]
#[allow(clippy::field_reassign_with_default)]
fn sort_by_size() {
    let mut cmd = CommandLine::default();
    cmd.sort_order = SortOrder::Size;
    cmd.sort_preference[0] = SortOrder::Size;
    let mut files = vec![
        make_file("big.txt",    0x20, 3000),
        make_file("small.txt",  0x20, 100),
        make_file("medium.txt", 0x20, 1500),
    ];
    sort_files(&mut files, &cmd, &CaseInsensitive);

    assert_eq!(files[0].file_name, "small.txt");
    assert_eq!(files[1].file_name, "medium.txt");
    assert_eq!(files[2].file_name, "big.txt");
}

#[test]
#[allow(clippy::field_reassign_with_default)]
fn sort_by_size_descending() {
    let mut cmd = CommandLine::default();
    cmd.sort_order = SortOrder::Size;
    cmd.sort_direction = SortDirection::Descending;
    cmd.sort_preference[0] = SortOrder::Size;
    let mut files = vec![
        make_file("big.txt",    0x20, 3000),
        make_file("small.txt",  0x20, 100),
        make_file("medium.txt", 0x20, 1500),
    ];
    sort_files(&mut files, &cmd, &CaseInsensitive);

    assert_eq!(files[0].file_name, "big.txt");
    assert_eq!(files[1].file_name, "medium.txt");
    assert_eq!(files[2].file_name, "small.txt");
}

#[test]
fn ties_fall_through_the_sort_preference_and_keep_input_order() {
    // Sorted by extension, then by name (the next preference); "B.txt" and
    // "b.txt" compare level and keep their input order.
    let cmd = CommandLine::parse_from(&["/o:e"]).unwrap();
    let mut files = vec![
        make_file("zeta.rs", 0x20, 1),
        make_file("b.txt", 0x20, 2),
        make_file("alpha.txt", 0x20, 3),
        make_file("B.txt", 0x20, 2),
        make_file("adir", FILE_ATTRIBUTE_DIRECTORY, 0),
    ];
    sort_files(&mut files, &cmd, &OrdinalIgnoreCaseCollator);
    let names: Vec<&str> = files.iter().map(|f| f.file_name.as_str()).collect();
    assert_eq!(names, vec!["adir", "zeta.rs", "alpha.txt", "b.txt", "B.txt"]);
    let cmd = CommandLine::parse_from(&["/o:-n"]).unwrap();
    sort_files(&mut files, &cmd, &OrdinalIgnoreCaseCollator);
    let names: Vec<&str> = files.iter().map(|f| f.file_name.as_str()).collect();
    assert_eq!(names, vec!["adir", "zeta.rs", "b.txt", "B.txt", "alpha.txt"]);
}
