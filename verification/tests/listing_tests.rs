use rcdir::console::INITIAL_BUFFER_SIZE;
use rcdir::directory_lister::is_dots;
use rcdir::file_comparator::apply_permutation;
use rcdir::mask_grouper::is_pure_mask;



#[test]
fn pure_mask_simple_wildcard() {
    assert!(is_pure_mask("*.rs"));
    assert!(is_pure_mask("*.toml"));
    assert!(is_pure_mask("hello.txt"));
    assert!(is_pure_mask("*"));
}

#[test]
fn pure_mask_with_path_separator() {
    assert!(!is_pure_mask("foo\\*.rs"));
    assert!(!is_pure_mask("foo/bar.txt"));
}

#[test]
fn pure_mask_with_drive_letter() {
    assert!(!is_pure_mask("C:file.txt"));
    assert!(!is_pure_mask("D:*.rs"));
}

#[test]
fn is_pure_mask_dot_slash_prefix_returns_false() {
    assert! (!is_pure_mask (r".\*.cpp"));
    assert! (!is_pure_mask ("./file.txt"));
}

#[test]
fn is_pure_mask_absolute_path_returns_false() {
    assert! (!is_pure_mask (r"C:\foo\*.cpp"));
    assert! (!is_pure_mask (r"D:\file.txt"));
}

#[test]
fn permutation_empty() {
    let mut data: Vec<i32> = vec![];
    apply_permutation (&mut data, vec![]);
    assert!(data.is_empty());
}

#[test]
fn permutation_single() {
    let mut data = vec![42];
    apply_permutation (&mut data, vec![0]);
    assert_eq!(data, [42]);
}

#[test]
fn permutation_identity() {
    let mut data = vec![10, 20, 30, 40];
    apply_permutation (&mut data, vec![0, 1, 2, 3]);
    assert_eq!(data, [10, 20, 30, 40]);
}

#[test]
fn permutation_reverse() {
    let mut data = vec![10, 20, 30, 40];
    // perm[i] = source index that goes to position i
    // Position 0 gets element from index 3, position 1 from 2, etc.
    apply_permutation (&mut data, vec![3, 2, 1, 0]);
    assert_eq!(data, [40, 30, 20, 10]);
}

#[test]
fn permutation_cycle() {
    let mut data = vec!['a', 'b', 'c', 'd'];
    // Rotate first 3: position 0 gets from 1, 1 from 2, 2 from 0, 3 stays
    apply_permutation (&mut data, vec![1, 2, 0, 3]);
    assert_eq!(data, ['b', 'c', 'a', 'd']);
}

#[test]
fn directory_lister_is_dots_single_dot() {
    let name = [b'.' as u16, 0, 0, 0];
    assert!(is_dots(&name));
}

#[test]
fn directory_lister_is_dots_double_dot() {
    let name = [b'.' as u16, b'.' as u16, 0, 0];
    assert!(is_dots(&name));
}

#[test]
fn is_dots_regular_name() {
    let name = [b'f' as u16, b'o' as u16, b'o' as u16, 0];
    assert!(!is_dots(&name));
}

#[test]
fn is_dots_dotfile() {
    let name = [b'.' as u16, b'g' as u16, b'i' as u16, b't' as u16, 0];
    assert!(!is_dots(&name));
}

#[test]
fn multi_threaded_lister_is_dots_single_dot() {
    let name = [b'.' as u16, 0, 0, 0];
    assert!(is_dots(&name));
}

#[test]
fn multi_threaded_lister_is_dots_double_dot() {
    let name = [b'.' as u16, b'.' as u16, 0, 0];
    assert!(is_dots(&name));
}

#[test]
fn is_dots_regular_file() {
    let name: Vec<u16> = "hello.txt\0".encode_utf16().collect();
    assert!(!is_dots(&name));
}

#[test]
fn is_dots_dot_prefix() {
    let name: Vec<u16> = ".gitignore\0".encode_utf16().collect();
    assert!(!is_dots(&name));
}

#[test]
fn initial_buffer_size_is_10mb() {
    assert_eq!(INITIAL_BUFFER_SIZE, 10 * 1024 * 1024);
}
