use bof::showdir::display_prefix;
use bof::showdir::showdir_entry;

#[test]
fn the_prefix_is_one_tab_for_each_level() {
    assert_eq!(display_prefix(0), "");
    assert_eq!(display_prefix(1), "\t");
    assert_eq!(display_prefix(3), "\t\t\t");
}

#[test]
fn a_file_is_shown_on_one_line() {
    assert_eq!(showdir_entry("./src/main.rs", false, 1), (String::from("\t ./src/main.rs\n"), false));
    assert_eq!(showdir_entry("./Cargo.toml", false, 0), (String::from(" ./Cargo.toml\n"), false));
}

#[test]
fn a_directory_is_descended_into() {
    assert_eq!(showdir_entry("./src", true, 0), (String::from(" ./src\n"), true));
    assert_eq!(showdir_entry("./target", true, 0), (String::from(" ./target\n"), true));
    assert_eq!(showdir_entry("./target/debug/deps", true, 2), (String::from("\t\t ./target/debug/deps\n"), true));
}

#[test]
fn the_build_directory_is_not_descended_into() {
    assert_eq!(
        showdir_entry("./target/debug", true, 1),
        (String::from("\t ./target/debug\n\t\t...\n"), false)
    );
}

#[test]
fn a_file_named_like_the_build_directory_is_shown_as_a_file() {
    assert_eq!(showdir_entry("./target/debug", false, 1), (String::from("\t ./target/debug\n"), false));
}
