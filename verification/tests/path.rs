use wheelsticks::library::path::join;

#[test]
fn join_puts_a_slash_between_folder_and_name() {
    assert_eq!(join(".kerek", "scripts.sh"), ".kerek/scripts.sh");
    assert_eq!(join("/var/cache", "ssh_config"), "/var/cache/ssh_config");
    assert_eq!(join("größe", "Vagrantfile"), "größe/Vagrantfile");
}

#[test]
fn join_adds_no_second_slash() {
    assert_eq!(join("cache/", "Vagrantfile"), "cache/Vagrantfile");
    assert_eq!(join("/", "Vagrantfile"), "/Vagrantfile");
}

#[test]
fn join_with_an_empty_folder_is_the_name() {
    assert_eq!(join("", "Vagrantfile"), "Vagrantfile");
    assert_eq!(join("", ""), "");
}

#[test]
fn join_takes_a_name_that_starts_at_the_root_alone() {
    assert_eq!(join("cache", "/etc/passwd"), "/etc/passwd");
}

#[test]
fn join_with_an_empty_name_ends_with_a_slash() {
    assert_eq!(join("cache", ""), "cache/");
}

#[test]
fn join_agrees_with_paths() {
    for folder in ["", "a", "a/", "/", "/a", "a/b", "./a", "größe"] {
        for name in ["", "b", "b/c", "/b", "grüße", "b/"] {
            let expected = std::path::Path::new(folder).join(name);
            assert_eq!(join(folder, name), expected.to_str().unwrap(), "{folder:?} {name:?}");
        }
    }
}
