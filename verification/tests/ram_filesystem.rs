use nullex::ramfs::{setup_system_files, EntryType, FileSystem, FsError, Permission};

fn p(s: &str) -> Vec<char> {
    s.chars().collect()
}

fn names(v: Vec<Vec<char>>) -> Vec<String> {
    let mut out: Vec<String> = v.into_iter().map(|n| n.into_iter().collect()).collect();
    out.sort();
    out
}

#[test]
fn write_then_read_back() {
    let mut fs = FileSystem::new();
    fs.create_file(&p("/hello.txt"), Permission::all()).unwrap();
    assert_eq!(fs.read_file(&p("/hello.txt")), Ok(&b""[..]));
    fs.write_file(&p("/hello.txt"), b"abc", false).unwrap();
    fs.write_file(&p("/hello.txt"), b"def", false).unwrap();
    assert_eq!(fs.read_file(&p("/hello.txt")), Ok(&b"abcdef"[..]));
    fs.write_file(&p("/hello.txt"), b"xy", true).unwrap();
    assert_eq!(fs.read_file(&p("/hello.txt")), Ok(&b"xy"[..]));
    let f = fs.get_file(&p("hello.txt")).unwrap();
    assert_eq!(f.permission, Permission::all());
}

#[test]
fn write_needs_permission() {
    let mut fs = FileSystem::new();
    fs.create_file(&p("/ro"), Permission::read()).unwrap();
    assert_eq!(fs.write_file(&p("/ro"), b"x", true), Err(FsError::PermissionDenied));
    assert_eq!(fs.read_file(&p("/ro")), Ok(&b""[..]));
}

#[test]
fn create_errors() {
    let mut fs = FileSystem::new();
    fs.create_dir(&p("/a"), Permission::all()).unwrap();
    assert_eq!(fs.create_dir(&p("/a"), Permission::all()), Err(FsError::AlreadyExists));
    assert_eq!(fs.create_file(&p("/a"), Permission::all()), Err(FsError::AlreadyExists));
    assert_eq!(fs.create_file(&p("/missing/f"), Permission::all()), Err(FsError::EntryNotFound));
    fs.create_file(&p("/a/f"), Permission::all()).unwrap();
    assert_eq!(fs.create_file(&p("/a/f/g"), Permission::all()), Err(FsError::NotADirectory));
    assert_eq!(fs.create_file(&p("/"), Permission::all()), Err(FsError::InvalidPath));
    assert_eq!(fs.create_file(&p("/../x"), Permission::all()), Err(FsError::InvalidPath));
}

#[test]
fn read_errors() {
    let mut fs = FileSystem::new();
    fs.create_dir(&p("/d"), Permission::all()).unwrap();
    assert_eq!(fs.read_file(&p("/d")), Err(FsError::NotAFile));
    assert_eq!(fs.read_file(&p("/nope")), Err(FsError::EntryNotFound));
    assert_eq!(fs.write_file(&p("/nope"), b"x", true), Err(FsError::EntryNotFound));
}

#[test]
fn paths_with_dots() {
    let mut fs = FileSystem::new();
    fs.create_dir(&p("/a"), Permission::all()).unwrap();
    fs.create_dir(&p("/a/b"), Permission::all()).unwrap();
    fs.create_file(&p("/a/./b/../b/f"), Permission::all()).unwrap();
    assert!(fs.path_exists(&p("/a/b/f")));
    assert_eq!(
        FileSystem::path_components(&p("/x//./y/../z")).unwrap().iter().map(|c| c.iter().collect::<String>()).collect::<Vec<_>>(),
        vec!["x".to_string(), "z".to_string()]
    );
    assert_eq!(FileSystem::path_components(&p("..")), Err(FsError::InvalidPath));
    let (dir, name) = FileSystem::split_path(&p("/a/b/c")).unwrap();
    assert_eq!(dir.len(), 2);
    assert_eq!(name.iter().collect::<String>(), "c");
}

#[test]
fn listing_and_kinds() {
    let mut fs = FileSystem::new();
    fs.create_dir(&p("/etc"), Permission::all()).unwrap();
    fs.create_file(&p("/etc/hosts"), Permission::all()).unwrap();
    fs.create_dir(&p("/etc/init"), Permission::all()).unwrap();
    assert_eq!(names(fs.list_dir(&p("/etc")).unwrap()), vec!["hosts".to_string(), "init".to_string()]);
    let kinds = fs.list_dir_entry_types(&p("/etc")).unwrap();
    assert_eq!(kinds.len(), 2);
    assert!(kinds.contains(&EntryType::File));
    assert!(kinds.contains(&EntryType::Directory));
    assert_eq!(fs.list_dir(&p("/etc/hosts")), Err(FsError::NotADirectory));
    assert_eq!(fs.list_dir(&p("/none")), Err(FsError::EntryNotFound));
    assert!(fs.is_dir(&p("/etc/init")));
    assert!(!fs.is_dir(&p("/etc/hosts")));
    assert!(fs.is_dir(&p("/")));
    assert!(!fs.is_dir(&p("/none")));
}

#[test]
fn relative_paths_use_current_directory() {
    let mut fs = FileSystem::new();
    fs.create_dir(&p("/home"), Permission::all()).unwrap();
    fs.create_file(&p("/home/notes"), Permission::all()).unwrap();
    fs.current_path = vec![p("home")];
    assert_eq!(names(fs.list_dir(&p(".")).unwrap()), vec!["notes".to_string()]);
    assert!(fs.path_exists(&p("notes")));
    assert!(!fs.path_exists(&p("/notes")));
    assert!(!fs.path_exists(&p("..")));
    assert_eq!(fs.get_dir(&p("..")), Err(FsError::InvalidPath));
    assert_eq!(fs.get_dir(&p("/")), Ok(0));
}

#[test]
fn remove_files_and_directories() {
    let mut fs = FileSystem::new();
    fs.create_dir(&p("/d"), Permission::all()).unwrap();
    fs.create_file(&p("/d/f"), Permission::all()).unwrap();
    fs.create_dir(&p("/d/sub"), Permission::all()).unwrap();
    fs.create_file(&p("/d/sub/g"), Permission::all()).unwrap();
    assert_eq!(fs.remove(&p("/d"), false, false), Err(FsError::NotADirectory));
    assert_eq!(fs.remove(&p("/d"), true, false), Err(FsError::DirectoryNotEmpty));
    assert!(fs.path_exists(&p("/d/sub/g")));
    fs.remove(&p("/d/f"), false, false).unwrap();
    assert!(!fs.path_exists(&p("/d/f")));
    assert_eq!(fs.remove(&p("/d/f"), false, false), Err(FsError::EntryNotFound));
    fs.remove(&p("/d"), true, true).unwrap();
    assert!(!fs.path_exists(&p("/d")));
    assert!(!fs.path_exists(&p("/d/sub/g")));
    fs.create_dir(&p("/d"), Permission::all()).unwrap();
    assert!(fs.list_dir(&p("/d")).unwrap().is_empty());
}

#[test]
fn create_then_lookup_and_remove_then_lookup() {
    let mut fs = FileSystem::default();
    fs.create_file(&p("/x"), Permission::all()).unwrap();
    assert!(fs.path_exists(&p("/x")));
    fs.remove(&p("/x"), false, false).unwrap();
    assert!(!fs.path_exists(&p("/x")));
    assert_eq!(fs.read_file(&p("/x")), Err(FsError::EntryNotFound));
}

#[test]
fn system_files() {
    let mut fs = FileSystem::new();
    setup_system_files(&mut fs).unwrap();
    assert!(fs.is_dir(&p("/logs")));
    assert!(fs.is_dir(&p("/proc")));
    assert_eq!(setup_system_files(&mut fs), Err(FsError::AlreadyExists));
}

#[test]
fn error_messages() {
    assert_eq!(FsError::EntryNotFound.message(), "Entry not found");
    assert_eq!(FsError::AlreadyExists.message(), "Entry already exists");
    assert_eq!(FsError::DirectoryNotEmpty.message(), "Directory not empty");
}
