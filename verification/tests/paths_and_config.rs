use nullex::fs::{normalize_path, resolve_path, SCDirectoryEntryInfo, SCEntryKind, SCFsErrorCode, SCPermission};
use nullex::ini_parser::parse_ini;
use nullex::ramfs::{FsError, Permission};
use nullex::user::{setup_user_stack, USER_STACK_TOP};

fn chars(s: &str) -> Vec<char> {
    s.chars().collect()
}

fn text(v: &[char]) -> String {
    v.iter().collect()
}

#[test]
fn normalize_drops_dots_and_parents() {
    assert_eq!(text(&normalize_path(&chars("/a/./b/../c"))), "/a/c/");
    assert_eq!(text(&normalize_path(&chars(""))), "/");
    assert_eq!(text(&normalize_path(&chars("/.."))), "/");
    assert_eq!(text(&normalize_path(&chars("//x//y/"))), "/x/y/");
    assert_eq!(text(&normalize_path(&chars("../../q"))), "/q/");
}

#[test]
fn normalize_is_idempotent_on_examples() {
    for p in ["/a/./b/../c", "x/y/../z", "/", "a//b"] {
        let once = normalize_path(&chars(p));
        let twice = normalize_path(&once);
        assert_eq!(once, twice);
    }
}

#[test]
fn resolve_relative_and_absolute() {
    assert_eq!(text(&resolve_path(&chars("docs"), &chars("/home"))), "/home/docs/");
    assert_eq!(text(&resolve_path(&chars("../etc"), &chars("/home/user/"))), "/home/etc/");
    assert_eq!(text(&resolve_path(&chars("/tmp/./a"), &chars("/home"))), "/tmp/a/");
    assert_eq!(text(&resolve_path(&chars(""), &chars("/home"))), "/home/");
}

#[test]
fn boundary_types() {
    let p = SCPermission::from(Permission { read: true, write: false, execute: true });
    assert_eq!(p, SCPermission { read: 1, write: 0, execute: 1 });
    assert_eq!(SCFsErrorCode::from(FsError::EntryNotFound), SCFsErrorCode::EntryNotFound);
    assert_eq!(SCFsErrorCode::from(FsError::DirectoryNotEmpty).code(), 7);
    assert_eq!(SCFsErrorCode::from(FsError::InvalidPath).code(), 6);
    assert_eq!(SCFsErrorCode::Success.code(), 0);
}

#[test]
fn directory_entry_record() {
    let perm = Permission { read: true, write: true, execute: false };
    let e = SCDirectoryEntryInfo::from_entry(b"hello.txt", false, perm, 42);
    assert_eq!(e.kind, SCEntryKind::File);
    assert_eq!(e.permission, SCPermission { read: 1, write: 1, execute: 0 });
    assert_eq!(e.size, 42);
    assert_eq!(e.name_len, 9);
    assert_eq!(&e.name[..9], b"hello.txt");
    assert!(e.name[9..].iter().all(|&b| b == 0));

    let long = vec![b'x'; 300];
    let d = SCDirectoryEntryInfo::from_entry(&long, true, perm, 3);
    assert_eq!(d.kind, SCEntryKind::Directory);
    assert_eq!(d.name_len, 256);
    assert!(d.name.iter().all(|&b| b == b'x'));
}

#[test]
fn ini_sections_and_properties() {
    let input = chars("; comment\nglobal = yes\n[net]\n  ip = 10.0.0.2 \nmask=255.255.255.0\n# skip\n[ empty ]\nnonsense\n[disk]\na = b = c\n");
    let ini = parse_ini(&input);
    let got: Vec<(String, Vec<(String, String)>)> = ini
        .sections
        .iter()
        .map(|s| (text(&s.name), s.properties.iter().map(|(k, v)| (text(k), text(v))).collect()))
        .collect();
    assert_eq!(
        got,
        vec![
            ("".to_string(), vec![("global".to_string(), "yes".to_string())]),
            (
                "net".to_string(),
                vec![("ip".to_string(), "10.0.0.2".to_string()), ("mask".to_string(), "255.255.255.0".to_string())]
            ),
            ("empty".to_string(), vec![]),
            ("disk".to_string(), vec![("a".to_string(), "b = c".to_string())]),
        ]
    );
}

#[test]
fn ini_empty_input() {
    assert!(parse_ini(&chars("")).sections.is_empty());
    assert!(parse_ini(&chars("\n\n; only comments\n")).sections.is_empty());
}

#[test]
fn user_stack_single_argument() {
    let top = USER_STACK_TOP;
    let st = setup_user_stack(&vec![b"ab".to_vec()], &vec![], top);
    let a = top - 16;
    assert_eq!(st.sp, a - 32);
    let w: Vec<(u64, Vec<u8>)> = st.writes.iter().map(|w| (w.addr, w.bytes.clone())).collect();
    assert_eq!(
        w,
        vec![
            (top - 3, b"ab\0".to_vec()),
            (a - 8, 0u64.to_le_bytes().to_vec()),
            (a - 16, 0u64.to_le_bytes().to_vec()),
            (a - 24, (top - 3).to_le_bytes().to_vec()),
            (a - 32, 1u64.to_le_bytes().to_vec()),
        ]
    );
}

#[test]
fn user_stack_arguments_and_environment() {
    let top = USER_STACK_TOP;
    let args = vec![b"x".to_vec(), b"yz".to_vec()];
    let envs = vec![b"K=V".to_vec()];
    let st = setup_user_stack(&args, &envs, top);
    let env0 = top - 4;
    let arg1 = env0 - 3;
    let arg0 = arg1 - 2;
    let a = arg0 & !0xF;
    assert_eq!(st.sp, a - 8 * 6);
    let w: Vec<(u64, Vec<u8>)> = st.writes.iter().map(|w| (w.addr, w.bytes.clone())).collect();
    assert_eq!(
        w,
        vec![
            (env0, b"K=V\0".to_vec()),
            (arg1, b"yz\0".to_vec()),
            (arg0, b"x\0".to_vec()),
            (a - 8, 0u64.to_le_bytes().to_vec()),
            (a - 16, env0.to_le_bytes().to_vec()),
            (a - 24, 0u64.to_le_bytes().to_vec()),
            (a - 32, arg0.to_le_bytes().to_vec()),
            (a - 40, arg1.to_le_bytes().to_vec()),
            (a - 48, 2u64.to_le_bytes().to_vec()),
        ]
    );
}
