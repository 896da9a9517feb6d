use estash::utils::is_path_os_valid;
use estash::utils::path::{check_unix_path, check_windows_path};

const FORBIDDEN_ON_WINDOWS: [&str; 29] = [
    ">", "<", ":", "/", "|", "?", "*", "CON", "PRN", "AUX", "NUL", "COM1", "COM2", "COM3", "COM4",
    "COM5", "COM6", "COM7", "COM8", "COM9", "LPT1", "LPT2", "LPT3", "LPT4", "LPT5", "LPT6", "LPT7",
    "LPT8", "LPT9",
];

fn component_ok_on_windows(x: &str) -> bool {
    !x.is_empty() && !x.starts_with(' ') && !x.ends_with(' ') && !x.ends_with('.')
}

fn by_string_methods_windows(path: &str) -> bool {
    if path.is_empty() || path.starts_with(' ') || path.ends_with(' ') {
        return false;
    }
    let rest: String = path.split('\\').skip(1).collect::<Vec<&str>>().join("");
    if FORBIDDEN_ON_WINDOWS.iter().any(|word| rest.contains(word)) {
        return false;
    }
    rest.split('\\').all(component_ok_on_windows)
}

fn component_ok_on_unix(x: &str) -> bool {
    let mut chars = x.chars();
    match chars.next() {
        None => return false,
        Some('.') => match chars.next() {
            None | Some('.') => return false,
            Some(_) => (),
        },
        Some(' ') => return false,
        Some(_) => (),
    }
    !x.ends_with(' ') && !x.ends_with('.')
}

fn by_string_methods_unix(path: &str) -> bool {
    match path.strip_prefix('/') {
        None => false,
        Some(rest) => !rest.is_empty() && rest.split('/').all(component_ok_on_unix),
    }
}

fn all_paths(alphabet: &[char], longest: usize) -> Vec<String> {
    let mut all = vec![String::new()];
    let mut last = vec![String::new()];
    for _ in 0..longest {
        let mut next = Vec::new();
        for path in &last {
            for c in alphabet {
                let mut longer = path.clone();
                longer.push(*c);
                next.push(longer);
            }
        }
        all.extend(next.iter().cloned());
        last = next;
    }
    all
}

#[test]
fn unix_paths_agree_with_string_methods() {
    for path in all_paths(&['/', ' ', '.', 'a', '\\', '\u{e9}'], 6) {
        assert_eq!(is_path_os_valid(&path, false), by_string_methods_unix(&path), "{:?}", path);
    }
}

#[test]
fn windows_paths_agree_with_string_methods() {
    for path in all_paths(&['\\', ' ', '.', 'a', ':', '\u{e9}'], 6) {
        assert_eq!(is_path_os_valid(&path, true), by_string_methods_windows(&path), "{:?}", path);
    }
}

#[test]
fn windows_names_agree_with_string_methods() {
    for tail in all_paths(&['C', 'O', 'N', 'M', '1', '\\'], 5) {
        let path = format!("C:\\{}", tail);
        assert_eq!(is_path_os_valid(&path, true), by_string_methods_windows(&path), "{:?}", path);
    }
    for tail in all_paths(&['L', 'P', 'T', '9', '0', 'x'], 5) {
        let path = format!("d\\{}", tail);
        assert_eq!(is_path_os_valid(&path, true), by_string_methods_windows(&path), "{:?}", path);
    }
}

#[test]
fn unix_paths() {
    assert!(is_path_os_valid("/etc/ssh/config", false));
    assert!(is_path_os_valid("/a", false));
    assert!(is_path_os_valid("/home/u/.ssh/id", false));
    assert!(is_path_os_valid("/a b/c", false));
    assert!(is_path_os_valid("/a..b", false));
    assert!(is_path_os_valid("/.a.b", false));
    assert!(is_path_os_valid("/gr\u{fc}n/\u{1F512}", false));
    assert!(!is_path_os_valid("", false));
    assert!(!is_path_os_valid("/", false));
    assert!(!is_path_os_valid("etc/ssh", false));
    assert!(!is_path_os_valid("a", false));
    assert!(!is_path_os_valid("//a", false));
    assert!(!is_path_os_valid("/a//b", false));
    assert!(!is_path_os_valid("/a/", false));
    assert!(!is_path_os_valid("/ a", false));
    assert!(!is_path_os_valid("/a ", false));
    assert!(!is_path_os_valid("/a /b", false));
    assert!(!is_path_os_valid("/a/ b", false));
    assert!(!is_path_os_valid("/.", false));
    assert!(!is_path_os_valid("/..", false));
    assert!(!is_path_os_valid("/a/../b", false));
    assert!(!is_path_os_valid("/a/./b", false));
    assert!(!is_path_os_valid("/..a", false));
    assert!(!is_path_os_valid("/a.", false));
    assert!(!is_path_os_valid("/a./b", false));
    assert!(!is_path_os_valid("/.a.", false));
}

#[test]
fn windows_paths() {
    assert!(is_path_os_valid("C:\\Users\\u\\file.txt", true));
    assert!(is_path_os_valid("C:\\a", true));
    assert!(is_path_os_valid("anything at all\\a", true));
    assert!(is_path_os_valid("C:\\a\\\\b", true));
    assert!(is_path_os_valid("C:\\a \\b", true));
    assert!(is_path_os_valid("C:\\a.\\b", true));
    assert!(is_path_os_valid("C:\\COM0", true));
    assert!(is_path_os_valid("C:\\LPT", true));
    assert!(is_path_os_valid("C:\\con", true));
    assert!(!is_path_os_valid("", true));
    assert!(!is_path_os_valid("C:", true));
    assert!(!is_path_os_valid("file.txt", true));
    assert!(!is_path_os_valid("C:\\", true));
    assert!(!is_path_os_valid(" C:\\a", true));
    assert!(!is_path_os_valid("C:\\a ", true));
    assert!(!is_path_os_valid("C:\\ a", true));
    assert!(!is_path_os_valid("C:\\a.", true));
    assert!(!is_path_os_valid("C:\\a\\b.", true));
    assert!(!is_path_os_valid("C:\\a:b", true));
    assert!(!is_path_os_valid("C:\\a/b", true));
    assert!(!is_path_os_valid("C:\\a<b", true));
    assert!(!is_path_os_valid("C:\\a>b", true));
    assert!(!is_path_os_valid("C:\\a|b", true));
    assert!(!is_path_os_valid("C:\\a?b", true));
    assert!(!is_path_os_valid("C:\\a*b", true));
    assert!(!is_path_os_valid("C:\\CON", true));
    assert!(!is_path_os_valid("C:\\PRN", true));
    assert!(!is_path_os_valid("C:\\AUX", true));
    assert!(!is_path_os_valid("C:\\NUL", true));
    assert!(!is_path_os_valid("C:\\xCONx", true));
    assert!(!is_path_os_valid("C:\\CO\\N", true));
    assert!(!is_path_os_valid("C:\\a\\NU\\L\\b", true));
    for digit in 1..=9 {
        assert!(!is_path_os_valid(&format!("C:\\COM{}", digit), true));
        assert!(!is_path_os_valid(&format!("C:\\dir\\xLPT{}.txt", digit), true));
    }
}

#[test]
fn paths_as_bytes() {
    assert!(check_unix_path(b"/a/b"));
    assert!(!check_unix_path(b"/a/b/"));
    assert!(!check_unix_path(b""));
    assert!(check_unix_path(&[0x2f, 0xff, 0xfe]));
    assert!(check_windows_path(b"C:\\a"));
    assert!(!check_windows_path(b"C:\\a:"));
    assert!(!check_windows_path(b""));
    assert!(check_windows_path(&[0x43, 0x5c, 0xff]));
}
