use nanobot_supervisor::resolver::{
    add_exported_dirs, get_user_path, is_supported_python, line_exports, parse_python_version,
    pip_show_locations, remove_quotes,
};

fn strs(v: &[Vec<u8>]) -> Vec<String> {
    v.iter().map(|b| String::from_utf8(b.clone()).unwrap()).collect()
}

#[test]
fn version_lines() {
    assert_eq!(parse_python_version("Python 3.11.0"), Some((3, 11, 0)));
    assert_eq!(parse_python_version("Python 3.12"), Some((3, 12, 0)));
    assert_eq!(parse_python_version("3.9.7"), Some((3, 9, 7)));
    assert_eq!(parse_python_version("Python 3.11.rc1"), Some((3, 11, 0)));
    assert_eq!(parse_python_version("Python 3"), None);
    assert_eq!(parse_python_version("Python 3.x"), None);
    assert_eq!(parse_python_version("Python +3.+10.4"), Some((3, 10, 4)));
    assert_eq!(parse_python_version(""), None);
}

#[test]
fn version_threshold() {
    assert!(is_supported_python((3, 11, 0)));
    assert!(is_supported_python((4, 0, 0)));
    assert!(!is_supported_python((3, 10, 9)));
    assert!(!is_supported_python((2, 99, 0)));
}

#[test]
fn quotes_are_removed() {
    assert_eq!(remove_quotes(b"\"a'b\""), b"ab".to_vec());
}

#[test]
fn export_lines_give_directories() {
    assert_eq!(
        strs(&line_exports(b"export PATH=\"$HOME/bin:/opt/tools/bin:$PATH\"")),
        vec!["$HOME/bin", "/opt/tools/bin", "$PATH"]
    );
    assert_eq!(strs(&line_exports(b"   export PATH=/a:/b  \r")), vec!["/a", "/b"]);
    assert_eq!(strs(&line_exports(b"export PATH=/a=b:/c")), vec!["/a"]);
    assert!(line_exports(b"PATH=/x").is_empty());
    assert!(line_exports(b"# export PATH=/x").is_empty());
}

#[test]
fn exported_dirs_skip_empty_and_repeated() {
    let mut list = vec![b"/a".to_vec()];
    add_exported_dirs(&mut list, b"export PATH=/a:/b::/c\nalias x=y\nexport PATH=/b:/d\n");
    assert_eq!(strs(&list), vec!["/a", "/b", "/c", "/d"]);
}

#[test]
fn search_dirs_with_home() {
    let rc = vec![b"export PATH=/opt/x/bin:$PATH\n".to_vec(), b"export PATH='/home/u/.local/bin'\n".to_vec()];
    let dirs = get_user_path(Some(b"/home/u"), &rc, false);
    assert_eq!(
        strs(&dirs),
        vec![
            "/home/u/miniconda3/bin",
            "/home/u/miniconda3/condabin",
            "/home/u/anaconda3/bin",
            "/home/u/anaconda3/condabin",
            "/home/u/.local/bin",
            "/opt/x/bin",
            "$PATH",
            "/usr/local/bin",
            "/usr/bin",
            "/bin",
        ]
    );
}

#[test]
fn search_dirs_without_home() {
    let rc = vec![b"export PATH=/ignored\n".to_vec()];
    assert_eq!(strs(&get_user_path(None, &rc, false)), vec!["/usr/local/bin", "/usr/bin", "/bin"]);
    assert_eq!(get_user_path(None, &rc, true).len(), 7);
    assert_eq!(strs(&get_user_path(None, &rc, true))[0], "/opt/homebrew/bin");
}

#[test]
fn pip_show_location_lines() {
    let out = b"Name: nanobot-ai\nVersion: 0.1.4\nLocation: /home/u/.venv/lib/python3.12/site-packages\nRequires: typer\n";
    assert_eq!(strs(&pip_show_locations(out)), vec!["/home/u/.venv/lib/python3.12/site-packages"]);
    assert!(pip_show_locations(b"WARNING: Package(s) not found: nanobot-ai\n").is_empty());
    assert_eq!(strs(&pip_show_locations(b"Location:Location:  /x \r\n")), vec!["/x"]);
}

use nanobot_supervisor::resolver::{join_path, CommandSearch, SearchAction, SearchEvent, SearchStage};

#[test]
fn paths_join_like_path_join() {
    assert_eq!(join_path(b"/usr/bin", b"nanobot"), b"/usr/bin/nanobot".to_vec());
    assert_eq!(join_path(b"/usr/bin/", b"nanobot"), b"/usr/bin/nanobot".to_vec());
    assert_eq!(join_path(b"", b"nanobot"), b"nanobot".to_vec());
    assert_eq!(join_path(b"/usr/bin", b"/opt/x"), b"/opt/x".to_vec());
}

#[test]
fn which_result_wins() {
    let (mut s, a) = CommandSearch::new(b"nanobot".to_vec());
    assert!(matches!(a, SearchAction::Which(ref c) if c == b"nanobot"));
    match s.step(SearchEvent::Located(Some(b"/x/nanobot".to_vec()))) {
        SearchAction::Finish(Some(p)) => assert_eq!(p, b"/x/nanobot".to_vec()),
        _ => panic!("expected the search to finish"),
    }
    assert_eq!(s.stage, SearchStage::Done);
}

#[test]
fn only_the_worker_asks_the_package_manager() {
    let (mut s, _) = CommandSearch::new(b"nanobot".to_vec());
    assert!(matches!(s.step(SearchEvent::Located(None)), SearchAction::AskPackageManager));
    assert!(matches!(s.step(SearchEvent::Located(None)), SearchAction::ReadStartupFiles));
    let (mut u, _) = CommandSearch::new(b"uv".to_vec());
    assert!(matches!(u.step(SearchEvent::Located(None)), SearchAction::ReadStartupFiles));
}

#[test]
fn directories_are_probed_in_order() {
    let (mut s, _) = CommandSearch::new(b"uv".to_vec());
    s.step(SearchEvent::Located(None));
    let ev = SearchEvent::StartupFiles { home: None, contents: Vec::new(), macos: false };
    match s.step(ev) {
        SearchAction::Probe(p) => assert_eq!(p, b"/usr/local/bin/uv".to_vec()),
        _ => panic!("expected a probe"),
    }
    match s.step(SearchEvent::Exists(false)) {
        SearchAction::Probe(p) => assert_eq!(p, b"/usr/bin/uv".to_vec()),
        _ => panic!("expected a probe"),
    }
    match s.step(SearchEvent::Exists(true)) {
        SearchAction::Finish(Some(p)) => assert_eq!(p, b"/usr/bin/uv".to_vec()),
        _ => panic!("expected the search to finish"),
    }
}

#[test]
fn exhausted_search_finds_nothing() {
    let (mut s, _) = CommandSearch::new(b"uv".to_vec());
    s.step(SearchEvent::Located(None));
    s.step(SearchEvent::StartupFiles { home: None, contents: Vec::new(), macos: false });
    s.step(SearchEvent::Exists(false));
    s.step(SearchEvent::Exists(false));
    assert!(matches!(s.step(SearchEvent::Exists(false)), SearchAction::Finish(None)));
    assert!(matches!(s.step(SearchEvent::Exists(true)), SearchAction::Finish(None)));
}

use nanobot_supervisor::resolver::bin_dir_for;

#[test]
fn site_packages_location_gives_sibling_bin() {
    assert_eq!(bin_dir_for(b"/home/u/.venv/lib/python3.12/site-packages", false), b"/home/u/.venv/lib/python3.12/bin".to_vec());
    assert_eq!(bin_dir_for(b"/home/u/.venv/lib/python3.12/site-packages/", false), b"/home/u/.venv/lib/python3.12/bin".to_vec());
    assert_eq!(bin_dir_for(b"C:/Py/Lib/site-packages", true), b"C:/Py/Lib/Scripts".to_vec());
    assert_eq!(bin_dir_for(b"/site-packages", false), b"/bin".to_vec());
    assert_eq!(bin_dir_for(b"site-packages", false), b"bin".to_vec());
}

#[test]
fn other_location_is_kept() {
    assert_eq!(bin_dir_for(b"/opt/tools", false), b"/opt/tools".to_vec());
    assert_eq!(bin_dir_for(b"/opt/my-site-packages", false), b"/opt/my-site-packages".to_vec());
    assert_eq!(bin_dir_for(b"", false), Vec::<u8>::new());
}

use nanobot_supervisor::resolver::{pip_candidates, which_output_path};

#[test]
fn which_output_first_line_trimmed() {
    assert_eq!(which_output_path(b"/usr/bin/nanobot\n/other\n"), Some(b"/usr/bin/nanobot".to_vec()));
    assert_eq!(which_output_path(b"  C:\\bin\\nanobot.exe \r\n"), Some(b"C:\\bin\\nanobot.exe".to_vec()));
    assert_eq!(which_output_path(b""), None);
    assert_eq!(which_output_path(b"   \n/x\n"), None);
}

#[test]
fn pip_candidates_in_probe_order() {
    let out = b"Name: nanobot-ai\nLocation: /v/lib/python3.12/site-packages\n";
    assert_eq!(
        strs(&pip_candidates(out, false)),
        vec!["/v/lib/python3.12/bin/nanobot", "/v/lib/python3.12/bin/nanobot-ai"]
    );
    assert_eq!(
        strs(&pip_candidates(b"Location: C:/Py/Lib/site-packages\n", true)),
        vec!["C:/Py/Lib/Scripts/nanobot.exe", "C:/Py/Lib/Scripts/nanobot-ai.exe"]
    );
    assert!(pip_candidates(b"Name: x\n", false).is_empty());
}

#[test]
fn empty_located_path_counts_as_not_found() {
    let (mut s, _) = CommandSearch::new(b"nanobot".to_vec());
    assert!(matches!(s.step(SearchEvent::Located(Some(Vec::new()))), SearchAction::AskPackageManager));
    assert!(matches!(s.step(SearchEvent::Located(Some(Vec::new()))), SearchAction::ReadStartupFiles));
}
