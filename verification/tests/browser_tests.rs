use drawbridge_vpn::browser::{
    chrome_candidate_paths, chrome_profile_dir_name, ends_with_blocked_extension,
    find_chrome_executable, should_block_request, BrowserDirs, CHROME_CANDIDATE_PATHS,
};

#[test]
fn chrome_is_the_first_candidate_that_exists() {
    assert_eq!(find_chrome_executable(&vec![false, true]), Ok(CHROME_CANDIDATE_PATHS[1].to_string()));
    assert_eq!(find_chrome_executable(&vec![true]), Ok(CHROME_CANDIDATE_PATHS[0].to_string()));
    assert_eq!(
        find_chrome_executable(&vec![false, false, false, false]),
        Err("Could not find Google Chrome. Install it from https://www.google.com/chrome/ and try again".to_string())
    );
}

#[test]
fn chrome_is_looked_for_in_the_usual_places() {
    assert_eq!(
        chrome_candidate_paths(),
        vec![
            "/Applications/Google Chrome.app/Contents/MacOS/Google Chrome",
            "/Applications/Google Chrome Beta.app/Contents/MacOS/Google Chrome Beta",
            "/Applications/Google Chrome Canary.app/Contents/MacOS/Google Chrome Canary",
            "/Applications/Chromium.app/Contents/MacOS/Chromium",
        ]
    );
    assert!(find_chrome_executable(&vec![]).is_err());
}

#[test]
fn chrome_profile_dirs_are_fresh() {
    let a = chrome_profile_dir_name();
    let b = chrome_profile_dir_name();
    assert!(a.starts_with("drawbridge-vpn-chrome-"));
    assert_eq!(a.len(), "drawbridge-vpn-chrome-".len() + 36);
    assert_ne!(a, b);
}

#[test]
fn unregistering_forgets_every_copy_and_keeps_the_rest() {
    let mut dirs = BrowserDirs::new();
    dirs.register_chrome_dir("/tmp/a".to_string());
    dirs.register_chrome_dir("/tmp/b".to_string());
    dirs.register_chrome_dir("/tmp/a".to_string());
    dirs.unregister_chrome_dir("/tmp/a");
    assert_eq!(dirs.dirs, vec!["/tmp/b".to_string()]);
    dirs.unregister_chrome_dir("/tmp/zzz");
    assert_eq!(dirs.dirs, vec!["/tmp/b".to_string()]);
}

#[test]
fn taking_all_dirs_empties_the_registry() {
    let mut dirs = BrowserDirs::new();
    dirs.register_chrome_dir("/tmp/a".to_string());
    dirs.register_chrome_dir("/tmp/b".to_string());
    assert_eq!(dirs.take_all(), vec!["/tmp/a".to_string(), "/tmp/b".to_string()]);
    assert!(dirs.take_all().is_empty());
}

#[test]
fn images_and_fonts_are_blocked_whatever_their_case() {
    assert!(should_block_request("https://cdn.example.com/logo.PNG"));
    assert!(should_block_request("https://x/font.woff2"));
    assert!(should_block_request("https://x/a.JpEg"));
    assert!(!should_block_request("https://x/app.js"));
    assert!(!should_block_request("https://x/png"));
    assert!(!should_block_request("https://x/a.png?v=1"));
    assert!(ends_with_blocked_extension(".gif"));
    assert!(!ends_with_blocked_extension("gif"));
}
