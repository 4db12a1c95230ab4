use noteworthy::setup::{GitHost, Setup, SetupPage};

#[test]
fn git_host() {
    assert_eq!(GitHost::Github, GitHost::from_int(0));
    assert_eq!(GitHost::Gitlab, GitHost::from_int(1));
    assert_eq!(GitHost::Custom, GitHost::from_int(2));
}

#[test]
fn git_host_out_of_range() {
    assert_eq!(GitHost::try_from_int(3), None);
    assert_eq!(GitHost::try_from_int(u8::MAX), None);
    assert_eq!(GitHost::try_from_int(1), Some(GitHost::Gitlab));
    assert_eq!(GitHost::Custom.to_int(), 2);
}

#[test]
fn setup_navigation() {
    let mut setup = Setup::new();
    assert!(!setup.navigation_visible());
    setup.setup_git_host();
    assert_eq!(setup.page, SetupPage::SelectProvider);
    assert!(setup.navigation_visible());
    assert!(setup.navigate_forward(true, 1, ""));
    assert_eq!(setup.page, SetupPage::CreateRepo);
    assert_eq!(setup.config.provider, Some(GitHost::Gitlab));
    assert_eq!(setup.config.is_automatic, Some(true));
    assert!(!setup.navigate_forward(true, 1, "https://example.com/notes.git"));
    assert_eq!(setup.config.clone_url.as_deref(), Some("https://example.com/notes.git"));
    setup.navigate_back();
    assert_eq!(setup.page, SetupPage::SelectProvider);
    setup.navigate_back();
    assert_eq!(setup.page, SetupPage::Welcome);
}
