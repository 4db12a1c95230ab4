//! The first-run setup: the choice of a git host and the pages the user
//! steps through.
use vstd::prelude::*;

verus! {

/// Where the notes repository is hosted.
#[derive(Debug, Clone, Copy, PartialEq, Eq)]
pub enum GitHost {
    Github,
    Gitlab,
    Custom,
}

/// The host at a position of the host chooser: 0, 1 and 2 in order.
pub open spec fn git_host_at(index: u8) -> Option<GitHost> {
    if index == 0 {
        Some(GitHost::Github)
    } else if index == 1 {
        Some(GitHost::Gitlab)
    } else if index == 2 {
        Some(GitHost::Custom)
    } else {
        None
    }
}

impl GitHost {
    /// The host at position `index` of the chooser, which must be one of
    /// its three positions.
    pub fn from_int(index: u8) -> (host: GitHost)
        requires
            index <= 2,
        ensures
            git_host_at(index) == Some(host),
    {
        if index == 0 {
            GitHost::Github
        } else if index == 1 {
            GitHost::Gitlab
        } else {
            GitHost::Custom
        }
    }

    /// The host at position `index` of the chooser, if there is one.
    pub fn try_from_int(index: u8) -> (host: Option<GitHost>)
        ensures
            host == git_host_at(index),
    {
        if index <= 2 {
            Some(GitHost::from_int(index))
        } else {
            None
        }
    }

    /// The chooser position of the host.
    pub fn to_int(&self) -> (index: u8)
        ensures
            git_host_at(index) == Some(*self),
    {
        match self {
            GitHost::Github => 0,
            GitHost::Gitlab => 1,
            GitHost::Custom => 2,
        }
    }
}

/// The choices made so far.
#[derive(Debug, PartialEq, Eq)]
pub struct SetupConfig {
    pub provider: Option<GitHost>,
    pub is_automatic: Option<bool>,
    pub clone_url: Option<String>,
}

impl Default for SetupConfig {
    /// Nothing chosen yet.
    fn default() -> (config: SetupConfig)
        ensures
            config.provider is None,
            config.is_automatic is None,
            config.clone_url is None,
    {
        SetupConfig { provider: None, is_automatic: None, clone_url: None }
    }
}

/// The pages of the setup.
#[derive(Debug, Clone, Copy, PartialEq, Eq)]
pub enum SetupPage {
    Welcome,
    SelectProvider,
    CreateRepo,
}

/// The setup's state: the page shown and the choices made.
#[derive(Debug)]
pub struct Setup {
    pub page: SetupPage,
    pub config: SetupConfig,
}

impl Setup {
    /// A setup on its welcome page, nothing chosen.
    pub fn new() -> (setup: Setup)
        ensures
            setup.page == SetupPage::Welcome,
            setup.config.provider is None,
            setup.config.is_automatic is None,
            setup.config.clone_url is None,
    {
        Setup { page: SetupPage::Welcome, config: SetupConfig::default() }
    }

    /// Whether the back and forward buttons show: everywhere but on the
    /// welcome page.
    pub fn navigation_visible(&self) -> (visible: bool)
        ensures
            visible == (self.page != SetupPage::Welcome),
    {
        match self.page {
            SetupPage::Welcome => false,
            _ => true,
        }
    }

    /// Starts choosing a git host.
    pub fn setup_git_host(&mut self)
        ensures
            final(self).page == SetupPage::SelectProvider,
            final(self).config == old(self).config,
    {
        self.page = SetupPage::SelectProvider;
    }

    /// Goes forward from the page shown, which is not the welcome page.
    /// From the host choice, the choice (automatic or not, and the host at
    /// `provider_index`, which must be a host) is recorded and the
    /// repository page follows; on the repository page, `clone_url` is
    /// recorded. The result tells whether the clone URL has to be checked
    /// again.
    pub fn navigate_forward(&mut self, is_automatic: bool, provider_index: u32, clone_url: &str) -> (recheck_url: bool)
        requires
            old(self).page != SetupPage::Welcome,
            old(self).page == SetupPage::SelectProvider ==> (provider_index as u8) <= 2,
        ensures
            old(self).page == SetupPage::SelectProvider ==> {
                &&& final(self).page == SetupPage::CreateRepo
                &&& final(self).config.is_automatic == Some(is_automatic)
                &&& git_host_at(provider_index as u8) == final(self).config.provider
                &&& final(self).config.clone_url == old(self).config.clone_url
                &&& recheck_url
            },
            old(self).page == SetupPage::CreateRepo ==> {
                &&& final(self).page == SetupPage::CreateRepo
                &&& final(self).config.clone_url matches Some(url) && url@ == clone_url@
                &&& final(self).config.is_automatic == old(self).config.is_automatic
                &&& final(self).config.provider == old(self).config.provider
                &&& !recheck_url
            },
    {
        match self.page {
            SetupPage::SelectProvider => {
                self.config.is_automatic = Some(is_automatic);
                self.config.provider = Some(GitHost::from_int(provider_index as u8));
                self.page = SetupPage::CreateRepo;
                true
            },
            _ => {
                self.config.clone_url = Some(clone_url.to_owned());
                false
            },
        }
    }

    /// Goes back from the page shown, which is not the welcome page.
    pub fn navigate_back(&mut self)
        requires
            old(self).page != SetupPage::Welcome,
        ensures
            old(self).page == SetupPage::SelectProvider ==> final(self).page
                == SetupPage::Welcome,
            old(self).page == SetupPage::CreateRepo ==> final(self).page
                == SetupPage::SelectProvider,
            final(self).config == old(self).config,
    {
        match self.page {
            SetupPage::CreateRepo => {
                self.page = SetupPage::SelectProvider;
            },
            _ => {
                self.page = SetupPage::Welcome;
            },
        }
    }
}

} // verus!
