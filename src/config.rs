//! The user's preferences and history of finished downloads, and the state
//! that the application keeps around the registry.

use vstd::prelude::*;
use crate::manager::DownloadManager;
use crate::status::opt_view;

verus! {

/// Transfers allowed at once unless the user chose otherwise.
pub const DEFAULT_MAX_CONCURRENT: usize = 3;

/// The key that protects the transfer tool's configuration as it is served.
pub const RCLONE_ENCRYPTION_KEY: &'static str = "armgddn-secure-key-2025";

/// The server address used unless the user chose another.
pub open spec fn default_server_url() -> Seq<char> {
    "https://www.armgddnbrowser.com"@
}

/// A download that finished, as the history keeps it.
#[derive(Debug, Clone)]
pub struct DownloadHistoryItem {
    pub filename: String,
    pub size: u64,
    pub completed_at: String,
    pub download_path: String,
}

/// The user's preferences and download history.
#[derive(Debug)]
pub struct AppConfig {
    pub download_path: String,
    pub auth_token: Option<String>,
    pub max_concurrent_downloads: usize,
    pub server_url: String,
    pub download_history: Vec<DownloadHistoryItem>,
}

impl AppConfig {
    /// The preferences of a first run that downloads into `download_path`.
    pub fn defaults_for(download_path: String) -> (r: AppConfig)
        ensures
            r.download_path@ == download_path@,
            r.auth_token is None,
            r.max_concurrent_downloads == DEFAULT_MAX_CONCURRENT,
            r.server_url@ == default_server_url(),
            r.download_history@.len() == 0,
    {
        AppConfig {
            download_path,
            auth_token: None,
            max_concurrent_downloads: DEFAULT_MAX_CONCURRENT,
            server_url: String::from_str("https://www.armgddnbrowser.com"),
            download_history: Vec::new(),
        }
    }
}

/// The application's state: the registry and the preferences it was made from.
pub struct AppState {
    pub download_manager: DownloadManager,
    pub download_path: String,
    pub auth_token: Option<String>,
    pub max_concurrent_downloads: usize,
    pub server_url: String,
    pub download_history: Vec<DownloadHistoryItem>,
}

impl AppState {
    /// The key that decrypts the transfer tool's configuration.
    pub fn get_encryption_key() -> (r: &'static str)
        ensures
            r@ == RCLONE_ENCRYPTION_KEY@,
    {
        RCLONE_ENCRYPTION_KEY
    }

    /// The state for the preferences `config`: an empty registry that
    /// downloads where they say, with their ceiling, server and token.
    pub fn from_config(config: AppConfig) -> (r: AppState)
        ensures
            r.download_manager.wf(),
            r.download_manager@.entries.len() == 0,
            r.download_manager@.download_path == config.download_path@,
            r.download_manager@.max_concurrent == config.max_concurrent_downloads,
            r.download_manager@.server_url == config.server_url@,
            r.download_manager@.auth_token == opt_view(config.auth_token),
            r.download_path@ == config.download_path@,
            opt_view(r.auth_token) == opt_view(config.auth_token),
            r.max_concurrent_downloads == config.max_concurrent_downloads,
            r.server_url@ == config.server_url@,
            r.download_history@ == config.download_history@,
    {
        let download_manager = DownloadManager::new(
            config.download_path.clone(),
            config.max_concurrent_downloads,
            config.server_url.clone(),
            crate::status::clone_opt_string(&config.auth_token),
        );
        AppState {
            download_manager,
            download_path: config.download_path,
            auth_token: config.auth_token,
            max_concurrent_downloads: config.max_concurrent_downloads,
            server_url: config.server_url,
            download_history: config.download_history,
        }
    }
    /// The preferences to persist: the current settings and history.
    pub fn to_config(&self) -> (r: AppConfig)
        ensures
            r.download_path@ == self.download_path@,
            opt_view(r.auth_token) == opt_view(self.auth_token),
            r.max_concurrent_downloads == self.max_concurrent_downloads,
            r.server_url@ == self.server_url@,
            r.download_history@.len() == self.download_history@.len(),
            forall|k: int| 0 <= k < r.download_history@.len() ==> r.download_history@[k].same_as(self.download_history@[k]),
    {
        let mut history: Vec<DownloadHistoryItem> = Vec::new();
        let mut k: usize = 0;
        while k < self.download_history.len()
            invariant
                k <= self.download_history@.len(),
                history@.len() == k,
                forall|j: int| 0 <= j < k ==> history@[j].same_as(self.download_history@[j]),
            decreases self.download_history@.len() - k,
        {
            history.push(self.download_history[k].duplicate());
            k = k + 1;
        }
        AppConfig {
            download_path: self.download_path.clone(),
            auth_token: crate::status::clone_opt_string(&self.auth_token),
            max_concurrent_downloads: self.max_concurrent_downloads,
            server_url: self.server_url.clone(),
            download_history: history,
        }
    }

    /// Records a finished download at the end of the history.
    pub fn add_to_history(&mut self, item: DownloadHistoryItem)
        ensures
            final(self).download_history@ == old(self).download_history@.push(item),
            final(self).download_path == old(self).download_path,
            final(self).download_manager == old(self).download_manager,
    {
        self.download_history.push(item);
    }

    /// Empties the history.
    pub fn clear_download_history(&mut self)
        ensures
            final(self).download_history@.len() == 0,
            final(self).download_manager == old(self).download_manager,
    {
        self.download_history.clear();
    }

    /// Changes the directory that the preferences name for downloads.
    pub fn set_download_path(&mut self, path: String)
        ensures
            final(self).download_path@ == path@,
            final(self).download_history == old(self).download_history,
            final(self).download_manager == old(self).download_manager,
    {
        self.download_path = path;
    }

    /// Sets the token sent to the server.
    pub fn set_auth_token(&mut self, token: String)
        ensures
            opt_view(final(self).auth_token) == Some(token@),
            final(self).download_history == old(self).download_history,
            final(self).download_manager == old(self).download_manager,
    {
        self.auth_token = Some(token);
    }

    /// Sets how many transfers may run at once, in the preferences and in
    /// the registry.
    pub fn set_concurrent_downloads(&mut self, count: usize)
        requires
            old(self).download_manager.wf(),
        ensures
            final(self).download_manager.wf(),
            final(self).max_concurrent_downloads == count,
            final(self).download_manager@ == (crate::manager::ManagerView {
                max_concurrent: count,
                ..old(self).download_manager@
            }),
    {
        self.download_manager.set_max_concurrent(count);
        self.max_concurrent_downloads = count;
    }
}

impl DownloadHistoryItem {
    pub open spec fn same_as(&self, other: DownloadHistoryItem) -> bool {
        &&& self.filename@ == other.filename@
        &&& self.size == other.size
        &&& self.completed_at@ == other.completed_at@
        &&& self.download_path@ == other.download_path@
    }

    /// A copy of this item.
    pub fn duplicate(&self) -> (r: DownloadHistoryItem)
        ensures
            r.same_as(*self),
    {
        DownloadHistoryItem {
            filename: self.filename.clone(),
            size: self.size,
            completed_at: self.completed_at.clone(),
            download_path: self.download_path.clone(),
        }
    }
}

} // verus!
