//! Stable application paths.  A path is held as its base directory, as the
//! operating system gave it, followed by the components joined below it;
//! the paths never depend on the bundle identifier, so changing it later
//! does not move user data.
use vstd::prelude::*;

use crate::text::{push_str, str_contains_char, str_eq, string_from};

verus! {

pub const DATA_ROOT_NAME: &'static str = "Meeting Assistant";

pub const LEGACY_IDENTIFIER: &'static str = "com.meetily.ai";

pub const CURRENT_IDENTIFIER: &'static str = "com.ghassanaq.meetingassistant";

pub const ANALYTICS_STORE: &'static str = "analytics.json";

pub const PREFERENCES_STORE: &'static str = "preferences.json";

pub const API_STORE: &'static str = "store.json";

pub const ONBOARDING_STORE: &'static str = "onboarding-status.json";

pub const NOTIFICATIONS_STORE: &'static str = "notifications.json";

pub const RECORDING_PREFERENCES_STORE: &'static str = "recording_preferences.json";

/// The application stores that may be opened by name.
pub open spec fn store_files() -> Seq<Seq<char>> {
    seq![
        ANALYTICS_STORE@,
        PREFERENCES_STORE@,
        API_STORE@,
        ONBOARDING_STORE@,
        NOTIFICATIONS_STORE@,
        RECORDING_PREFERENCES_STORE@,
    ]
}

/// The names of the application stores, in their fixed order.
pub fn store_file_names() -> (r: Vec<&'static str>)
    ensures
        r@.len() == store_files().len(),
        forall|i: int| 0 <= i < r@.len() ==> #[trigger] r@[i]@ == store_files()[i],
{
    let mut v: Vec<&'static str> = Vec::new();
    v.push(ANALYTICS_STORE);
    v.push(PREFERENCES_STORE);
    v.push(API_STORE);
    v.push(ONBOARDING_STORE);
    v.push(NOTIFICATIONS_STORE);
    v.push(RECORDING_PREFERENCES_STORE);
    v
}

/// The application's directories, each as a base and its components.
#[derive(Debug, Clone, PartialEq, Eq)]
pub struct AppPaths {
    root: Vec<String>,
    stores: Vec<String>,
    models: Vec<String>,
    legacy_data_root: Vec<String>,
    legacy_notification_path: Vec<String>,
    identifier_roaming_root: Vec<String>,
    identifier_local_root: Vec<String>,
}

pub open spec fn path_view(p: Seq<String>) -> Seq<Seq<char>> {
    p.map_values(|s: String| s@)
}

fn path(base: &str) -> (r: Vec<String>)
    ensures
        path_view(r@) == seq![base@],
{
    let mut v: Vec<String> = Vec::new();
    v.push(string_from(base));
    proof {
        assert(path_view(v@) =~= seq![base@]);
    }
    v
}

/// `Path::join` of one component.
fn join(p: &Vec<String>, component: &str) -> (r: Vec<String>)
    ensures
        path_view(r@) == path_view(p@).push(component@),
{
    let mut v: Vec<String> = Vec::new();
    let mut i: usize = 0;
    while i < p.len()
        invariant
            0 <= i <= p@.len(),
            path_view(v@) == path_view(p@.subrange(0, i as int)),
            v@.len() == i,
        decreases p.len() - i,
    {
        let c = p[i].clone();
        let ghost before = v@;
        v.push(c);
        proof {
            assert(v@ == before.push(c));
            assert(c == p@[i as int]);
            assert(before.len() == i);
            assert forall|k: int| 0 <= k < i + 1 implies #[trigger] path_view(v@)[k] == path_view(
                p@.subrange(0, i + 1),
            )[k] by {
                if k < i {
                    assert(path_view(before)[k] == path_view(p@.subrange(0, i as int))[k]);
                }
            }
            assert(path_view(v@) =~= path_view(p@.subrange(0, i + 1)));
        }
        i += 1;
    }
    v.push(string_from(component));
    proof {
        assert(p@.subrange(0, p@.len() as int) =~= p@);
        assert(path_view(v@) =~= path_view(p@).push(component@));
    }
    v
}

/// Whether `name` is one of the application stores.
pub fn is_store_file(name: &str) -> (b: bool)
    ensures
        b == store_files().contains(name@),
{
    let names = store_file_names();
    let mut i: usize = 0;
    while i < names.len()
        invariant
            0 <= i <= names@.len(),
            names@.len() == store_files().len(),
            forall|k: int| 0 <= k < names@.len() ==> #[trigger] names@[k]@ == store_files()[k],
            forall|k: int| 0 <= k < i ==> store_files()[k] != name@,
        decreases names.len() - i,
    {
        if str_eq(names[i], name) {
            proof {
                assert(store_files()[i as int] == name@);
            }
            return true;
        }
        i += 1;
    }
    false
}

impl AppPaths {
    pub closed spec fn root_view(&self) -> Seq<Seq<char>> {
        path_view(self.root@)
    }

    pub closed spec fn stores_view(&self) -> Seq<Seq<char>> {
        path_view(self.stores@)
    }

    pub closed spec fn models_view(&self) -> Seq<Seq<char>> {
        path_view(self.models@)
    }

    pub closed spec fn legacy_root_view(&self) -> Seq<Seq<char>> {
        path_view(self.legacy_data_root@)
    }

    pub closed spec fn legacy_notification_view(&self) -> Seq<Seq<char>> {
        path_view(self.legacy_notification_path@)
    }

    pub closed spec fn identifier_roaming_view(&self) -> Seq<Seq<char>> {
        path_view(self.identifier_roaming_root@)
    }

    pub closed spec fn identifier_local_view(&self) -> Seq<Seq<char>> {
        path_view(self.identifier_local_root@)
    }

    /// The directories below the operating system's local-data, roaming-data
    /// and configuration bases.
    pub fn from_bases(
        local_data_base: &str,
        roaming_data_base: &str,
        config_base: &str,
        current_identifier: &str,
    ) -> (r: AppPaths)
        ensures
            r.root_view() == seq![local_data_base@, DATA_ROOT_NAME@],
            r.stores_view() == seq![local_data_base@, DATA_ROOT_NAME@, "stores"@],
            r.models_view() == seq![local_data_base@, DATA_ROOT_NAME@, "models"@],
            r.legacy_root_view() == seq![roaming_data_base@, LEGACY_IDENTIFIER@],
            r.legacy_notification_view() == seq![config_base@, "meetily"@, NOTIFICATIONS_STORE@],
            r.identifier_roaming_view() == seq![roaming_data_base@, current_identifier@],
            r.identifier_local_view() == seq![local_data_base@, current_identifier@],
    {
        let local = path(local_data_base);
        let roaming = path(roaming_data_base);
        let config = path(config_base);
        let root = join(&local, DATA_ROOT_NAME);
        let stores = join(&root, "stores");
        let models = join(&root, "models");
        let legacy_data_root = join(&roaming, LEGACY_IDENTIFIER);
        let meetily = join(&config, "meetily");
        let legacy_notification_path = join(&meetily, NOTIFICATIONS_STORE);
        let identifier_roaming_root = join(&roaming, current_identifier);
        let identifier_local_root = join(&local, current_identifier);
        let r = AppPaths {
            root,
            stores,
            models,
            legacy_data_root,
            legacy_notification_path,
            identifier_roaming_root,
            identifier_local_root,
        };
        proof {
            assert(r.root_view() =~= seq![local_data_base@, DATA_ROOT_NAME@]);
            assert(r.stores_view() =~= seq![local_data_base@, DATA_ROOT_NAME@, "stores"@]);
            assert(r.models_view() =~= seq![local_data_base@, DATA_ROOT_NAME@, "models"@]);
            assert(r.legacy_root_view() =~= seq![roaming_data_base@, LEGACY_IDENTIFIER@]);
            assert(r.legacy_notification_view() =~= seq![
                config_base@,
                "meetily"@,
                NOTIFICATIONS_STORE@,
            ]);
            assert(r.identifier_roaming_view() =~= seq![roaming_data_base@, current_identifier@]);
            assert(r.identifier_local_view() =~= seq![local_data_base@, current_identifier@]);
        }
        r
    }

    pub fn root(&self) -> (r: &Vec<String>)
        ensures
            path_view(r@) == self.root_view(),
    {
        &self.root
    }

    pub fn database_path(&self) -> (r: Vec<String>)
        ensures
            path_view(r@) == self.root_view().push("meeting_minutes.sqlite"@),
    {
        join(&self.root, "meeting_minutes.sqlite")
    }

    pub fn legacy_backend_database_path(&self) -> (r: Vec<String>)
        ensures
            path_view(r@) == self.root_view().push("meeting_minutes.db"@),
    {
        join(&self.root, "meeting_minutes.db")
    }

    pub fn stores_dir(&self) -> (r: &Vec<String>)
        ensures
            path_view(r@) == self.stores_view(),
    {
        &self.stores
    }

    pub fn models_dir(&self) -> (r: &Vec<String>)
        ensures
            path_view(r@) == self.models_view(),
    {
        &self.models
    }

    pub fn summary_models_dir(&self) -> (r: Vec<String>)
        ensures
            path_view(r@) == self.models_view().push("summary"@),
    {
        join(&self.models, "summary")
    }

    /// The path of an application store; only the known stores may be
    /// opened, so a name can never reach outside the stores directory.
    pub fn store_path(&self, name: &str) -> (r: Result<Vec<String>, String>)
        ensures
            store_files().contains(name@) ==> (r matches Ok(p) && path_view(p@)
                == self.stores_view().push(name@)),
            !store_files().contains(name@) ==> (r matches Err(m) && m@
                == "unsupported application store: "@ + name@),
    {
        if !is_store_file(name) {
            let mut message = string_from("unsupported application store: ");
            push_str(&mut message, name);
            return Err(message);
        }
        Ok(join(&self.stores, name))
    }

    pub fn migration_journal_path(&self) -> (r: Vec<String>)
        ensures
            path_view(r@) == self.root_view().push("storage-migration-v1.json"@),
    {
        join(&self.root, "storage-migration-v1.json")
    }

    pub fn legacy_data_root(&self) -> (r: &Vec<String>)
        ensures
            path_view(r@) == self.legacy_root_view(),
    {
        &self.legacy_data_root
    }

    pub fn legacy_notification_path(&self) -> (r: &Vec<String>)
        ensures
            path_view(r@) == self.legacy_notification_view(),
    {
        &self.legacy_notification_path
    }

    pub fn identifier_roaming_root(&self) -> (r: &Vec<String>)
        ensures
            path_view(r@) == self.identifier_roaming_view(),
    {
        &self.identifier_roaming_root
    }

    pub fn identifier_local_root(&self) -> (r: &Vec<String>)
        ensures
            path_view(r@) == self.identifier_local_view(),
    {
        &self.identifier_local_root
    }

    /// A temporary recording file directly under the data root; a name with
    /// a path separator is refused.
    pub fn temporary_recording_path(&self, filename: &str) -> (r: Result<Vec<String>, String>)
        ensures
            (crate::text::contains_char(filename@, '/') || crate::text::contains_char(
                filename@,
                '\\',
            )) ==> (r matches Err(m) && m@ == "recording filename must not contain path separators"@),
            !(crate::text::contains_char(filename@, '/') || crate::text::contains_char(
                filename@,
                '\\',
            )) ==> (r matches Ok(p) && path_view(p@) == self.root_view().push(filename@)),
    {
        if str_contains_char(filename, '/') || str_contains_char(filename, '\\') {
            return Err(string_from("recording filename must not contain path separators"));
        }
        Ok(join(&self.root, filename))
    }
}

/// An application store opened by name always lies directly in the stores
/// directory, under one of the known store names.
pub proof fn lemma_store_paths_stay_in_stores(paths: AppPaths, name: Seq<char>, p: Seq<Seq<char>>)
    requires
        store_files().contains(name),
        p == paths.stores_view().push(name),
    ensures
        p.len() == paths.stores_view().len() + 1,
        p.subrange(0, paths.stores_view().len() as int) == paths.stores_view(),
        store_files().contains(p.last()),
{
    assert(p.subrange(0, paths.stores_view().len() as int) =~= paths.stores_view());
}

} // verus!
