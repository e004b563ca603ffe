//! The settings that the application keeps between runs.

use vstd::prelude::*;
use vstd::string::StringExecFns;
use crate::decode::{decode_config, decode_descriptor, find_member, member, text_at, text_member, JsonFields};
use crate::json::{lemma_members_of, lemma_models_of, members_of, models_of, JsonMember, JsonModel, JsonValue};
use crate::registry::{descriptions, ParserRegistry};
use crate::structs::{ParserConfig, ParserDescriptor};
use crate::custom_parsers::path_exists;
use crate::text::same_text;
use crate::utils::{broadcast, broadcast_info, descriptors_of, Broadcast, BroadcastModel, Level};

verus! {

/// The kept settings, as a mathematical value.
pub ghost struct StoredSettings {
    pub db_path: Seq<char>,
    pub custom_parsers: Seq<ParserDescriptor>,
}

/// The settings as the configuration file holds them: where the database is,
/// and which parsers the user has added.
#[derive(Debug)]
pub struct AppDataStorage {
    pub db_path: String,
    pub custom_parsers: Vec<ParserConfig>,
}

impl View for AppDataStorage {
    type V = StoredSettings;

    open spec fn view(&self) -> StoredSettings {
        StoredSettings {
            db_path: self.db_path@,
            custom_parsers: descriptors_of(self.custom_parsers@),
        }
    }
}

impl Default for AppDataStorage {
    /// No database yet, and no parsers of the user's.
    fn default() -> (r: Self)
        ensures
            r@ == (StoredSettings { db_path: Seq::empty(), custom_parsers: Seq::empty() }),
    {
        let r = AppDataStorage { db_path: String::new(), custom_parsers: Vec::new() };
        assert(descriptors_of(r.custom_parsers@) =~= Seq::empty());
        r
    }
}

/// The parsers that a list of JSON values describes, the values that describe
/// none left out.
pub open spec fn readable_descriptors(items: Seq<JsonModel>) -> Seq<ParserDescriptor>
    decreases items.len(),
{
    if items.len() == 0 {
        Seq::empty()
    } else {
        let front = readable_descriptors(items.drop_last());
        match decode_descriptor(items.last()) {
            Some(config) => front.push(config),
            None => front,
        }
    }
}

/// The settings that the members of a JSON object give: `db_path` where it is
/// a string, else no path; the readable entries of `custom_parsers` where it
/// is a list, else none.
pub open spec fn settings_of(fields: JsonFields) -> StoredSettings {
    StoredSettings {
        db_path: match text_member(fields, "db_path"@) {
            Some(path) => path,
            None => Seq::empty(),
        },
        custom_parsers: match member(fields, "custom_parsers"@) {
            Some(JsonModel::Array(items)) => readable_descriptors(items),
            _ => Seq::empty(),
        },
    }
}

/// Whether a parser was added by the user, and so is kept in the settings.
pub open spec fn is_custom(config: ParserDescriptor) -> bool {
    config.kind != "default"@
}

impl AppDataStorage {
    /// Reads the settings leniently from the members of a JSON object: what
    /// is missing or of the wrong type is taken as absent.
    pub fn from_file_hashmap(storage: &Vec<JsonMember>) -> (r: Self)
        ensures
            r@ == settings_of(members_of(storage@)),
    {
        proof {
            lemma_members_of(storage@);
        }
        let db_path = match text_at(storage, "db_path") {
            Some(path) => path,
            None => String::new(),
        };
        let mut custom_parsers: Vec<ParserConfig> = Vec::new();
        proof {
            assert(descriptors_of(custom_parsers@) =~= Seq::empty());
        }
        match find_member(storage, "custom_parsers") {
            Some(at) => match &storage[at].value {
                JsonValue::Array(items) => {
                    let ghost models = models_of(items@);
                    proof {
                        lemma_models_of(items@);
                        assert(models.subrange(0, 0) =~= Seq::empty());
                    }
                    let mut i: usize = 0;
                    while i < items.len()
                        invariant
                            i <= items@.len(),
                            models == models_of(items@),
                            models.len() == items@.len(),
                            forall|k: int|
                                0 <= k < items@.len() ==> models[k] == (#[trigger] items@[k])@,
                            descriptors_of(custom_parsers@) == readable_descriptors(
                                models.subrange(0, i as int),
                            ),
                        decreases items.len() - i,
                    {
                        let ghost next = models.subrange(0, i + 1);
                        let ghost before = descriptors_of(custom_parsers@);
                        proof {
                            assert(next.drop_last() =~= models.subrange(0, i as int));
                            assert(next.last() == models[i as int]);
                        }
                        match decode_config(&items[i]) {
                            Some(config) => {
                                custom_parsers.push(config);
                                proof {
                                    assert(descriptors_of(custom_parsers@) =~= before.push(config@));
                                }
                            },
                            None => {},
                        }
                        i = i + 1;
                    }
                    proof {
                        assert(models.subrange(0, i as int) =~= models);
                    }
                },
                _ => {},
            },
            None => {},
        }
        AppDataStorage { db_path, custom_parsers }
    }

    /// The settings to keep for a database path and a registry: the path, and
    /// the parsers that the user added, in the order of registration. The
    /// built-in parser is not kept; every start registers it anew.
    pub fn from_registry(db_path: &str, registry: &ParserRegistry) -> (r: Self)
        ensures
            r@ == (StoredSettings {
                db_path: db_path@,
                custom_parsers: descriptions(registry@).filter(
                    |config: ParserDescriptor| is_custom(config),
                ),
            }),
    {
        let ghost keep = |config: ParserDescriptor| is_custom(config);
        let ghost all_models = descriptions(registry@);
        let all = registry.list_all();
        let mut custom_parsers: Vec<ParserConfig> = Vec::new();
        let mut i: usize = 0;
        proof {
            assert(descriptors_of(all@) =~= all_models);
            assert(all_models.subrange(0, 0) =~= Seq::empty());
            reveal_with_fuel(Seq::filter, 1);
            assert(descriptors_of(custom_parsers@) =~= all_models.subrange(0, 0).filter(keep));
        }
        while i < all.len()
            invariant
                i <= all@.len(),
                all_models == descriptors_of(all@),
                keep == |config: ParserDescriptor| is_custom(config),
                descriptors_of(custom_parsers@) == all_models.subrange(0, i as int).filter(keep),
            decreases all.len() - i,
        {
            let ghost seen = all_models.subrange(0, i as int);
            let ghost before = descriptors_of(custom_parsers@);
            proof {
                assert(all_models.subrange(0, i + 1) =~= seen.push(all@[i as int]@));
                seen.lemma_filter_push(all@[i as int]@, keep);
            }
            if !same_text(all[i].kind.as_str(), "default") {
                let config = all[i].clone();
                custom_parsers.push(config);
                proof {
                    assert(descriptors_of(custom_parsers@) =~= before.push(all@[i as int]@));
                }
            }
            i = i + 1;
        }
        proof {
            assert(all_models.subrange(0, i as int) =~= all_models);
        }
        AppDataStorage { db_path: String::from_str(db_path), custom_parsers }
    }
}

/// What to do about the database after the settings were read anew.
#[derive(Debug)]
pub enum DatabasePlan {
    /// The settings name no database: keep the one in use, and say so.
    Retain(Broadcast),
    /// Open the database at the path.
    Open,
    /// Create a database at the path.
    Create,
}

/// The line for the log where the settings name no database.
pub open spec fn no_database_report() -> BroadcastModel {
    broadcast(
        "Database Path Error"@,
        "Database path is empty. Retaining current path."@,
        Level::Error,
        false,
    )
}

/// Whether `plan` is what the settings ask for: an empty path keeps the
/// database in use, a path with a file opens it, any other path creates one.
pub open spec fn is_database_plan(plan: DatabasePlan, db_path: Seq<char>, file_exists: bool) -> bool {
    if db_path.len() == 0 {
        plan matches DatabasePlan::Retain(report) && report@ == no_database_report()
    } else if file_exists {
        plan is Open
    } else {
        plan is Create
    }
}

/// Decides about the database once it is known whether a file is at its path.
pub fn database_plan_checked(db_path: &str, file_exists: bool) -> (r: DatabasePlan)
    ensures
        is_database_plan(r, db_path@, file_exists),
{
    if db_path.is_empty() {
        DatabasePlan::Retain(
            broadcast_info(
                "Database Path Error",
                "Database path is empty. Retaining current path.",
                Level::Error,
                false,
            ),
        )
    } else if file_exists {
        DatabasePlan::Open
    } else {
        DatabasePlan::Create
    }
}

/// Decides about the database, looking for a file at its path unless the path
/// is empty.
pub fn database_plan(db_path: &str) -> (r: DatabasePlan)
    ensures
        exists|file_exists: bool| #[trigger] is_database_plan(r, db_path@, file_exists),
{
    let file_exists = if db_path.is_empty() {
        false
    } else {
        path_exists(db_path)
    };
    let plan = database_plan_checked(db_path, file_exists);
    assert(is_database_plan(plan, db_path@, file_exists));
    plan
}

/// The page that the main window opens on: the bookmarks where a database is
/// set, the welcome page where none is.
pub fn start_page(db_path: &str) -> (r: &'static str)
    ensures
        r@ == if db_path@.len() == 0 {
            "/"@
        } else {
            "main/bookmarks/"@
        },
{
    if db_path.is_empty() {
        "/"
    } else {
        "main/bookmarks/"
    }
}

/// What happened to the configuration file.
#[derive(Debug)]
pub enum ConfigChange {
    /// The file was written.
    Modified,
    /// The file was removed; the text names what was removed.
    Removed(String),
    /// Anything else.
    Other,
}

/// The line for the log about a configuration file that was removed.
pub open spec fn removed_report(paths: Seq<char>) -> BroadcastModel {
    broadcast(
        "File Removed"@,
        "File removed: "@ + paths + "\n Using defaults."@,
        Level::Warn,
        false,
    )
}

/// What to make known about a change of the configuration file, and whether
/// to read the settings anew: a written file is read anew, a removed file is
/// reported and the settings are read anew, anything else is passed over.
pub fn config_change_plan(change: &ConfigChange) -> (r: (Option<Broadcast>, bool))
    ensures
        r.1 == !(change is Other),
        crate::utils::report_of(r.0) == match change {
            ConfigChange::Removed(paths) => Some(removed_report(paths@)),
            _ => None,
        },
{
    match change {
        ConfigChange::Modified => (None, true),
        ConfigChange::Removed(paths) => {
            let body = String::from_str("File removed: ").concat(paths.as_str()).concat(
                "\n Using defaults.",
            );
            (Some(broadcast_info("File Removed", body.as_str(), Level::Warn, false)), true)
        },
        ConfigChange::Other => (None, false),
    }
}

} // verus!
