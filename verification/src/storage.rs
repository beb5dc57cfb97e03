//! How learned state is kept in `UI.dat`.
//!
//! `UI.dat` is an SQLite database with one row per widget: the components of the
//! widget's key, and the whole model as JSON in a single column. This module
//! holds the statements and the shape of a row; the caller runs them.
use vstd::prelude::*;

use crate::paths::{user_file_path, NoBaseDir};
use crate::types::WidgetKey;
#[allow(unused_imports)]
use crate::paths::user_file;
#[allow(unused_imports)]
use crate::types::{fingerprint_of, WidgetIdentity};
#[allow(unused_imports)]
use vstd::utf8::encode_utf8;

verus! {

/// Makes the table, if there is none yet.
pub const SCHEMA: &'static str = "CREATE TABLE IF NOT EXISTS widgets (
    fingerprint INTEGER PRIMARY KEY,
    app_id      TEXT NOT NULL,
    role        TEXT NOT NULL,
    label       TEXT NOT NULL,
    tree_path   TEXT NOT NULL,
    model_json  TEXT NOT NULL,
    updated_at  INTEGER NOT NULL
);";

/// Saves a row. A widget that has a row keeps it, with the new model and the new
/// time.
pub const UPSERT: &'static str = "INSERT INTO widgets (fingerprint, app_id, role, label, tree_path, model_json, updated_at)
VALUES (?1, ?2, ?3, ?4, ?5, ?6, ?7)
ON CONFLICT(fingerprint) DO UPDATE SET
    model_json = excluded.model_json,
    updated_at = excluded.updated_at";

/// Reads every row.
pub const SELECT_ALL: &'static str = "SELECT app_id, role, label, tree_path, model_json FROM widgets";

/// The database's journal mode.
pub const JOURNAL_MODE: &'static str = "WAL";

/// A row of the table, in the order of the parameters of [`UPSERT`].
#[derive(Debug)]
pub struct WidgetRow {
    pub fingerprint: i64,
    pub app_id: String,
    pub role: String,
    pub label: String,
    pub tree_path: String,
    pub model_json: String,
    pub updated_at: i64,
}

/// A 64-bit pattern read as a signed number.
pub open spec fn signed_wide(n: u64) -> int {
    if n < 0x8000_0000_0000_0000 {
        n as int
    } else {
        n - 0x1_0000_0000_0000_0000
    }
}

/// A 64-bit pattern read as a signed number.
fn to_signed_wide(n: u64) -> (m: i64)
    ensures
        m == signed_wide(n),
{
    if n < 0x8000_0000_0000_0000 {
        n as i64
    } else {
        -((0xffff_ffff_ffff_ffffu64 - n) as i64) - 1
    }
}

/// The identity in a row's columns.
pub open spec fn row_identity(row: WidgetRow) -> WidgetIdentity {
    WidgetIdentity {
        app_id: row.app_id@,
        role: row.role@,
        label: row.label@,
        tree_path: row.tree_path@,
    }
}

/// The row under which the widget `id` is saved with the model `json` at `now`.
pub open spec fn is_row_of(row: WidgetRow, id: WidgetIdentity, json: Seq<char>, now: u64) -> bool {
    &&& row.fingerprint == signed_wide(fingerprint_of(id))
    &&& row_identity(row) == id
    &&& row.model_json@ == json
    &&& row.updated_at == signed_wide(now)
}

/// The row under which a widget's model is saved at `now_secs` seconds after
/// the Unix epoch.
pub fn row_for(key: &WidgetKey, model_json: String, now_secs: u64) -> (row: WidgetRow)
    ensures
        is_row_of(row, key@, model_json@, now_secs),
{
    WidgetRow {
        fingerprint: to_signed_wide(key.fingerprint()),
        app_id: key.app_id.clone(),
        role: key.role.clone(),
        label: key.label.clone(),
        tree_path: key.tree_path.clone(),
        model_json,
        updated_at: to_signed_wide(now_secs),
    }
}

/// The key in the columns of a row.
pub fn key_of_row(app_id: String, role: String, label: String, tree_path: String) -> (key: WidgetKey)
    ensures
        key@ == (WidgetIdentity {
            app_id: app_id@,
            role: role@,
            label: label@,
            tree_path: tree_path@,
        }),
{
    WidgetKey::new(app_id, role, label, tree_path)
}

/// Where `UI.dat` is: under the data directory, or under `.local/share` in the
/// home directory.
pub open spec fn data_file(xdg_data_home: Option<Vec<u8>>, home: Option<Vec<u8>>) -> Option<
    Seq<u8>,
> {
    user_file(xdg_data_home, home, encode_utf8(".local/share"@), encode_utf8("UI.dat"@))
}

/// The default path of `UI.dat`, from the values of `XDG_DATA_HOME` and `HOME`.
pub fn default_path(xdg_data_home: &Option<Vec<u8>>, home: &Option<Vec<u8>>) -> (path: Result<
    Vec<u8>,
    NoBaseDir,
>)
    ensures
        match path {
            Ok(p) => data_file(*xdg_data_home, *home) == Some(p@),
            Err(_) => data_file(*xdg_data_home, *home) is None,
        },
{
    match user_file_path(xdg_data_home, home, ".local/share", "UI.dat") {
        Some(path) => Ok(path),
        None => Err(NoBaseDir),
    }
}

/// Row numbers are as good as fingerprints: two fingerprints that are stored as
/// the same number are the same.
pub proof fn law_row_number_identifies(a: u64, b: u64)
    requires
        signed_wide(a) == signed_wide(b),
    ensures
        a == b,
{
}

/// A widget has one row: rows saved for the same widget, at whatever times and
/// with whatever models, have the same number, so a later one replaces an
/// earlier one. Rows with different numbers are of different widgets.
pub proof fn law_one_row_per_widget(
    a: WidgetRow,
    b: WidgetRow,
    id_a: WidgetIdentity,
    id_b: WidgetIdentity,
    json_a: Seq<char>,
    json_b: Seq<char>,
    now_a: u64,
    now_b: u64,
)
    requires
        is_row_of(a, id_a, json_a, now_a),
        is_row_of(b, id_b, json_b, now_b),
    ensures
        id_a == id_b ==> a.fingerprint == b.fingerprint,
        a.fingerprint == b.fingerprint ==> fingerprint_of(id_a) == fingerprint_of(id_b),
{
}

/// What is read back is what was saved: a key made of the columns of a widget's
/// row is the widget's own, and its fingerprint is the row's number.
pub proof fn law_row_round_trips(
    row: WidgetRow,
    id: WidgetIdentity,
    json: Seq<char>,
    now: u64,
    key: WidgetKey,
)
    requires
        is_row_of(row, id, json, now),
        key@ == row_identity(row),
    ensures
        key@ == id,
        row.fingerprint == signed_wide(fingerprint_of(key@)),
{
}

/// Numbers are stored as they are while they fit, and wrap around beyond.
pub proof fn law_stored_number_is_the_number(n: u64)
    ensures
        n <= 0x7fff_ffff_ffff_ffff ==> signed_wide(n) == n,
        n > 0x7fff_ffff_ffff_ffff ==> signed_wide(n) == n - 0x1_0000_0000_0000_0000,
        -0x8000_0000_0000_0000 <= signed_wide(n) <= 0x7fff_ffff_ffff_ffff,
{
}

/// Each column of a row holds what it is named after.
pub proof fn law_columns_hold_their_own(
    row: WidgetRow,
    id: WidgetIdentity,
    json: Seq<char>,
    now: u64,
)
    requires
        is_row_of(row, id, json, now),
    ensures
        row.app_id@ == id.app_id,
        row.role@ == id.role,
        row.label@ == id.label,
        row.tree_path@ == id.tree_path,
        row.model_json@ == json,
        now <= 0x7fff_ffff_ffff_ffff ==> row.updated_at == now,
        fingerprint_of(id) <= 0x7fff_ffff_ffff_ffff ==> row.fingerprint == fingerprint_of(id),
{
}

/// `UI.dat` is `kibad/UI.dat` in the data directory, or in `.local/share` of the
/// home directory if no other is set.
pub proof fn law_database_is_in_data_directory(xdg_data_home: Option<Vec<u8>>, home: Option<Vec<u8>>)
    ensures
        ({
            let path = data_file(xdg_data_home, home);
            let dir_set = xdg_data_home is Some && xdg_data_home->0@.len() > 0;
            let home_set = home is Some && home->0@.len() > 0;
            &&& path is Some <==> dir_set || home_set
            &&& path is Some ==> exists|dir: Seq<u8>|
                path->0 == #[trigger] (dir + encode_utf8("kibad/"@) + encode_utf8(
                    "UI.dat"@,
                ))
            &&& dir_set ==> xdg_data_home->0@.is_prefix_of(path->0)
            &&& !dir_set && home_set ==> crate::paths::joined(
                home->0@,
                encode_utf8(".local/share"@),
            ).is_prefix_of(path->0)
        }),
{
    let fallback = encode_utf8(".local/share"@);
    let name = encode_utf8("UI.dat"@);
    crate::paths::law_preferred_directory_comes_first(xdg_data_home, home, fallback, name);
    if crate::paths::is_set(xdg_data_home) || crate::paths::is_set(home) {
        crate::paths::law_user_file_is_under_kibad(xdg_data_home, home, fallback, name);
    }
}

} // verus!
