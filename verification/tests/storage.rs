use kibad::bandit::WidgetModel;
use kibad::daemon::{active_zones, reaction_time, restore, sync_due, zones_in_range};
use kibad::overlay::{resolve_zone_click, ActiveZone};
use kibad::scalar::Scalar;
use kibad::storage::{
    default_path, key_of_row, row_for, JOURNAL_MODE, SCHEMA, SELECT_ALL, UPSERT,
};
use kibad::types::{Rect, WidgetKey};
use rusqlite::Connection;
use serde_json::Value;

/// What these tests look at of a model, as JSON.
fn encode(model: &WidgetModel) -> String {
    let mut rect = serde_json::Map::new();
    rect.insert("x".to_string(), model.default_rect.x.into());
    rect.insert("y".to_string(), model.default_rect.y.into());
    rect.insert("w".to_string(), model.default_rect.w.into());
    rect.insert("h".to_string(), model.default_rect.h.into());
    let mut object = serde_json::Map::new();
    object.insert("default_rect".to_string(), Value::Object(rect));
    object.insert("total_samples".to_string(), model.total_samples.into());
    Value::Object(object).to_string()
}

fn decode(json: &str) -> WidgetModel {
    let value: Value = serde_json::from_str(json).unwrap();
    let side = |name: &str| value["default_rect"][name].as_i64().unwrap() as i32;
    let mut model = WidgetModel::new(Rect { x: side("x"), y: side("y"), w: side("w"), h: side("h") });
    model.total_samples = value["total_samples"].as_u64().unwrap() as u32;
    model
}

fn open_in_memory() -> Connection {
    let conn = Connection::open_in_memory().unwrap();
    conn.execute_batch(SCHEMA).unwrap();
    conn
}

fn save_widget(conn: &Connection, key: &WidgetKey, model: &WidgetModel, now: u64) {
    let row = row_for(key, encode(model), now);
    conn.execute(
        UPSERT,
        (
            row.fingerprint,
            row.app_id,
            row.role,
            row.label,
            row.tree_path,
            row.model_json,
            row.updated_at,
        ),
    )
    .unwrap();
}

fn load_all(conn: &Connection) -> Vec<(WidgetKey, WidgetModel)> {
    let mut stmt = conn.prepare(SELECT_ALL).unwrap();
    let mut rows = stmt.query([]).unwrap();
    let mut out = Vec::new();
    while let Some(row) = rows.next().unwrap() {
        let key = key_of_row(
            row.get(0).unwrap(),
            row.get(1).unwrap(),
            row.get(2).unwrap(),
            row.get(3).unwrap(),
        );
        let json: String = row.get(4).unwrap();
        out.push((key, decode(&json)));
    }
    out
}

#[test]
fn round_trips_a_widget_model() {
    let store = open_in_memory();
    let key = WidgetKey::new("org.kiba.testapp", "push button", "Save", "/0/2/1");
    let model = WidgetModel::new(Rect { x: 10, y: 20, w: 80, h: 24 });

    save_widget(&store, &key, &model, 1);
    let loaded = load_all(&store);

    assert_eq!(loaded.len(), 1);
    assert_eq!(loaded[0].0, key);
    assert_eq!(loaded[0].1.default_rect.x, 10);
}

#[test]
fn upsert_overwrites_rather_than_duplicates() {
    let store = open_in_memory();
    let key = WidgetKey::new("org.kiba.testapp", "push button", "Save", "/0/2/1");
    let mut model = WidgetModel::new(Rect { x: 0, y: 0, w: 10, h: 10 });

    save_widget(&store, &key, &model, 1);
    model.total_samples = 99;
    save_widget(&store, &key, &model, 2);

    let loaded = load_all(&store);
    assert_eq!(loaded.len(), 1, "same widget key must upsert, not duplicate");
    assert_eq!(loaded[0].1.total_samples, 99);
    let updated: i64 =
        store.query_row("SELECT updated_at FROM widgets", [], |row| row.get(0)).unwrap();
    assert_eq!(updated, 2);
}

#[test]
fn default_path_lives_under_kibad_dir() {
    for (xdg, home) in [
        (Some(b"/home/user/.data".to_vec()), None),
        (None, Some(b"/home/user".to_vec())),
        (Some(Vec::new()), Some(b"/home/user/".to_vec())),
    ] {
        let bytes = default_path(&xdg, &home).unwrap();
        let text = String::from_utf8(bytes).unwrap();
        assert!(std::path::Path::new(&text).ends_with("kibad/UI.dat"));
    }
    let home = default_path(&None, &Some(b"/home/user".to_vec())).unwrap();
    assert_eq!(home, b"/home/user/.local/share/kibad/UI.dat".to_vec());
    assert!(default_path(&None, &None).is_err());
    assert!(default_path(&Some(Vec::new()), &Some(Vec::new())).is_err());
    assert_eq!(JOURNAL_MODE, "WAL");
}

#[test]
fn rows_hold_the_bits_of_the_fingerprint() {
    for label in ["a", "b", "c", "d", "e", "f", "g", "h"] {
        let key = WidgetKey::new("app", "role", label, "/0");
        let row = row_for(&key, "{}".to_string(), u64::MAX);
        assert_eq!(row.fingerprint, key.fingerprint() as i64);
        assert_eq!(row.updated_at, -1);
        assert_eq!(row.label, label);
        assert_eq!(row.model_json, "{}");
    }
}

#[test]
fn saved_widgets_are_all_restored() {
    let a = WidgetKey::new("app", "role", "a", "/0");
    let b = WidgetKey::new("app", "role", "b", "/1");
    let store = open_in_memory();
    save_widget(&store, &a, &WidgetModel::new(Rect { x: 1, y: 1, w: 1, h: 1 }), 1);
    save_widget(&store, &b, &WidgetModel::new(Rect { x: 2, y: 2, w: 2, h: 2 }), 1);
    let model = restore(load_all(&store));
    assert_eq!(model.widgets.len(), 2);
    assert_eq!(model.get(&a).unwrap().default_rect.x, 1);
    assert_eq!(model.get(&b).unwrap().default_rect.x, 2);
    assert!(model.key_lookup.is_empty());
    let twice = restore(vec![
        (a.clone(), WidgetModel::new(Rect { x: 3, y: 0, w: 0, h: 0 })),
        (a.clone(), WidgetModel::new(Rect { x: 4, y: 0, w: 0, h: 0 })),
    ]);
    assert_eq!(twice.widgets.len(), 1);
    assert_eq!(twice.get(&a).unwrap().default_rect.x, 4);
}

#[test]
fn only_moved_widgets_have_zones() {
    let a = WidgetKey::new("app", "role", "a", "/0");
    let b = WidgetKey::new("app", "role", "b", "/1");
    let original = Rect { x: 100, y: 100, w: 80, h: 24 };
    let mut model = restore(Vec::new());
    model.widget_mut(&a, original);
    model.widget_mut(&b, Rect { x: 500, y: 500, w: 10, h: 10 });
    assert!(zones_in_range(&model));
    assert!(active_zones(&model).is_empty());
    model.widget_mut(&a, original).active_arm = 2;
    let zones = active_zones(&model);
    assert_eq!(zones.len(), 2);
    assert!(matches!(zones[0], ActiveZone::Mask(r) if r == original));
    let shown = Rect { x: 140, y: 100, w: 80, h: 24 };
    assert!(matches!(zones[1], ActiveZone::Relocated { visible_at, forward_to }
        if visible_at == shown && forward_to == original));
    assert_eq!(resolve_zone_click(&zones, 200, 110), Some(original.center()));
    model.widget_mut(&b, original).active_arm = 1;
    assert_eq!(active_zones(&model).len(), 4);
    model.widget_mut(&b, original).default_rect.x = i32::MIN;
    assert!(!zones_in_range(&model));
}

#[test]
fn reaction_time_falls_back() {
    let [a, b, c] = [1.0f64, 2.0, 200.0].map(|v| Scalar { bits: v.to_bits() });
    assert_eq!(reaction_time(Some(a), Some(b), c), a);
    assert_eq!(reaction_time(None, Some(b), c), b);
    assert_eq!(reaction_time(None, None, c), c);
}

#[test]
fn zones_are_synced_every_thirtieth_turn() {
    assert!(sync_due(30) && sync_due(60));
    assert!(!sync_due(1) && !sync_due(29) && !sync_due(31));
}
