use backend_supervisor::dialog::{resolve_kind, selection_reply, DialogKind, KindResolution};

#[test]
fn known_kinds_resolve_without_a_warning() {
    assert_eq!(resolve_kind("info"), KindResolution { kind: DialogKind::Info, warning: None });
    assert_eq!(
        resolve_kind("warning"),
        KindResolution { kind: DialogKind::Warning, warning: None }
    );
    assert_eq!(resolve_kind("error"), KindResolution { kind: DialogKind::Error, warning: None });
}

#[test]
fn unknown_kind_falls_back_to_info_with_one_warning() {
    let resolution = resolve_kind("bogus");
    assert_eq!(resolution.kind, DialogKind::Info);
    assert_eq!(
        resolution.warning,
        Some("Unknown kind 'bogus', defaulting to 'Info'".to_string())
    );
}

#[test]
fn kind_names_are_taken_literally() {
    for name in ["Info", "WARNING", " error", "error ", "", "warn"] {
        let resolution = resolve_kind(name);
        assert_eq!(resolution.kind, DialogKind::Info, "{:?}", name);
        assert_eq!(
            resolution.warning,
            Some(format!("Unknown kind '{}', defaulting to 'Info'", name)),
        );
    }
}

#[test]
fn cancelled_selection_is_the_empty_text() {
    assert_eq!(selection_reply(None), "");
}

#[test]
fn chosen_path_is_passed_on_unchanged() {
    assert_eq!(selection_reply(Some("/home/user/data set.csv".to_string())), "/home/user/data set.csv");
    assert_eq!(selection_reply(Some(String::new())), "");
}
