use barexp::register_export;
use barexp::registry::{populate, process_export, Decl, ExportError, ExportItem, ExportRegistry, ExportTable};

#[test]
fn register_new_key() {
    let mut table = ExportTable::new();
    assert!(register_export(&mut table, "app::models::User", "User").is_ok());
}

#[test]
fn register_same_key_same_descriptor_is_idempotent() {
    let mut table = ExportTable::new();
    assert!(register_export(&mut table, "app::models::User", "User").is_ok());
    assert!(register_export(&mut table, "app::models::User", "User").is_ok());
}

#[test]
fn register_same_key_different_descriptor_collides() {
    let mut table = ExportTable::new();
    assert!(register_export(&mut table, "app::models::User", "User").is_ok());
    match register_export(&mut table, "app::models::User", "app::models::User") {
        Err(ExportError::Collision { name, existing }) => {
            assert_eq!(name, "app::models::User");
            assert_eq!(existing, "User");
        }
        other => panic!("expected a collision, got {:?}", other.is_ok()),
    }
}

#[test]
fn same_ident_in_different_locations_is_no_collision() {
    let mut table = ExportTable::new();
    let a = process_export(
        &mut table,
        &Decl::Struct { ident: "User".to_string() },
        "app::models",
        false,
    );
    let b = process_export(
        &mut table,
        &Decl::Struct { ident: "User".to_string() },
        "app::views",
        false,
    );
    assert!(a.is_ok());
    assert!(b.is_ok());
}

#[test]
fn same_declaration_twice_is_no_collision() {
    let mut table = ExportTable::new();
    let first = process_export(
        &mut table,
        &Decl::Function { ident: "login".to_string() },
        "app::auth",
        false,
    );
    let again = process_export(
        &mut table,
        &Decl::Function { ident: "login".to_string() },
        "app::auth",
        false,
    );
    assert!(first.is_ok());
    assert!(again.is_ok());
}

#[test]
fn same_key_differing_naming_policy_collides() {
    let mut table = ExportTable::new();
    let first = process_export(
        &mut table,
        &Decl::Enum { ident: "Mode".to_string() },
        "app::config",
        false,
    );
    assert!(first.is_ok());
    match process_export(
        &mut table,
        &Decl::Enum { ident: "Mode".to_string() },
        "app::config",
        true,
    ) {
        Err(ExportError::Collision { name, existing }) => {
            assert_eq!(name, "app::config::Mode");
            assert_eq!(existing, "Mode");
        }
        _ => panic!("expected a collision"),
    }
}

#[test]
fn unsupported_declaration_kind_fails() {
    let mut table = ExportTable::new();
    match process_export(&mut table, &Decl::Other, "app", false) {
        Err(ExportError::Unsupported) => {}
        _ => panic!("expected the unsupported-declaration failure"),
    }
}

#[test]
fn descriptor_fields() {
    let mut table = ExportTable::new();
    let item = process_export(
        &mut table,
        &Decl::Struct { ident: "User".to_string() },
        "app::models",
        false,
    )
    .unwrap();
    assert_eq!(item.name, "User");
    assert_eq!(item.location, "app::models");
    assert_eq!(item.full_path, "app::models::User");
    assert!(!item.is_fullpath);

    let item2 = process_export(
        &mut table,
        &Decl::Struct { ident: "Group".to_string() },
        "app::models",
        true,
    )
    .unwrap();
    assert_eq!(item2.name, "app::models::Group");
    assert_eq!(item2.location, "app::models");
    assert_eq!(item2.full_path, "app::models::Group");
    assert!(item2.is_fullpath);
}

#[test]
fn enumeration_returns_exactly_the_registered_set() {
    let mut table = ExportTable::new();
    let mut descriptors: Vec<ExportItem> = Vec::new();
    descriptors.push(
        process_export(
            &mut table,
            &Decl::Struct { ident: "User".to_string() },
            "app::models",
            false,
        )
        .unwrap(),
    );
    descriptors.push(
        process_export(
            &mut table,
            &Decl::Function { ident: "login".to_string() },
            "app::auth",
            true,
        )
        .unwrap(),
    );
    let registry = populate(&descriptors);
    let seen = registry.iterate();
    assert_eq!(seen.len(), 2);
    assert_eq!(seen[0].name, "User");
    assert_eq!(seen[0].location, "app::models");
    assert_eq!(seen[0].full_path, "app::models::User");
    assert!(!seen[0].is_fullpath);
    assert_eq!(seen[1].name, "app::auth::login");
    assert_eq!(seen[1].location, "app::auth");
    assert_eq!(seen[1].full_path, "app::auth::login");
    assert!(seen[1].is_fullpath);
}

#[test]
fn empty_registry_enumerates_nothing() {
    let registry = ExportRegistry::new();
    assert_eq!(registry.iterate().len(), 0);
}

#[test]
fn submissions_accumulate_in_order() {
    let mut table = ExportTable::new();
    let a = process_export(
        &mut table,
        &Decl::Struct { ident: "A".to_string() },
        "m",
        false,
    )
    .unwrap();
    let b = process_export(
        &mut table,
        &Decl::Struct { ident: "B".to_string() },
        "m",
        false,
    )
    .unwrap();
    let mut registry = ExportRegistry::new();
    registry.submit(a);
    registry.submit(b);
    let seen = registry.iterate();
    assert_eq!(seen.len(), 2);
    assert_eq!(seen[0].name, "A");
    assert_eq!(seen[1].name, "B");
}
