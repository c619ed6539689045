use jira::keymaps::{KeyMapCollection, Scope};
use mlua::Function;

fn lua_function() -> mlua::RegistryKey {
    let lua = mlua::Lua::new();
    let my_func: Function = lua.create_function(|_, ()| Ok("hello")).unwrap();
    lua.create_registry_value(my_func).unwrap()
}

#[test]
fn getting_key_maps_by_default_returns_empty() {
    let keymap: KeyMapCollection<mlua::RegistryKey> = KeyMapCollection::new();
    let keymaps = keymap.get_keymaps();

    assert!(keymaps.is_empty());
}

#[test]
fn getting_key_maps_after_adding_1_returns_that_key_map() {
    let registry_key = lua_function();
    let keymap = &mut KeyMapCollection::new();
    keymap
        .set(
            "y",
            registry_key,
            Some("some description about what this is"),
            None,
        )
        .unwrap();
    let keymaps = keymap.get_keymaps();

    assert!(!keymaps.is_empty());
    assert_eq!(keymaps.len(), 1);
    assert_eq!(keymaps[0].key, "y");
    assert_eq!(
        keymaps[0].description,
        Some("some description about what this is".to_string())
    );
    assert!(matches!(keymaps[0].scope, Scope::Global));
}

#[test]
fn getting_an_unregistered_key_returns_none() {
    let keymap: &mut KeyMapCollection<mlua::RegistryKey> = &mut KeyMapCollection::new();
    let keymap = keymap.get_keymap("y", &[Scope::Global]);

    assert!(keymap.is_none());
}

#[test]
fn getting_a_registered_key_returns_the_keymap() {
    let registry_key = lua_function();

    let keymap = &mut KeyMapCollection::new();
    keymap
        .set(
            "y",
            registry_key,
            Some("some description about what this is"),
            None,
        )
        .unwrap();
    let keymap = keymap.get_keymap("y", &[Scope::Global]).unwrap();

    assert_eq!(keymap.key, "y");
    assert_eq!(
        keymap.description,
        Some("some description about what this is".to_string())
    );
    assert!(matches!(keymap.scope, Scope::Global));
}

#[test]
fn setting_keymap_without_description() {
    let registry_key = lua_function();
    let keymap = &mut KeyMapCollection::new();
    keymap.set("y", registry_key, None, None).unwrap();
    let keymaps = keymap.get_keymaps();

    assert_eq!(keymaps.len(), 1);
    assert_eq!(keymaps[0].key, "y");
    assert_eq!(keymaps[0].description, None);
}

#[test]
fn registering_the_same_key_twice_throws_an_error() {
    let registry_key = lua_function();
    let registry_key2 = lua_function();

    let keymap = &mut KeyMapCollection::new();
    keymap
        .set(
            "y",
            registry_key,
            Some("some description about what this is"),
            None,
        )
        .unwrap();

    match keymap
        .set(
            "y",
            registry_key2,
            Some("some description about what this is"),
            None,
        )
        .is_err()
    {
        true => {
            let keymaps = keymap.get_keymaps();
            assert!(!keymaps.is_empty());
            assert_eq!(keymaps.len(), 1);
        }
        false => {
            panic!("Expected an error when registering the same key twice");
        }
    }
}

#[test]
fn the_duplicate_key_message_names_key_and_scope() {
    let mut keymap: KeyMapCollection<u32> = KeyMapCollection::new();
    keymap.set("y", 1, None, Some("PBI")).unwrap();
    let err = keymap.set("y", 2, None, Some("pbi")).unwrap_err();

    assert_eq!(err, "Key 'y' is already registered for scope Pbi");
}

#[test]
fn the_same_key_may_be_bound_once_per_scope() {
    let mut keymap: KeyMapCollection<u32> = KeyMapCollection::new();
    keymap.set("y", 1, None, None).unwrap();
    keymap.set("y", 2, None, Some("sprint")).unwrap();

    assert_eq!(keymap.get_keymaps().len(), 2);
    assert!(matches!(keymap.get_keymaps()[1].scope, Scope::Sprint));
}

#[test]
fn a_scoped_binding_wins_over_a_global_one() {
    let mut keymap: KeyMapCollection<u32> = KeyMapCollection::new();
    keymap.set("y", 1, None, None).unwrap();
    keymap.set("y", 2, None, Some("Sprint")).unwrap();

    assert_eq!(keymap.get_keymap("y", &[Scope::Sprint]).unwrap().func, 2);
    assert_eq!(keymap.get_keymap("y", &[Scope::Pbi]).unwrap().func, 1);
    assert!(keymap.get_keymap("x", &[Scope::Sprint]).is_none());
}

#[test]
fn unknown_scope_names_mean_global() {
    assert!(matches!(Scope::parse("whatever"), Scope::Global));
    assert!(matches!(Scope::parse("PbiList"), Scope::PbiList));
    assert!(matches!(Scope::parse("PLUGIN"), Scope::Plugin));
}

#[test]
fn footer_hints_list_described_bindings_of_the_scopes_in_order() {
    let mut c: KeyMapCollection<u8> = KeyMapCollection::new();
    c.set("q", 1, Some("Quit"), None).unwrap();
    c.set("j", 2, None, None).unwrap();
    c.set("F", 3, Some("Refresh all"), Some("Sprint")).unwrap();
    c.set("/", 4, Some("Filter"), Some("PbiList")).unwrap();
    assert_eq!(
        c.described(&[Scope::Sprint, Scope::Global]),
        vec![("q".to_string(), "Quit".to_string()), ("F".to_string(), "Refresh all".to_string())]
    );
    assert_eq!(c.described(&[Scope::PbiList]), vec![("/".to_string(), "Filter".to_string())]);
    assert!(c.described(&[Scope::Plugin]).is_empty());
}

#[test]
fn scopes_parse_from_text_like_parse() {
    assert!(matches!("Sprint".parse::<Scope>(), Ok(Scope::Sprint)));
    assert!(matches!("pbilist".parse::<Scope>(), Ok(Scope::PbiList)));
    assert!(matches!("nothing".parse::<Scope>(), Ok(Scope::Global)));
}

#[test]
fn a_scoped_binding_wins_over_an_earlier_global_one_in_the_scopes_asked() {
    let mut keymap: KeyMapCollection<u32> = KeyMapCollection::new();
    keymap.set("F", 1, None, None).unwrap();
    keymap.set("F", 2, None, Some("sprint")).unwrap();
    let found = keymap.get_keymap("F", &[Scope::Sprint, Scope::Global]).unwrap();
    assert!(matches!(found.scope, Scope::Sprint));
    assert_eq!(found.func, 2);
    assert_eq!(keymap.get_keymap("F", &[Scope::Global]).unwrap().func, 1);
}
