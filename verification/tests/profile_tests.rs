use drawbridge_vpn::dashboard::{apply_form, first_profile_id, selected_profile, selection_after_delete};
use drawbridge_vpn::profile::{profiles_file_in, EditForm, Profile, ProfileStore};

fn profile(id: &str, name: &str) -> Profile {
    Profile {
        id: id.to_string(),
        name: name.to_string(),
        vpn_host: "vpn.example.com".to_string(),
        vpn_port: "443".to_string(),
        email: "a@b.com".to_string(),
        cert_digest: "deadbeef".to_string(),
        use_chrome: false,
    }
}

#[test]
fn new_profiles_default_to_the_webview_engine() {
    assert!(!Profile::new_empty().use_chrome);
}

#[test]
fn new_profiles_have_a_uuid_and_empty_fields() {
    let p = Profile::new_empty();
    assert_eq!(p.id.len(), 36);
    assert_eq!(p.id.matches('-').count(), 4);
    assert!(p.name.is_empty() && p.vpn_host.is_empty() && p.email.is_empty());
    assert_ne!(Profile::new_empty().id, p.id);
}

#[test]
fn saml_url_names_host_and_port() {
    assert_eq!(
        profile("a", "Work").saml_url(),
        "https://vpn.example.com:443/remote/saml/start?realm="
    );
}

#[test]
fn an_added_profile_is_found_again() {
    let mut store = ProfileStore::new();
    store.add(profile("a", "Work"));
    store.add(profile("b", "Home"));
    assert_eq!(store.find("b").map(|p| p.name.clone()), Some("Home".to_string()));
    assert_eq!(store.find("a").map(|p| p.name.clone()), Some("Work".to_string()));
    assert!(store.find("c").is_none());
}

#[test]
fn update_replaces_the_profile_with_the_same_id() {
    let mut store = ProfileStore::new();
    store.add(profile("a", "Work"));
    store.add(profile("b", "Home"));
    assert_eq!(store.update(profile("b", "Cottage")), Ok(()));
    assert_eq!(store.profiles.len(), 2);
    assert_eq!(store.profiles[1].name, "Cottage");
    assert_eq!(store.profiles[0].name, "Work");
}

#[test]
fn update_of_an_unknown_id_is_an_error() {
    let mut store = ProfileStore::new();
    store.add(profile("a", "Work"));
    assert_eq!(store.update(profile("zz", "X")), Err("Profile with id zz not found".to_string()));
    assert_eq!(store.profiles.len(), 1);
    assert_eq!(store.profiles[0].name, "Work");
}

#[test]
fn delete_removes_every_profile_with_the_id() {
    let mut store = ProfileStore::new();
    store.add(profile("a", "Work"));
    store.add(profile("b", "Home"));
    store.add(profile("a", "Again"));
    store.delete("a");
    assert_eq!(store.profiles.len(), 1);
    assert_eq!(store.profiles[0].id, "b");
    store.delete("missing");
    assert_eq!(store.profiles.len(), 1);
}

#[test]
fn the_form_requires_name_host_port_and_email() {
    let mut form = EditForm::new_profile();
    assert!(form.is_new);
    assert!(form.lacks_required_field());
    form.profile = profile("x", "Work");
    assert!(!form.lacks_required_field());
    form.profile.vpn_port = "  \t".to_string();
    assert!(form.lacks_required_field());
}

#[test]
fn a_form_is_added_or_updated() {
    let mut store = ProfileStore::new();
    let mut form = EditForm::new_profile();
    form.profile = profile("x", "Work");
    assert_eq!(apply_form(&mut store, &form), Ok(()));
    assert_eq!(store.profiles.len(), 1);
    let mut edit = EditForm::from_existing(profile("x", "Renamed"), "pw".to_string(), "s".to_string());
    assert!(!edit.is_new);
    assert_eq!(apply_form(&mut store, &edit), Ok(()));
    assert_eq!(store.profiles[0].name, "Renamed");
    edit.profile.id = "gone".to_string();
    assert_eq!(apply_form(&mut store, &edit), Err("Profile with id gone not found".to_string()));
}

#[test]
fn deleting_the_selected_profile_selects_the_first() {
    let mut store = ProfileStore::new();
    store.add(profile("a", "Work"));
    store.add(profile("b", "Home"));
    assert_eq!(first_profile_id(&store), Some("a".to_string()));
    store.delete("a");
    assert_eq!(selection_after_delete(&store, Some("a".to_string()), "a"), Some("b".to_string()));
    assert_eq!(selection_after_delete(&store, Some("b".to_string()), "a"), Some("b".to_string()));
    assert_eq!(selection_after_delete(&store, None, "a"), None);
    store.delete("b");
    assert_eq!(selection_after_delete(&store, Some("b".to_string()), "b"), None);
}

#[test]
fn the_selected_profile_is_looked_up_by_id() {
    let mut store = ProfileStore::new();
    store.add(profile("a", "Work"));
    assert_eq!(selected_profile(&store, Some("a")).map(|p| p.name.clone()), Some("Work".to_string()));
    assert!(selected_profile(&store, Some("b")).is_none());
    assert!(selected_profile(&store, None).is_none());
}

#[test]
fn profiles_live_in_the_app_directory() {
    assert_eq!(
        profiles_file_in("/Users/me/Library/Application Support"),
        "/Users/me/Library/Application Support/DrawbridgeVPN/profiles.json"
    );
    assert_eq!(profiles_file_in("/data/"), "/data/DrawbridgeVPN/profiles.json");
}
