use xxfunc::manifest::{get_project_name, look_up, project_name, Lookup, ManifestError};

#[test]
fn name_is_read_from_the_package_section() {
    let manifest = "[package]\nname = \"demo\"\nversion = \"0.1.0\"\n\n[dependencies]\n";
    assert_eq!(get_project_name(manifest), Ok("demo".to_string()));
    assert_eq!(get_project_name("package = { name = 'inline' }"), Ok("inline".to_string()));
}

#[test]
fn text_that_is_no_toml_is_invalid() {
    assert_eq!(get_project_name("[package"), Err(ManifestError::Invalid));
    assert_eq!(get_project_name("name = "), Err(ManifestError::Invalid));
    assert_eq!(look_up("[package"), Lookup::Unparsed);
}

#[test]
fn missing_package_section_is_reported() {
    assert_eq!(get_project_name(""), Err(ManifestError::NoPackage));
    assert_eq!(get_project_name("[workspace]\nmembers = []\n"), Err(ManifestError::NoPackage));
    assert_eq!(get_project_name("name = \"top\"\n"), Err(ManifestError::NoPackage));
    assert_eq!(look_up(""), Lookup::WithoutPackage);
}

#[test]
fn package_that_is_no_table_is_reported() {
    assert_eq!(get_project_name("package = \"demo\"\n"), Err(ManifestError::NoPackage));
    assert_eq!(get_project_name("package = [1, 2]\n"), Err(ManifestError::NoPackage));
    assert_eq!(look_up("package = 3"), Lookup::Package { table: false, name: None });
}

#[test]
fn missing_name_is_reported() {
    assert_eq!(get_project_name("[package]\nversion = \"1\"\n"), Err(ManifestError::NoName));
    assert_eq!(look_up("[package]\n"), Lookup::Package { table: true, name: None });
}

#[test]
fn name_that_is_no_string_is_reported() {
    assert_eq!(get_project_name("[package]\nname = 7\n"), Err(ManifestError::NoName));
    assert_eq!(get_project_name("[package.name]\nx = 1\n"), Err(ManifestError::NoName));
    assert_eq!(
        look_up("[package]\nname = true\n"),
        Lookup::Package { table: true, name: Some(None) }
    );
}

#[test]
fn lookup_decides_the_name() {
    assert_eq!(project_name(Lookup::Unparsed), Err(ManifestError::Invalid));
    assert_eq!(project_name(Lookup::WithoutPackage), Err(ManifestError::NoPackage));
    assert_eq!(
        project_name(Lookup::Package { table: false, name: None }),
        Err(ManifestError::NoPackage)
    );
    assert_eq!(
        project_name(Lookup::Package { table: false, name: Some(Some("x".to_string())) }),
        Err(ManifestError::NoPackage)
    );
    assert_eq!(
        project_name(Lookup::Package { table: true, name: None }),
        Err(ManifestError::NoName)
    );
    assert_eq!(
        project_name(Lookup::Package { table: true, name: Some(None) }),
        Err(ManifestError::NoName)
    );
    assert_eq!(
        project_name(Lookup::Package { table: true, name: Some(Some("x".to_string())) }),
        Ok("x".to_string())
    );
    assert_eq!(
        project_name(Lookup::Package { table: true, name: Some(Some(String::new())) }),
        Ok(String::new())
    );
}
