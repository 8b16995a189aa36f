use lib::rust_compiler::{mod_file_text, mod_files};

fn strings(parts: &[&str]) -> Vec<String> {
    parts.iter().map(|p| p.to_string()).collect()
}

#[test]
fn module_files_of_a_package_tree() {
    let packages = vec![strings(&["foo", "bar"]), strings(&["qux"]), strings(&["foo", "baz"])];
    let files = mod_files(&packages);
    assert_eq!(2, files.len());
    let root = files.iter().find(|f| f.dir.is_empty()).unwrap();
    assert_eq!(strings(&["foo", "qux"]), root.children);
    let foo = files.iter().find(|f| f.dir == strings(&["foo"])).unwrap();
    assert_eq!(strings(&["bar", "baz"]), foo.children);
}

#[test]
fn module_files_with_deep_and_repeated_packages() {
    let packages = vec![strings(&["a", "b", "c"]), strings(&["a", "b", "c"]), strings(&["a", "d"])];
    let files = mod_files(&packages);
    assert_eq!(3, files.len());
    let a = files.iter().find(|f| f.dir == strings(&["a"])).unwrap();
    assert_eq!(strings(&["b", "d"]), a.children);
    let ab = files.iter().find(|f| f.dir == strings(&["a", "b"])).unwrap();
    assert_eq!(strings(&["c"]), ab.children);
}

#[test]
fn empty_tree_has_root_module_only() {
    let files = mod_files(&vec![]);
    assert_eq!(1, files.len());
    assert!(files[0].dir.is_empty());
    assert!(files[0].children.is_empty());
    assert_eq!("", mod_file_text(&files[0].children));
}

#[test]
fn module_file_text_lists_children() {
    assert_eq!("pub mod bar;\npub mod baz;\n", mod_file_text(&strings(&["bar", "baz"])));
}
