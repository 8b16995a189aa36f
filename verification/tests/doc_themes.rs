use lib::doc::{stylesheet_of, DocError, Theme};

fn themes() -> Vec<Theme> {
    vec![
        Theme { name: "light".to_string(), stylesheet: b"body { color: black; }".to_vec() },
        Theme { name: "dark".to_string(), stylesheet: b"body { color: white; }".to_vec() },
    ]
}

#[test]
fn theme_stylesheet_is_chosen_by_name() {
    let themes = themes();
    assert_eq!(b"body { color: white; }".to_vec(), *stylesheet_of(&themes, "dark").unwrap());
    assert_eq!(b"body { color: black; }".to_vec(), *stylesheet_of(&themes, "light").unwrap());
}

#[test]
fn missing_theme_is_an_error() {
    let themes = themes();
    match stylesheet_of(&themes, "solarized") {
        Err(error) => {
            let DocError::NoSuchTheme(name) = &error;
            assert_eq!("solarized", name);
            assert_eq!("no such theme: solarized", error.message());
        },
        Ok(_) => panic!("expected an error"),
    }
}
