use rust_tools::cliparse::{IDefault, Mode, MyApp};

#[test]
fn defaults_and_filling() {
    let mut app = MyApp::get_default();
    assert_eq!(Mode::Proto2lua, app.mode);
    assert!(app.path.is_empty());
    assert!(!app.debug);
    assert_eq!(None, app.dir);
    assert_eq!("", app.output);
    app.fill_default();
    assert_eq!("./", app.output);
    app.output = "out".to_string();
    app.fill_default();
    assert_eq!("out", app.output);
}

#[test]
fn from_other_takes_everything() {
    let mut app = MyApp::get_default();
    let other = MyApp {
        mode: Mode::Nothing,
        path: vec!["a.proto".to_string()],
        debug: true,
        dir: Some("src".to_string()),
        output: "mod".to_string(),
    };
    app.from_other(other);
    assert_eq!(Mode::Nothing, app.mode);
    assert_eq!(vec!["a.proto".to_string()], app.path);
    assert!(app.debug);
    assert_eq!(Some("src".to_string()), app.dir);
    assert_eq!("mod", app.output);
}
