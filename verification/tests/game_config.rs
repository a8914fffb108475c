use xodus::game_config::{
    choose_config, find_executable_from_config, ExecutableSearch, GameConfigError,
};

#[test]
fn the_executable_of_a_game_is_found() {
    let config = r#"<?xml version="1.0" encoding="utf-8"?>
        <Game configVersion="1">
          <ExecutableList>
            <Executable Id="Game" Name="bin\Game.exe" TargetDeviceFamily="PC"></Executable>
          </ExecutableList>
        </Game>"#;
    assert_eq!(
        find_executable_from_config(config).unwrap(),
        "bin\\Game.exe"
    );
}

#[test]
fn the_executable_named_last_counts_of_several() {
    let config = "<Game><ExecutableList><Executable Name='a.exe'></Executable>\
                  <Executable Name='b.exe'></Executable></ExecutableList></Game>";
    assert_eq!(find_executable_from_config(config).unwrap(), "b.exe");
}

#[test]
fn an_executable_outside_a_list_does_not_count() {
    for config in [
        "<Game><Executable Name='a.exe'></Executable></Game>",
        "<Game><ExecutableList></ExecutableList><Executable Name='a.exe'></Executable></Game>",
        "<Game><ExecutableList/><Executable Name='a.exe'></Executable></Game>",
        "<Game></Game>",
        "",
    ] {
        assert!(matches!(
            find_executable_from_config(config),
            Err(GameConfigError::NoExecutable)
        ));
    }
}

#[test]
fn a_tag_that_closes_itself_does_not_count() {
    let config = "<Game><ExecutableList><Executable Name='a.exe'/></ExecutableList></Game>";
    assert!(matches!(
        find_executable_from_config(config),
        Err(GameConfigError::NoExecutable)
    ));
}

#[test]
fn an_error_counts_only_before_the_name() {
    let config = |tag: &str| {
        format!("<Game><ExecutableList><Executable {tag}></Executable></ExecutableList></Game>")
    };
    assert_eq!(
        find_executable_from_config(&config("Name='a.exe' broken")).unwrap(),
        "a.exe"
    );
    assert!(matches!(
        find_executable_from_config(&config("broken Name='a.exe'")),
        Err(GameConfigError::Xml(_))
    ));
}

#[test]
fn a_configuration_that_is_no_xml_is_refused() {
    for config in ["<Game><ExecutableList></Game>", "<Game", "</Game>"] {
        assert!(matches!(
            find_executable_from_config(config),
            Err(GameConfigError::Xml(_))
        ));
    }
}

#[test]
fn a_search_follows_the_tags_that_it_sees() {
    let attribute = |key: &str, value: &str| Ok((key.to_string(), value.to_string()));
    let mut search = ExecutableSearch::new();
    search
        .enter("Executable", &vec![attribute("Name", "early.exe")])
        .unwrap();
    assert_eq!(search.found, None);
    search.enter("ExecutableList", &vec![]).unwrap();
    search
        .enter(
            "Executable",
            &vec![
                attribute("Id", "Game"),
                attribute("Name", "first.exe"),
                attribute("Name", "second.exe"),
            ],
        )
        .unwrap();
    assert_eq!(search.found.as_deref(), Some("first.exe"));
    assert!(matches!(
        search.enter("Executable", &vec![Err("broken".to_string())]),
        Err(GameConfigError::Xml(e)) if e == "broken"
    ));
    search.enter("Executable", &vec![]).unwrap();
    search.leave("Executable");
    search.leave("ExecutableList");
    search
        .enter("Executable", &vec![attribute("Name", "late.exe")])
        .unwrap();
    assert_eq!(search.finish().unwrap(), "first.exe");
}

#[test]
fn either_spelling_of_the_configuration_is_taken() {
    assert_eq!(choose_config(true, true).unwrap(), "MicrosoftGame.config");
    assert_eq!(choose_config(true, false).unwrap(), "MicrosoftGame.config");
    assert_eq!(choose_config(false, true).unwrap(), "MicrosoftGame.Config");
    assert_eq!(
        choose_config(false, false).unwrap_err().message(),
        "MicrosoftGame.config not found"
    );
    assert_eq!(
        GameConfigError::NoExecutable.message(),
        "No executable found in MicrosoftGame.config"
    );
    assert_eq!(GameConfigError::Io("gone".to_string()).message(), "gone");
    assert_eq!(GameConfigError::Xml("odd".to_string()).message(), "odd");
}
