use third_life::config::{
    recive_config_loaded_events, register_readers, AllConfigReaders, ConfigError,
    ConfigReaderFinishedEvent, LoadingReader, RegisterConfigReaderEvent, SelectedConfigPath,
    SimulationState,
};

fn registered(names: &[&str]) -> AllConfigReaders {
    let mut all = AllConfigReaders::new();
    let events: Vec<RegisterConfigReaderEvent> =
        names.iter().map(|name| RegisterConfigReaderEvent::new(name)).collect();
    assert_eq!(register_readers(&mut all, &events), Ok(()));
    all
}

#[test]
fn the_chosen_folder_lies_under_the_usual_place() {
    assert_eq!(SelectedConfigPath::new_std(String::from("default")).0, "assets/config/default");
    assert_eq!(SelectedConfigPath::new_std(String::new()).0, "assets/config/");
}

#[test]
fn notices_carry_their_names() {
    assert_eq!(RegisterConfigReaderEvent::new("worlds").0, "worlds");
    assert_eq!(ConfigReaderFinishedEvent::new("config").0, "config");
}

#[test]
fn loaders_register_as_waiting() {
    let all = registered(&["config", "worlds"]);
    assert_eq!(all.readers.len(), 2);
    assert_eq!(all.readers[0].name, "config");
    assert_eq!(all.readers[1].name, "worlds");
    assert_eq!(all.readers[0].state, LoadingReader::Waiting);
    assert_eq!(all.find(&String::from("worlds")), Some(1));
    assert_eq!(all.find(&String::from("world")), None);
    assert!(!all.all_done());
    assert!(AllConfigReaders::new().all_done());
}

#[test]
fn a_name_registers_once() {
    let mut all = registered(&["config"]);
    let events = vec![
        RegisterConfigReaderEvent::new("worlds"),
        RegisterConfigReaderEvent::new("config"),
        RegisterConfigReaderEvent::new("more"),
    ];
    assert_eq!(
        register_readers(&mut all, &events),
        Err(ConfigError::RegisteredTwice { notice: 1 })
    );
    assert_eq!(all.readers.len(), 2);
    assert!(!all.register(&String::from("worlds")));
    assert!(all.register(&String::from("more")));
    assert_eq!(all.readers.len(), 3);
}

#[test]
fn the_simulation_runs_when_all_have_reported() {
    let mut all = registered(&["config", "worlds"]);
    assert_eq!(recive_config_loaded_events(&mut all, &vec![]), Ok(SimulationState::LoadingConfig));
    assert_eq!(
        recive_config_loaded_events(&mut all, &vec![ConfigReaderFinishedEvent::new("worlds")]),
        Ok(SimulationState::LoadingConfig)
    );
    assert_eq!(all.readers[0].state, LoadingReader::Waiting);
    assert_eq!(all.readers[1].state, LoadingReader::Recived);
    assert_eq!(
        recive_config_loaded_events(&mut all, &vec![ConfigReaderFinishedEvent::new("config")]),
        Ok(SimulationState::Running)
    );
    assert!(all.all_done());
    assert_eq!(recive_config_loaded_events(&mut all, &vec![]), Ok(SimulationState::Running));
}

#[test]
fn a_loader_reports_once_and_only_after_registering() {
    let mut all = registered(&["config", "worlds"]);
    assert_eq!(
        recive_config_loaded_events(
            &mut all,
            &vec![ConfigReaderFinishedEvent::new("config"), ConfigReaderFinishedEvent::new("cfg")]
        ),
        Err(ConfigError::NeverRegistered { notice: 1 })
    );
    assert_eq!(all.readers[0].state, LoadingReader::Recived);
    assert_eq!(
        recive_config_loaded_events(
            &mut all,
            &vec![ConfigReaderFinishedEvent::new("worlds"), ConfigReaderFinishedEvent::new("config")]
        ),
        Err(ConfigError::FinishedTwice { notice: 1 })
    );
    assert_eq!(all.readers[1].state, LoadingReader::Recived);
}

#[test]
fn a_name_repeated_among_the_notices_registers_once() {
    let mut all = registered(&["config"]);
    let events = vec![
        RegisterConfigReaderEvent::new("worlds"),
        RegisterConfigReaderEvent::new("worlds"),
        RegisterConfigReaderEvent::new("more"),
    ];
    assert_eq!(
        register_readers(&mut all, &events),
        Err(ConfigError::RegisteredTwice { notice: 1 })
    );
    assert_eq!(all.readers.len(), 2);
    assert_eq!(all.readers[1].name, "worlds");
    assert_eq!(all.readers[1].state, LoadingReader::Waiting);
    assert_eq!(register_readers(&mut all, &vec![]), Ok(()));
    assert_eq!(all.readers.len(), 2);
}

#[test]
fn a_report_marks_its_loader_and_no_other() {
    let mut all = registered(&["config", "worlds", "more"]);
    assert_eq!(
        recive_config_loaded_events(
            &mut all,
            &vec![ConfigReaderFinishedEvent::new("more"), ConfigReaderFinishedEvent::new("config")]
        ),
        Ok(SimulationState::LoadingConfig)
    );
    assert_eq!(all.readers[0].state, LoadingReader::Recived);
    assert_eq!(all.readers[1].state, LoadingReader::Waiting);
    assert_eq!(all.readers[2].state, LoadingReader::Recived);
    assert_eq!(
        recive_config_loaded_events(
            &mut all,
            &vec![ConfigReaderFinishedEvent::new("worlds"), ConfigReaderFinishedEvent::new("worlds")]
        ),
        Err(ConfigError::FinishedTwice { notice: 1 })
    );
    assert_eq!(all.readers[1].state, LoadingReader::Recived);
    assert_eq!(all.readers[1].name, "worlds");
    assert_eq!(all.readers.len(), 3);
}
