use api::{env_files, load_env, load_env_file_if_present, EnvFileOutcome, EnvStep};

fn load_step(debug: bool, outcomes: &Vec<EnvFileOutcome>) -> Option<String> {
    match load_env(debug, outcomes) {
        EnvStep::Load(f) => Some(f),
        EnvStep::Finished(_) => None,
    }
}

fn finished(debug: bool, outcomes: &Vec<EnvFileOutcome>) -> Option<Result<(), String>> {
    match load_env(debug, outcomes) {
        EnvStep::Load(_) => None,
        EnvStep::Finished(r) => Some(r),
    }
}

#[test]
fn env_files_for_debug_builds() {
    assert_eq!(
        env_files(true),
        vec!["../.env.development", "../.env.development.local", "../.env", "../.env.local"]
    );
}

#[test]
fn env_files_for_release_builds() {
    assert_eq!(
        env_files(false),
        vec!["../.env.production", "../.env.production.local", "../.env", "../.env.local"]
    );
}

#[test]
fn files_are_asked_for_in_order() {
    for debug in [true, false] {
        let files = env_files(debug);
        let mut outcomes = Vec::new();
        for file in &files {
            assert_eq!(load_step(debug, &outcomes).as_ref(), Some(file));
            outcomes.push(EnvFileOutcome::Absent);
        }
        assert_eq!(finished(debug, &outcomes), Some(Ok(())));
    }
}

#[test]
fn absent_and_loaded_files_are_no_error() {
    let outcomes = vec![
        EnvFileOutcome::Loaded,
        EnvFileOutcome::Absent,
        EnvFileOutcome::Loaded,
        EnvFileOutcome::Absent,
    ];
    assert_eq!(finished(true, &outcomes), Some(Ok(())));
    assert_eq!(finished(false, &outcomes), Some(Ok(())));
}

#[test]
fn a_failed_file_stops_loading_with_its_error() {
    let outcomes = vec![
        EnvFileOutcome::Absent,
        EnvFileOutcome::Loaded,
        EnvFileOutcome::Failed("LineParse(\"x\", 0)".to_string()),
    ];
    assert_eq!(
        finished(true, &outcomes),
        Some(Err("Error fetching environment file '../.env', LineParse(\"x\", 0)".to_string()))
    );
}

#[test]
fn the_first_failure_wins_and_later_outcomes_change_nothing() {
    let mut outcomes = vec![EnvFileOutcome::Failed("first".to_string())];
    let expected = Some(Err("Error fetching environment file '../.env.production', first".to_string()));
    assert_eq!(finished(false, &outcomes), expected);
    outcomes.push(EnvFileOutcome::Failed("second".to_string()));
    outcomes.push(EnvFileOutcome::Loaded);
    assert_eq!(finished(false, &outcomes), expected);
}

#[test]
fn a_finished_load_stays_finished() {
    let mut outcomes = vec![
        EnvFileOutcome::Absent,
        EnvFileOutcome::Absent,
        EnvFileOutcome::Absent,
        EnvFileOutcome::Absent,
    ];
    assert_eq!(finished(true, &outcomes), Some(Ok(())));
    outcomes.push(EnvFileOutcome::Failed("late".to_string()));
    assert_eq!(finished(true, &outcomes), Some(Ok(())));
}

#[test]
fn one_file_result() {
    assert_eq!(load_env_file_if_present("../.env", &EnvFileOutcome::Absent), Ok(()));
    assert_eq!(load_env_file_if_present("../.env", &EnvFileOutcome::Loaded), Ok(()));
    assert_eq!(
        load_env_file_if_present("../.env.local", &EnvFileOutcome::Failed("Io(..)".to_string())),
        Err("Error fetching environment file '../.env.local', Io(..)".to_string())
    );
}
