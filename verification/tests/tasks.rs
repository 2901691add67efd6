use easy_patcher::menu::{menu_next, MenuEvent, MenuState};
use easy_patcher::task::{
    file_name_of, find_target_file, Action, AppConfig, Command, Task, TargetFile, TaskError,
};

#[test]
fn new_task_is_empty() {
    let t = Task::new("release".to_string());
    assert_eq!(t.name, "release");
    assert!(t.target_files.is_empty());
    assert!(t.actions.is_empty());
    assert!(t.projects.is_empty());
    assert!(t.output_dir.is_none());
}

#[test]
fn delete_action_copies_the_target() {
    let f = TargetFile { name: "web.xml".to_string(), path: "/srv/web.xml".to_string() };
    let a = Action::delete_action(&f);
    assert_eq!(a.target_file.name, "web.xml");
    assert_eq!(a.target_file.path, "/srv/web.xml");
    assert!(a.destination.is_none());
    assert_eq!(a.command, Command::Delete);
}

#[test]
fn move_action_keeps_its_destination() {
    let f = TargetFile { name: "a".to_string(), path: "/x/a".to_string() };
    let a = Action::move_action(&f, "/y/a".to_string());
    assert_eq!(a.destination.as_deref(), Some("/y/a"));
    assert_eq!(a.command, Command::Move);
}

#[test]
fn duplicate_task_names_are_refused() {
    let mut config = AppConfig::new();
    assert!(config.add_task("deploy").is_ok());
    assert!(matches!(config.add_task("deploy"), Err(TaskError::DuplicateName)));
    assert_eq!(config.tasks.len(), 1);
    assert!(config.add_task("other").is_ok());
    assert_eq!(config.tasks.len(), 2);
}

#[test]
fn get_task_finds_by_name() {
    let mut config = AppConfig::new();
    config.add_task("one").unwrap();
    config.add_task("two").unwrap();
    assert_eq!(config.get_task("two").unwrap().name, "two");
    assert!(config.get_task("three").is_none());
    let i = config.get_task_mut("one").unwrap();
    config.tasks[i].output_dir = Some("/out".to_string());
    assert_eq!(config.get_task("one").unwrap().output_dir.as_deref(), Some("/out"));
    assert!(config.get_task_mut("three").is_none());
}

#[test]
fn remove_task_drops_every_task_so_named() {
    let mut config = AppConfig::new();
    config.add_task("one").unwrap();
    config.add_task("two").unwrap();
    config.remove_task("one");
    assert_eq!(config.tasks.len(), 1);
    assert_eq!(config.tasks[0].name, "two");
    config.remove_task("missing");
    assert_eq!(config.tasks.len(), 1);
    // A store loaded from disk may hold duplicate names; one removal
    // clears them all and keeps the rest in order.
    let mut loaded = AppConfig {
        tasks: vec![
            Task::new("dup".to_string()),
            Task::new("keep".to_string()),
            Task::new("dup".to_string()),
            Task::new("tail".to_string()),
        ],
    };
    loaded.remove_task("dup");
    let names: Vec<&str> = loaded.tasks.iter().map(|t| t.name.as_str()).collect();
    assert_eq!(names, vec!["keep", "tail"]);
}

#[test]
fn target_files_are_found_by_name() {
    let files = vec![
        TargetFile { name: "a".to_string(), path: "/x/a".to_string() },
        TargetFile { name: "b".to_string(), path: "/x/b".to_string() },
    ];
    assert_eq!(find_target_file(&files, "b").unwrap().path, "/x/b");
    assert!(find_target_file(&files, "c").is_none());
}

#[test]
fn file_names_come_after_the_last_separator() {
    assert_eq!(file_name_of("/opt/app/web.xml"), "web.xml");
    assert_eq!(file_name_of("plain.txt"), "plain.txt");
    assert_eq!(file_name_of("dir/"), "");
    assert_eq!(file_name_of("C:\\work\\app\\build.war"), "build.war");
    assert_eq!(file_name_of("mixed\\dir/leaf.txt"), "leaf.txt");
}

#[test]
fn menu_walks_the_four_states() {
    assert_eq!(menu_next(MenuState::MainMenu, MenuEvent::ChooseExecute), MenuState::PatchSelection);
    assert_eq!(menu_next(MenuState::MainMenu, MenuEvent::ChooseSetting), MenuState::TaskMenu);
    assert_eq!(menu_next(MenuState::TaskMenu, MenuEvent::ChooseBack), MenuState::MainMenu);
    assert_eq!(
        menu_next(MenuState::PatchSelection, MenuEvent::SelectionComplete),
        MenuState::ConfirmApply
    );
    assert_eq!(
        menu_next(MenuState::PatchSelection, MenuEvent::SelectionEmpty),
        MenuState::MainMenu
    );
    assert_eq!(menu_next(MenuState::ConfirmApply, MenuEvent::Confirm), MenuState::MainMenu);
    // Declining the confirmation aborts the run back to the main menu.
    assert_eq!(menu_next(MenuState::ConfirmApply, MenuEvent::Decline), MenuState::MainMenu);
    assert_eq!(menu_next(MenuState::MainMenu, MenuEvent::ChooseExit), MenuState::Finished);
    // An event without an edge stays put.
    assert_eq!(menu_next(MenuState::TaskMenu, MenuEvent::Confirm), MenuState::TaskMenu);
}
