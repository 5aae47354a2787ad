use gtd::gtd::ContextContainer;
use gtd::gtd::ErrorKind;
use gtd::gtd::File;
use gtd::gtd::List;
use gtd::gtd::ListContainer;
use gtd::gtd::Project;
use gtd::gtd::ProjectContainer;
use gtd::gtd::Status;
use gtd::gtd::Task;
use gtd::gtd::TaskContainer;

#[test]
fn new_task_is_todo_and_not_done() {
    let t = Task::new("Mow".to_string(), Some("the lawn".to_string()));
    assert_eq!(t.status, Status::TODO);
    assert!(!t.done());
    assert_eq!(t.name, "Mow");
    assert_eq!(t.description.as_deref(), Some("the lawn"));
    assert!(t.contexts.is_empty());
}

#[test]
fn project_status_is_derived() {
    let mut p = Project::new("Garden".to_string());
    assert_eq!(p.status(), Status::TODO);

    p.push_task(Task::new("Mow".to_string(), None));
    p.push_task(Task::new("Rake".to_string(), None));
    assert_eq!(p.status(), Status::TODO);

    p.get_task_mut(0).unwrap().status = Status::DONE;
    assert_eq!(p.status(), Status::TODO);

    p.get_task_mut(1).unwrap().status = Status::DONE;
    assert_eq!(p.status(), Status::DONE);
}

#[test]
fn empty_rollup_asymmetry() {
    let l = List::new("Home".to_string());
    assert!(!l.all_tasks_done());
    assert!(l.all_projects_done());

    let p = Project::new("Garden".to_string());
    assert!(!p.all_tasks_done());
}

#[test]
fn task_exists_forced_polarity() {
    let mut p = Project::new("Garden".to_string());
    assert_eq!(p.task_exists_forced("Mow").unwrap(), true);

    p.push_task(Task::new("Mow".to_string(), None));
    assert!(p.task_exists("Mow"));
    assert!(!p.task_exists("mow"));
    let e = p.task_exists_forced("Mow").unwrap_err();
    assert_eq!(e.kind, ErrorKind::AlreadyExists);
    assert_eq!(e.message, "Task already exists.");
    assert_eq!(p.task_exists_forced("Rake").unwrap(), true);
}

#[test]
fn project_and_list_exists_forced_polarity() {
    let mut l = List::new("Home".to_string());
    assert_eq!(l.project_exists_forced("Garden").unwrap(), true);
    l.push_project(Project::new("Garden".to_string()));
    let e = l.project_exists_forced("Garden").unwrap_err();
    assert_eq!(e.kind, ErrorKind::AlreadyExists);

    let mut f = File { lists: vec![] };
    assert_eq!(f.list_exists_forced("Home").unwrap(), true);
    f.push_list(l);
    let e = f.list_exists_forced("Home").unwrap_err();
    assert_eq!(e.kind, ErrorKind::AlreadyExists);
    assert_eq!(e.message, "List already exists.");
}

#[test]
fn status_parse_rules() {
    assert_eq!(Status::parse(&None).unwrap(), Status::DONE);
    assert_eq!(Status::parse(&Some("".to_string())).unwrap(), Status::DONE);
    assert_eq!(Status::parse(&Some("done".to_string())).unwrap(), Status::DONE);
    assert_eq!(Status::parse(&Some("DONE".to_string())).unwrap(), Status::DONE);
    assert_eq!(Status::parse(&Some("DoNe".to_string())).unwrap(), Status::DONE);
    assert_eq!(Status::parse(&Some("todo".to_string())).unwrap(), Status::TODO);
    assert_eq!(Status::parse(&Some("TODO".to_string())).unwrap(), Status::TODO);
    assert_eq!(Status::parse(&Some("ToDo".to_string())).unwrap(), Status::TODO);

    let e = Status::parse(&Some("xyz".to_string())).unwrap_err();
    assert_eq!(e.kind, ErrorKind::InvalidInput);
    assert!(e.message.contains("xyz"));
}

#[test]
fn garden_scenario() {
    let mut list = List::new("Home".to_string());
    let mut garden = Project::new("Garden".to_string());
    garden.push_task(Task::new("Mow".to_string(), None));
    garden.push_task(Task::new("Rake".to_string(), None));
    list.push_project(garden);

    assert_eq!(list.projects_completed(), 0);

    let garden = list.get_project_mut(0).unwrap();
    garden.get_task_mut(0).unwrap().status = Status::DONE;
    garden.get_task_mut(1).unwrap().status = Status::DONE;

    assert_eq!(list.get_project(0).unwrap().status(), Status::DONE);
    assert_eq!(list.projects_completed(), 1);
    assert!(list.all_projects_done());
}

#[test]
fn remove_task_shifts_later_tasks() {
    let mut p = Project::new("Garden".to_string());
    p.push_task(Task::new("a".to_string(), None));
    p.push_task(Task::new("b".to_string(), None));
    p.push_task(Task::new("c".to_string(), None));

    let removed = p.remove_task(0);
    assert_eq!(removed.name, "a");
    assert_eq!(p.get_task(0).unwrap().name, "b");
    assert_eq!(p.get_task(1).unwrap().name, "c");
    assert!(p.get_task(2).is_none());
}

#[test]
fn forced_lookups_report_not_found() {
    let mut p = Project::new("Garden".to_string());
    let e = p.get_task_forced(0).unwrap_err();
    assert_eq!(e.kind, ErrorKind::NotFound);
    assert_eq!(e.message, "Task not found.");
    let e = p.get_task_mut_forced(0).unwrap_err();
    assert_eq!(e.kind, ErrorKind::NotFound);

    p.push_task(Task::new("Mow".to_string(), None));
    assert_eq!(p.get_task_forced(0).unwrap().name, "Mow");
    p.get_task_mut_forced(0).unwrap().status = Status::DONE;
    assert_eq!(p.tasks_completed(), 1);

    let mut l = List::new("Home".to_string());
    let e = l.get_project_forced(0).unwrap_err();
    assert_eq!(e.kind, ErrorKind::NotFound);
    assert_eq!(e.message, "Project not found.");
    let e = l.get_project_mut_forced(0).unwrap_err();
    assert_eq!(e.kind, ErrorKind::NotFound);
}

#[test]
fn list_lookup_is_by_name_first_match() {
    let mut f = File { lists: vec![] };
    assert!(f.get_list("Home").is_none());

    let mut home_a = List::new("Home".to_string());
    home_a.push_task(Task::new("first".to_string(), None));
    f.push_list(home_a);
    f.push_list(List::new("Work".to_string()));
    let mut home_b = List::new("Home".to_string());
    home_b.push_task(Task::new("second".to_string(), None));
    f.push_list(home_b);

    let found = f.get_list("Home").unwrap();
    assert_eq!(found.get_task(0).unwrap().name, "first");
    assert!(f.list_exists("Work"));
    assert!(!f.list_exists("Road"));

    let e = f.get_list_forced("Road").unwrap_err();
    assert_eq!(e.kind, ErrorKind::NotFound);
    assert_eq!(e.message, "List not found.");
    let e = f.get_list_mut_forced("Road").unwrap_err();
    assert_eq!(e.kind, ErrorKind::NotFound);

    let found = f.get_list_mut("Home").unwrap();
    found.push_task(Task::new("third".to_string(), None));
    assert_eq!(f.lists[0].tasks.len(), 2);
    assert_eq!(f.lists[2].tasks.len(), 1);

    let found = f.get_list_mut_forced("Work").unwrap();
    found.name = "Office".to_string();
    assert_eq!(f.lists[1].name, "Office");

    let found = f.get_list_forced("Office").unwrap();
    assert_eq!(found.name, "Office");
}

#[test]
fn constructors_start_empty() {
    let p = Project::new("Garden".to_string());
    assert_eq!(p.name, "Garden");
    assert!(p.tasks.is_empty());
    assert!(p.contexts.is_empty());
    assert_eq!(p.tasks_completed(), 0);

    let l = List::new("Home".to_string());
    assert_eq!(l.name, "Home");
    assert!(l.tasks.is_empty());
    assert!(l.projects.is_empty());
    assert!(l.contexts.is_empty());
    assert_eq!(l.projects_completed(), 0);
}

#[test]
fn positional_project_lookup() {
    let mut l = List::new("Home".to_string());
    l.push_project(Project::new("Garden".to_string()));
    l.push_project(Project::new("Kitchen".to_string()));

    assert_eq!(l.get_project(0).unwrap().name, "Garden");
    assert_eq!(l.get_project(1).unwrap().name, "Kitchen");
    assert!(l.get_project(2).is_none());
    assert_eq!(l.get_project_forced(1).unwrap().name, "Kitchen");

    l.get_project_mut(0).unwrap().name = "Front garden".to_string();
    assert_eq!(l.projects[0].name, "Front garden");

    let removed = l.remove_project(0);
    assert_eq!(removed.name, "Front garden");
    assert_eq!(l.get_project(0).unwrap().name, "Kitchen");
    assert!(l.get_project(1).is_none());
}

#[test]
fn contexts_keep_order_and_duplicates() {
    let mut t = Task::new("Mow".to_string(), None);
    assert!(!t.has_context("outside"));
    t.push_context("outside".to_string());
    t.push_context("weekend".to_string());
    t.push_context("outside".to_string());
    assert!(t.has_context("outside"));
    assert!(t.has_context("weekend"));
    assert!(!t.has_context("Outside"));
    assert_eq!(t.contexts, vec!["outside", "weekend", "outside"]);

    let mut p = Project::new("Garden".to_string());
    p.push_context("home".to_string());
    assert!(p.has_context("home"));
    assert_eq!(p.contexts(), &vec!["home".to_string()]);

    let mut l = List::new("Home".to_string());
    l.push_context("errands".to_string());
    assert!(l.has_context("errands"));
    assert!(!l.has_context("errand"));
}

#[test]
fn completion_counts_never_mutate() {
    let mut l = List::new("Home".to_string());
    l.push_task(Task::new("a".to_string(), None));
    l.push_task(Task::new("b".to_string(), None));
    l.get_task_mut(1).unwrap().status = Status::DONE;

    assert_eq!(l.tasks_completed(), 1);
    assert_eq!(l.tasks_completed(), 1);
    assert!(!l.all_tasks_done());
    assert_eq!(l.get_task(0).unwrap().name, "a");
    assert_eq!(l.get_task(1).unwrap().name, "b");

    l.get_task_mut(0).unwrap().status = Status::DONE;
    assert!(l.all_tasks_done());
    assert_eq!(l.tasks_completed(), 2);
}
