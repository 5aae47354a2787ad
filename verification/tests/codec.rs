use gtd::codec::FileRecord;
use gtd::codec::ListRecord;
use gtd::codec::ProjectRecord;
use gtd::codec::TaskRecord;
use gtd::codec::decode_status;
use gtd::codec::encode_status;
use gtd::gtd::ErrorKind;
use gtd::gtd::File;
use gtd::gtd::List;
use gtd::gtd::Project;
use gtd::gtd::Status;
use gtd::gtd::Task;
use gtd::gtd::TaskContainer;

fn sample_file() -> File {
    let mut home = List::new("Home".to_string());
    home.push_task(Task::new("Dust".to_string(), Some("the shelves".to_string())));
    let mut garden = Project::new("Garden".to_string());
    let mut mow = Task::new("Mow".to_string(), None);
    mow.status = Status::DONE;
    mow.contexts.push("outside".to_string());
    garden.tasks.push(mow);
    garden.tasks.push(Task::new("Rake".to_string(), None));
    garden.contexts.push("weekend".to_string());
    home.projects.push(garden);
    home.contexts.push("errands".to_string());

    let work = List::new("Work".to_string());
    File { lists: vec![home, work] }
}

#[test]
fn status_literals_round_trip() {
    let todo = encode_status(Status::TODO);
    assert_eq!(todo, "TODO");
    assert_eq!(decode_status(&todo).unwrap(), Status::TODO);

    let done = encode_status(Status::DONE);
    assert_eq!(done, "DONE");
    assert_eq!(decode_status(&done).unwrap(), Status::DONE);
}

#[test]
fn decode_status_rejects_other_text() {
    for bad in ["todo", "done", "", "Todo", "xyz"] {
        let e = decode_status(bad).unwrap_err();
        assert_eq!(e.kind, ErrorKind::InvalidInput);
        assert_eq!(e.message, bad);
    }
}

#[test]
fn record_tree_round_trip() {
    let file = sample_file();
    let record = file.to_record();
    let back = record.to_file().unwrap();

    assert_eq!(back.lists.len(), 2);
    let home = &back.lists[0];
    assert_eq!(home.name, "Home");
    assert_eq!(home.contexts, vec!["errands"]);
    assert_eq!(home.tasks.len(), 1);
    assert_eq!(home.tasks[0].name, "Dust");
    assert_eq!(home.tasks[0].description.as_deref(), Some("the shelves"));
    assert_eq!(home.tasks[0].status, Status::TODO);

    let garden = &home.projects[0];
    assert_eq!(garden.name, "Garden");
    assert_eq!(garden.contexts, vec!["weekend"]);
    assert_eq!(garden.tasks[0].name, "Mow");
    assert_eq!(garden.tasks[0].status, Status::DONE);
    assert_eq!(garden.tasks[0].contexts, vec!["outside"]);
    assert_eq!(garden.tasks[1].name, "Rake");
    assert_eq!(garden.tasks[1].status, Status::TODO);

    assert_eq!(back.lists[1].name, "Work");
    assert!(back.lists[1].tasks.is_empty());
}

#[test]
fn task_record_carries_status_text() {
    let mut t = Task::new("Mow".to_string(), None);
    let rec = t.to_record();
    assert_eq!(rec.status, "TODO");
    t.status = Status::DONE;
    let rec = t.to_record();
    assert_eq!(rec.status, "DONE");
    assert_eq!(rec.name, "Mow");
}

#[test]
fn decode_rejects_unknown_status_literal() {
    let record = FileRecord {
        lists: vec![ListRecord {
            name: "Home".to_string(),
            contexts: vec![],
            tasks: vec![],
            projects: vec![ProjectRecord {
                name: "Garden".to_string(),
                tasks: vec![TaskRecord {
                    name: "Mow".to_string(),
                    description: None,
                    status: "started".to_string(),
                    contexts: vec![],
                }],
                contexts: vec![],
            }],
        }],
    };
    let e = record.to_file().unwrap_err();
    assert_eq!(e.kind, ErrorKind::InvalidInput);
    assert_eq!(e.message, "started");
}

#[test]
fn decoded_project_status_is_derived_again() {
    let record = ProjectRecord {
        name: "Garden".to_string(),
        tasks: vec![
            TaskRecord {
                name: "Mow".to_string(),
                description: None,
                status: "DONE".to_string(),
                contexts: vec![],
            },
            TaskRecord {
                name: "Rake".to_string(),
                description: None,
                status: "DONE".to_string(),
                contexts: vec![],
            },
        ],
        contexts: vec![],
    };
    let project = record.to_project().unwrap();
    assert_eq!(project.status(), Status::DONE);
    assert_eq!(project.tasks_completed(), 2);
}
