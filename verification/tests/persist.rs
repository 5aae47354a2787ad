//! Round trip through the real TOML text format: the record tree is written
//! with the toml crate and read back, and the result decodes to an
//! equivalent model tree.

use gtd::codec::FileRecord;
use gtd::codec::ListRecord;
use gtd::codec::ProjectRecord;
use gtd::codec::TaskRecord;
use gtd::gtd::File;
use gtd::gtd::List;
use gtd::gtd::Project;
use gtd::gtd::ProjectContainer;
use gtd::gtd::Status;
use gtd::gtd::Task;
use gtd::gtd::TaskContainer;
use toml::Table;
use toml::Value;

fn strings_to_value(strings: &[String]) -> Value {
    Value::Array(strings.iter().map(|s| Value::String(s.clone())).collect())
}

fn task_to_value(t: &TaskRecord) -> Value {
    let mut m = Table::new();
    m.insert("name".to_string(), Value::String(t.name.clone()));
    if let Some(d) = &t.description {
        m.insert("description".to_string(), Value::String(d.clone()));
    }
    m.insert("status".to_string(), Value::String(t.status.clone()));
    m.insert("contexts".to_string(), strings_to_value(&t.contexts));
    Value::Table(m)
}

fn project_to_value(p: &ProjectRecord) -> Value {
    let mut m = Table::new();
    m.insert("name".to_string(), Value::String(p.name.clone()));
    m.insert("tasks".to_string(), Value::Array(p.tasks.iter().map(task_to_value).collect()));
    m.insert("contexts".to_string(), strings_to_value(&p.contexts));
    Value::Table(m)
}

fn list_to_value(l: &ListRecord) -> Value {
    let mut m = Table::new();
    m.insert("name".to_string(), Value::String(l.name.clone()));
    m.insert("contexts".to_string(), strings_to_value(&l.contexts));
    m.insert("tasks".to_string(), Value::Array(l.tasks.iter().map(task_to_value).collect()));
    m.insert(
        "projects".to_string(),
        Value::Array(l.projects.iter().map(project_to_value).collect()),
    );
    Value::Table(m)
}

fn file_to_table(f: &FileRecord) -> Table {
    let mut m = Table::new();
    m.insert("lists".to_string(), Value::Array(f.lists.iter().map(list_to_value).collect()));
    m
}

fn value_to_strings(v: &Value) -> Vec<String> {
    v.as_array().unwrap().iter().map(|s| s.as_str().unwrap().to_string()).collect()
}

fn value_to_task(v: &Value) -> TaskRecord {
    let m = v.as_table().unwrap();
    TaskRecord {
        name: m["name"].as_str().unwrap().to_string(),
        description: m.get("description").map(|d| d.as_str().unwrap().to_string()),
        status: m["status"].as_str().unwrap().to_string(),
        contexts: value_to_strings(&m["contexts"]),
    }
}

fn value_to_project(v: &Value) -> ProjectRecord {
    let m = v.as_table().unwrap();
    assert!(m.get("status").is_none(), "a project record must not carry a status field");
    ProjectRecord {
        name: m["name"].as_str().unwrap().to_string(),
        tasks: m["tasks"].as_array().unwrap().iter().map(value_to_task).collect(),
        contexts: value_to_strings(&m["contexts"]),
    }
}

fn value_to_list(v: &Value) -> ListRecord {
    let m = v.as_table().unwrap();
    ListRecord {
        name: m["name"].as_str().unwrap().to_string(),
        contexts: value_to_strings(&m["contexts"]),
        tasks: m["tasks"].as_array().unwrap().iter().map(value_to_task).collect(),
        projects: m["projects"].as_array().unwrap().iter().map(value_to_project).collect(),
    }
}

fn table_to_file(m: &Table) -> FileRecord {
    FileRecord { lists: m["lists"].as_array().unwrap().iter().map(value_to_list).collect() }
}

#[test]
fn toml_text_round_trip() {
    let mut home = List::new("Home".to_string());
    home.push_task(Task::new("Dust".to_string(), Some("the shelves".to_string())));
    let mut garden = Project::new("Garden".to_string());
    let mut mow = Task::new("Mow".to_string(), None);
    mow.status = Status::DONE;
    mow.contexts.push("outside".to_string());
    garden.tasks.push(mow);
    garden.tasks.push(Task::new("Rake".to_string(), None));
    home.push_project(garden);
    home.contexts.push("errands".to_string());
    let file = File { lists: vec![home, List::new("Work".to_string())] };

    let text = toml::to_string(&file_to_table(&file.to_record())).unwrap();
    assert!(text.contains("[[lists]]"));

    let parsed: Table = toml::from_str(&text).unwrap();
    let back = table_to_file(&parsed).to_file().unwrap();

    assert_eq!(back.lists.len(), 2);
    assert_eq!(back.lists[0].name, "Home");
    assert_eq!(back.lists[0].contexts, vec!["errands"]);
    assert_eq!(back.lists[0].tasks[0].name, "Dust");
    assert_eq!(back.lists[0].tasks[0].description.as_deref(), Some("the shelves"));
    assert_eq!(back.lists[0].tasks[0].status, Status::TODO);
    let garden = &back.lists[0].projects[0];
    assert_eq!(garden.name, "Garden");
    assert_eq!(garden.tasks[0].status, Status::DONE);
    assert_eq!(garden.tasks[0].contexts, vec!["outside"]);
    assert_eq!(garden.status(), Status::TODO);
    assert_eq!(back.lists[1].name, "Work");
}

#[test]
fn serialized_projects_carry_no_status_key() {
    let mut garden = Project::new("Garden".to_string());
    garden.push_task(Task::new("Mow".to_string(), None));
    let mut home = List::new("Home".to_string());
    home.push_project(garden);
    let file = File { lists: vec![home] };

    let text = toml::to_string(&file_to_table(&file.to_record())).unwrap();
    let parsed: Table = toml::from_str(&text).unwrap();
    let project = parsed["lists"].as_array().unwrap()[0].as_table().unwrap()["projects"]
        .as_array()
        .unwrap()[0]
        .as_table()
        .unwrap();
    assert!(project.get("status").is_none());
    assert!(project.get("name").is_some());
}
