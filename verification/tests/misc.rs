use muc::front::Scene;
use muc::server::file::{ConsPath, FileSystem, Path};

#[test]
fn scene_titles() {
    assert_eq!(Scene::Home.title(), "Home");
    assert_eq!(Scene::Contact.title(), "Contact");
    assert_eq!(Scene::NotFound.title(), "Not found");
}

#[test]
fn path_building() {
    let p = Path::new(FileSystem::External, "a/b");
    assert_eq!(p.build("root"), "root\\files\\a/b");
    assert_eq!(p.fs(), FileSystem::External);
    let q = p + "/c.txt";
    assert_eq!(q.build(""), "\\files\\a/b/c.txt");
    let r = Path::from(ConsPath::new(FileSystem::External, "x"));
    assert_eq!(r.join("y").build("R"), "R\\files\\xy");
}
