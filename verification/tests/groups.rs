use gitlab_tokens_exporter::gitlab::api::{current_user_url, group_url};
use gitlab_tokens_exporter::gitlab::group::{GroupFullPath, PathStep};
use gitlab_tokens_exporter::gitlab::Group;
use std::collections::HashMap;

fn group(id: usize, parent_id: Option<usize>, path: &str) -> Group {
    Group {
        id,
        parent_id,
        path: path.to_owned(),
        web_url: format!("https://gl.example.com/groups/{path}"),
    }
}

/// Puts the full path of a group together, asking `server` for unknown groups. Also gives the
/// ids that were asked for.
fn full_path(
    start: &Group,
    cache: &mut HashMap<usize, Group>,
    server: &[(usize, Group)],
) -> (String, Vec<usize>) {
    let mut path = GroupFullPath::start(start, cache);
    let mut asked = Vec::new();
    let mut answer = None;
    loop {
        match path.step(answer.take(), cache) {
            PathStep::Complete => return (path.into_path(), asked),
            PathStep::Climbed => {}
            PathStep::Fetch { id } => {
                asked.push(id);
                answer = server.iter().find(|(key, _)| *key == id).map(|(_, g)| g.clone());
            }
        }
    }
}

#[test]
fn root_group_is_its_own_path() {
    let mut cache = HashMap::new();
    let (path, asked) = full_path(&group(1, None, "root"), &mut cache, &[]);
    assert_eq!(path, "root");
    assert!(asked.is_empty());
    assert_eq!(cache.len(), 1);
    assert_eq!(cache[&1].path, "root");
}

#[test]
fn ancestors_are_fetched_and_joined() {
    let mut cache = HashMap::new();
    let server = [(1, group(1, None, "root")), (2, group(2, Some(1), "middle"))];
    let (path, asked) = full_path(&group(3, Some(2), "leaf"), &mut cache, &server);
    assert_eq!(path, "root/middle/leaf");
    assert_eq!(asked, vec![2, 1]);
    assert_eq!(cache.len(), 3);
}

#[test]
fn second_lookup_asks_nothing() {
    let mut cache = HashMap::new();
    let server = [(1, group(1, None, "root")), (2, group(2, Some(1), "middle"))];
    let leaf = group(3, Some(2), "leaf");
    let (first, _) = full_path(&leaf, &mut cache, &server);
    let (second, asked) = full_path(&leaf, &mut cache, &[]);
    assert_eq!(first, second);
    assert!(asked.is_empty());
    let (sibling, asked) = full_path(&group(4, Some(2), "other"), &mut cache, &[]);
    assert_eq!(sibling, "root/middle/other");
    assert!(asked.is_empty());
}

#[test]
fn known_groups_are_kept() {
    let mut cache = HashMap::new();
    cache.insert(2, group(2, None, "known"));
    let server = [(2, group(2, Some(1), "other"))];
    let (path, asked) = full_path(&group(3, Some(2), "leaf"), &mut cache, &server);
    assert_eq!(path, "known/leaf");
    assert!(asked.is_empty());
    assert_eq!(cache[&2].path, "known");
}

#[test]
fn known_group_gives_the_parent() {
    let mut cache = HashMap::new();
    cache.insert(3, group(3, None, "old-leaf"));
    let (path, asked) = full_path(&group(3, Some(2), "leaf"), &mut cache, &[]);
    assert_eq!(path, "leaf");
    assert!(asked.is_empty());
    assert_eq!(cache[&3].path, "old-leaf");
}

#[test]
fn answer_is_kept_under_the_id_asked_for() {
    let mut cache = HashMap::new();
    let mut path = GroupFullPath::start(&group(3, Some(2), "leaf"), &mut cache);
    assert!(matches!(path.step(None, &mut cache), PathStep::Fetch { id: 2 }));
    assert!(matches!(path.step(None, &mut cache), PathStep::Fetch { id: 2 }));
    let step = path.step(Some(group(9, None, "moved")), &mut cache);
    assert!(matches!(step, PathStep::Climbed));
    assert!(matches!(path.step(None, &mut cache), PathStep::Complete));
    assert_eq!(path.into_path(), "moved/leaf");
    assert_eq!(cache[&2].id, 9);
    assert!(!cache.contains_key(&9));
}

#[test]
fn urls_of_the_api() {
    assert_eq!(current_user_url("gl.example.com"), "https://gl.example.com/api/v4/user");
    assert_eq!(group_url("gl.example.com", 0), "https://gl.example.com/api/v4/groups/0");
    assert_eq!(group_url("gl.example.com", 10), "https://gl.example.com/api/v4/groups/10");
    assert_eq!(
        group_url("gl.example.com", usize::MAX),
        format!("https://gl.example.com/api/v4/groups/{}", usize::MAX)
    );
}

#[test]
fn group_urls_differ() {
    assert_ne!(group_url("gl.example.com", 1), group_url("gl.example.com", 11));
}

#[test]
fn only_unknown_ancestors_are_asked_nearest_first() {
    let mut cache = HashMap::new();
    cache.insert(3, group(3, Some(2), "c"));
    let server = [
        (1, group(1, None, "a")),
        (2, group(2, Some(1), "b")),
        (4, group(4, Some(3), "d")),
    ];
    let (path, asked) = full_path(&group(5, Some(4), "e"), &mut cache, &server);
    assert_eq!(path, "a/b/c/d/e");
    assert_eq!(asked, vec![4, 2, 1]);
}

#[test]
fn path_extends_the_path_of_the_parent() {
    let mut cache = HashMap::new();
    let parent = group(2, Some(1), "b");
    let (parent_path, _) = full_path(&parent, &mut cache, &[(1, group(1, None, "a"))]);
    let (path, asked) = full_path(&group(3, Some(2), "c"), &mut cache, &[]);
    assert_eq!(path, format!("{parent_path}/c"));
    assert!(asked.is_empty());
}
