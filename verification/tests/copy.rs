//! Copying a payload held in memory.

use std::collections::BTreeMap;

use selvedge::copy::{copy_dir, Kind, Reply, Step};

#[derive(Clone, Debug, PartialEq)]
enum Node {
    Dir(BTreeMap<&'static str, Node>),
    File(&'static str),
    Symlink,
    Socket,
}

fn dir(entries: &[(&'static str, Node)]) -> Node {
    Node::Dir(entries.iter().cloned().collect())
}

/// Walk `source`, and return the paths of what was made, with what they hold.
fn copy(
    source: &Node,
    full: bool,
) -> Result<BTreeMap<String, Option<&'static str>>, String> {
    let mut made: BTreeMap<String, Option<&'static str>> = BTreeMap::new();
    let mut open: Vec<(String, Vec<(&'static str, Node)>)> = Vec::new();
    let mut named = (String::new(), source.clone());
    let mut walk = copy_dir();
    loop {
        let reply = match walk.step {
            Step::Enter => {
                made.insert(named.0.clone(), None);
                match &named.1 {
                    Node::Dir(entries) => {
                        let entries = entries.iter().rev().map(|(n, e)| (*n, e.clone()));
                        open.push((named.0.clone(), entries.collect()));
                        Reply::Done
                    }
                    _ => Reply::Failed {
                        cause: "Not a directory".to_string(),
                    },
                }
            }
            Step::Next => {
                let (path, entries) = open.last_mut().unwrap();
                match entries.pop() {
                    Some((name, node)) => {
                        let place = format!("{path}/{name}");
                        named = (place.clone(), node);
                        let kind = match &named.1 {
                            Node::Dir(_) => Kind::Dir,
                            Node::File(_) => Kind::File,
                            Node::Symlink => Kind::Symlink,
                            Node::Socket => Kind::Other,
                        };
                        Reply::Entry { kind, place }
                    }
                    None => {
                        open.pop();
                        Reply::End
                    }
                }
            }
            Step::CopyFile => {
                if full {
                    Reply::Failed {
                        cause: "disk full".to_string(),
                    }
                } else {
                    if let Node::File(text) = &named.1 {
                        made.insert(named.0.clone(), Some(text));
                    }
                    Reply::Done
                }
            }
            Step::Finished { .. } => return walk.result().unwrap().map(|_| made),
        };
        walk.answer(reply);
    }
}

fn payload() -> Node {
    dir(&[
        ("a.qml", Node::File("a")),
        ("deep", dir(&[("er", dir(&[("b.js", Node::File("b"))]))])),
        ("empty", dir(&[])),
        ("z.qml", Node::File("z")),
    ])
}

#[test]
fn a_payload_is_copied_whole() {
    let made = copy(&payload(), false).unwrap();
    let expected: BTreeMap<String, Option<&'static str>> = [
        ("", None),
        ("/a.qml", Some("a")),
        ("/deep", None),
        ("/deep/er", None),
        ("/deep/er/b.js", Some("b")),
        ("/empty", None),
        ("/z.qml", Some("z")),
    ]
    .into_iter()
    .map(|(p, t)| (p.to_string(), t))
    .collect();
    assert_eq!(made, expected);
}

#[test]
fn a_symlink_is_refused_wherever_it_is() {
    let top = dir(&[("link", Node::Symlink)]);
    assert_eq!(
        copy(&top, false),
        Err("refusing to copy symlink /link".to_string())
    );
    let below = dir(&[("deep", dir(&[("link", Node::Symlink)]))]);
    assert_eq!(
        copy(&below, false),
        Err("refusing to copy symlink /deep/link".to_string())
    );
}

#[test]
fn what_is_neither_file_nor_directory_is_passed_over() {
    let odd = dir(&[("a", Node::File("a")), ("sock", Node::Socket)]);
    let made = copy(&odd, false).unwrap();
    assert!(made.contains_key("/a"));
    assert!(!made.contains_key("/sock"));
}

#[test]
fn a_copy_that_fails_says_why() {
    assert_eq!(copy(&payload(), true), Err("disk full".to_string()));
    assert_eq!(
        copy(&Node::File("x"), false),
        Err("Not a directory".to_string())
    );
}
