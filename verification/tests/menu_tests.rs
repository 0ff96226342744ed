use tray_env_menu::builder::{build_menu, MenuNode};
use tray_env_menu::codec::{decode, encode, EncodeError};
use tray_env_menu::model::{TrayCategory, TrayEnvFile, TrayGroup, TrayProjectData};
use tray_env_menu::resolver::{resolve_activation, ActivationResult};

fn group(id: &str, name: &str, project_id: &str, env_file_path: &str, category: &str) -> TrayGroup {
    TrayGroup {
        id: id.to_string(),
        name: name.to_string(),
        project_id: project_id.to_string(),
        env_file_path: env_file_path.to_string(),
        category: category.to_string(),
    }
}

fn demo_project() -> TrayProjectData {
    TrayProjectData {
        id: "p1".to_string(),
        name: "Demo".to_string(),
        env_files: vec![TrayEnvFile {
            name: ".env".to_string(),
            path: "/proj/.env".to_string(),
            categories: vec![TrayCategory {
                name: "General".to_string(),
                groups: vec![group("g1", "Local", "p1", "/proj/.env", "General")],
            }],
        }],
    }
}

#[test]
fn basic_build() {
    let nodes = build_menu(&vec![demo_project()]).unwrap();
    assert_eq!(nodes.len(), 6);
    match &nodes[0] {
        MenuNode::Header { label, token } => {
            assert_eq!(label, "📁 Demo");
            assert_eq!(token, "label-project-p1");
        },
        _ => panic!("expected project header"),
    }
    match &nodes[1] {
        MenuNode::Header { label, token } => {
            assert_eq!(label, "🧾 .env");
            assert_eq!(token, "label-env-p1-.env");
        },
        _ => panic!("expected env header"),
    }
    match &nodes[2] {
        MenuNode::Header { label, token } => {
            assert_eq!(label, "📂 General");
            assert_eq!(token, "label-cat-p1-.env-General");
        },
        _ => panic!("expected category header"),
    }
    match &nodes[3] {
        MenuNode::Action { label, token } => {
            assert_eq!(label, "⚙️ Local");
            let triple = decode(token).unwrap();
            assert_eq!(triple.project_id, "p1");
            assert_eq!(triple.env_file_path, "/proj/.env");
            assert_eq!(triple.group_id, "g1");
        },
        _ => panic!("expected group action"),
    }
    assert!(matches!(&nodes[4], MenuNode::Separator));
    match &nodes[5] {
        MenuNode::Action { label, token } => {
            assert_eq!(label, "Quit");
            assert_eq!(token, "quit-app");
        },
        _ => panic!("expected quit action"),
    }
}

#[test]
fn empty_tree_yields_only_quit() {
    let nodes = build_menu(&vec![]).unwrap();
    assert_eq!(nodes.len(), 1);
    assert!(matches!(&nodes[0], MenuNode::Action { .. }));
}

#[test]
fn order_preserved_across_projects() {
    let p1 = TrayProjectData {
        id: "p1".to_string(),
        name: "One".to_string(),
        env_files: vec![TrayEnvFile {
            name: ".env".to_string(),
            path: "/one/.env".to_string(),
            categories: vec![
                TrayCategory {
                    name: "A".to_string(),
                    groups: vec![
                        group("g1", "First", "p1", "/one/.env", "A"),
                        group("g2", "Second", "p1", "/one/.env", "A"),
                    ],
                },
                TrayCategory {
                    name: "B".to_string(),
                    groups: vec![group("g3", "Third", "p1", "/one/.env", "B")],
                },
            ],
        }],
    };
    let p2 = TrayProjectData {
        id: "p2".to_string(),
        name: "Two".to_string(),
        env_files: vec![TrayEnvFile {
            name: ".env.local".to_string(),
            path: "/two/.env.local".to_string(),
            categories: vec![TrayCategory {
                name: "C".to_string(),
                groups: vec![group("g4", "Fourth", "p2", "/two/.env.local", "C")],
            }],
        }],
    };
    let nodes = build_menu(&vec![p1, p2]).unwrap();
    let tokens: Vec<String> = nodes
        .iter()
        .filter_map(|n| match n {
            MenuNode::Action { token, .. } => Some(token.clone()),
            _ => None,
        })
        .collect();
    let expected = vec![
        encode("p1", "/one/.env", "g1").unwrap(),
        encode("p1", "/one/.env", "g2").unwrap(),
        encode("p1", "/one/.env", "g3").unwrap(),
        encode("p2", "/two/.env.local", "g4").unwrap(),
        "quit-app".to_string(),
    ];
    assert_eq!(tokens, expected);
}

#[test]
fn unsafe_group_fails_whole_build() {
    let mut p = demo_project();
    p.env_files[0].categories[0].groups.push(group("bad:id", "Oops", "p1", "/proj/.env", "General"));
    assert!(matches!(build_menu(&vec![p]), Err(EncodeError::UnsafeIdentifier)));
}

#[test]
fn activation_of_quit_terminates() {
    assert!(matches!(resolve_activation("quit-app"), ActivationResult::Terminate));
}

#[test]
fn activation_of_unknown_token_ignored() {
    assert!(matches!(resolve_activation("label-project-p1"), ActivationResult::Ignored));
    assert!(matches!(resolve_activation("something-else"), ActivationResult::Ignored));
}

#[test]
fn activation_of_group_token_applies_configuration() {
    let token = encode("p1", "/proj/.env", "g1").unwrap();
    match resolve_activation(&token) {
        ActivationResult::ApplyConfiguration { target } => {
            assert_eq!(target.project_id, "p1");
            assert_eq!(target.env_file_path, "/proj/.env");
            assert_eq!(target.group_id, "g1");
        },
        _ => panic!("expected apply"),
    }
}

#[test]
fn activation_of_malformed_token_reports_failure() {
    assert!(matches!(
        resolve_activation("tray-config-nodelimiters"),
        ActivationResult::ResolutionFailed { .. }
    ));
}
